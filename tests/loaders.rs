use foundation_api::bird::{page_content, BirdError};
use foundation_api::documents::{Document, Documents, DocumentsError};
use foundation_api::lang::Language;
use foundation_api::mirrors::{Mirror, Mirrors};
use foundation_api::static_content::StaticContent;
use foundation_api::team::{Socials, Team, TeamMember, WorkingGroup};
use foundation_api::text_blocks::{parse_file_name, TextBlockError, TextBlocks};

#[test]
fn text_block_names_split_at_the_last_dot() {
    assert_eq!(parse_file_name("welcome.en"), Ok((Language::English, "welcome")));
    assert_eq!(parse_file_name("a.b.de"), Ok((Language::German, "a.b")));
    assert_eq!(parse_file_name("nodot"), Err(TextBlockError::InvalidFormat));
    assert_eq!(parse_file_name("x.fr"), Err(TextBlockError::InvalidLanguage));
}

#[test]
fn text_blocks_are_found_by_language_and_slug() {
    let blocks = TextBlocks::from_files(vec![
        ("welcome.en".to_string(), "<p>hi</p>".to_string()),
        ("welcome.de".to_string(), "<p>hallo</p>".to_string()),
    ])
    .ok()
    .unwrap();
    assert_eq!(blocks.find_text_block(Language::German, "welcome").unwrap().body, "<p>hallo</p>");
    assert!(blocks.find_text_block(Language::English, "other").is_none());
    assert_eq!(
        TextBlocks::from_files(vec![("bad".to_string(), String::new())]).err(),
        Some(TextBlockError::InvalidFormat)
    );
}

fn socials() -> Socials {
    Socials { github: Some("gh".to_string()), email: None, mastodon: None, website: None, linkedin: None }
}

fn person(name: &str, texts: Vec<(Language, String)>) -> TeamMember<Vec<(Language, String)>> {
    TeamMember {
        name: name.to_string(),
        nick: None,
        vorstand: true,
        teams: vec![WorkingGroup::Network, WorkingGroup::DevOps],
        ripe_handle: Some("RIPE-1".to_string()),
        description: texts,
        image: "me.png".to_string(),
        socials: socials(),
    }
}

#[test]
fn team_members_are_described_in_the_language_asked() {
    let team = Team::new(vec![person(
        "Ada",
        vec![(Language::English, "Hello".to_string()), (Language::German, "Hallo".to_string())],
    )]);
    assert!(team.describes_all_in(&Language::German));
    let de = team.members(&Language::German);
    assert_eq!(de.len(), 1);
    assert_eq!(de[0].description, "Hallo");
    assert_eq!(de[0].name, "Ada");
    assert_eq!(de[0].socials.github.as_deref(), Some("gh"));
    let only_en = Team::new(vec![person("Bob", vec![(Language::English, "Hi".to_string())])]);
    assert!(only_en.describes_all_in(&Language::English));
    assert_eq!(only_en.members(&Language::English)[0].description, "Hi");
    assert!(!only_en.describes_all_in(&Language::German));
}

fn doc(name: &str) -> Document {
    Document { name: name.to_string(), description: String::new(), filename: format!("{}.pdf", name) }
}

#[test]
fn documents_are_listed_per_language() {
    let docs = Documents::new(vec![(Language::English, vec![doc("statutes")])]).ok().unwrap();
    assert_eq!(docs.documents(Language::English).unwrap()[0].filename, "statutes.pdf");
    assert!(docs.documents(Language::German).is_none());
    let twice = Documents::new(vec![(Language::English, vec![]), (Language::English, vec![])]);
    assert_eq!(twice.err(), Some(DocumentsError::DuplicateLanguage));
}

#[test]
fn mirrors_are_sorted_by_name() {
    let m = |n: &str| Mirror { name: n.to_string(), url: format!("https://{}", n), operator: "op".to_string() };
    let mirrors = Mirrors::new(vec![m("debian"), m("Arch"), m("alpine")]);
    let names: Vec<String> = mirrors.mirrors().into_iter().map(|x| x.name).collect();
    assert_eq!(names, vec!["Arch", "alpine", "debian"]);
}

#[test]
fn static_content_keeps_its_base() {
    assert_eq!(StaticContent::load("/srv/static").base_path, "/srv/static");
}

#[test]
fn status_page_shows_its_body() {
    let body = page_content("<html><head><title>t</title></head><body><p>up</p></body></html>").ok().unwrap();
    assert_eq!(body, "<p>up</p>");
    assert_eq!(page_content("plain"), Ok("plain".to_string()));
    assert_ne!(page_content("<body><b>x</b></body>"), Err(BirdError::MissingBody));
}
