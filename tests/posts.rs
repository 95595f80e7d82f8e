use foundation_api::date::CalendarDate;
use foundation_api::lang::Language;
use foundation_api::news::{News, NewsMeta, SmallNewsPost};
use foundation_api::post_provider::{is_draft_name, LoadError, PostMeta, SourceFile};
use foundation_api::posts::{parse_file_name, split_front_matter, FileNameError};
use foundation_api::text::split_keywords;
use std::sync::Arc;

fn meta(title: &str, keywords: &[&str]) -> NewsMeta {
    NewsMeta {
        title: title.to_string(),
        published: CalendarDate { year: 2024, month: 1, day: 2 },
        modified: None,
        description: format!("about {}", title),
        keywords: keywords.iter().map(|k| k.to_string()).collect(),
        authors: vec!["someone".to_string()],
        image: None,
    }
}

fn file(name: &str, title: &str, keywords: &[&str]) -> SourceFile<NewsMeta> {
    SourceFile {
        file_name: name.to_string(),
        meta: meta(title, keywords),
        text: format!("# {}\n\nbody", title),
        asciidoc_html: None,
    }
}

fn titles(items: &[Arc<SmallNewsPost>]) -> Vec<String> {
    items.iter().map(|p| p.title.clone()).collect()
}

fn fixture() -> News {
    News::load(vec![
        file("1.a.en.md", "A", &["x", "y"]),
        file("3.b.en.md", "B", &["y", "z"]),
        file("2.c.en.md", "C", &["q"]),
        file("5.d.de.md", "D", &["y"]),
        file("_9.draft.en.md", "Draft", &["y"]),
    ])
    .ok()
    .unwrap()
}

#[test]
fn file_name_with_extension_parses() {
    let (idx, lang, slug) = parse_file_name("3.my-slug.en.md").unwrap();
    assert_eq!(idx, 3);
    assert_eq!(lang, Language::English);
    assert_eq!(slug, "my-slug");
}

#[test]
fn file_name_with_too_few_fields_fails() {
    assert_eq!(parse_file_name("bad-name.md"), Err(FileNameError::InvalidIndex));
    assert_eq!(parse_file_name("4.slug"), Err(FileNameError::MissingLanguage));
    assert_eq!(parse_file_name("4"), Err(FileNameError::MissingSlug));
    assert_eq!(parse_file_name("4.slug.fr.md"), Err(FileNameError::InvalidLanguage));
    assert_eq!(parse_file_name("+7.slug.de"), Ok((7, Language::German, "slug")));
    assert_eq!(parse_file_name("4294967296.slug.de"), Err(FileNameError::InvalidIndex));
}

#[test]
fn front_matter_is_split_at_the_fences() {
    let content = "\n  ---\ntitle: x\n---\nbody text";
    assert_eq!(split_front_matter(content), Some(("\ntitle: x\n", "\nbody text")));
    assert_eq!(split_front_matter("no fence"), None);
    assert_eq!(split_front_matter("---\nunclosed"), None);
}

#[test]
fn load_sorts_newest_first_and_skips_drafts() {
    let news = fixture();
    let en = news.content_by_lang(Language::English);
    assert_eq!(titles(&en), vec!["B", "C", "A"]);
    let idx: Vec<u32> = en.iter().map(|p| p.idx()).collect();
    assert_eq!(idx, vec![3, 2, 1]);
    assert_eq!(titles(&news.content_by_lang(Language::German)), vec!["D"]);
}

#[test]
fn load_renders_markdown_bodies() {
    let news = fixture();
    let post = news.content_by_slug(Language::English, "a").unwrap();
    assert!(post.body.contains("<h1>A</h1>"));
    assert!(post.body.contains("<p>body</p>"));
    assert!(news.content_by_slug(Language::German, "a").is_none());
    assert!(news.content_by_slug(Language::English, "draft").is_none());
}

#[test]
fn load_of_empty_and_single_directories() {
    let empty = News::load(Vec::new()).ok().unwrap();
    assert!(empty.content_by_lang(Language::English).is_empty());
    let single = News::load(vec![file("7.only.en.md", "Only", &[])]).ok().unwrap();
    assert_eq!(titles(&single.content_by_lang(Language::English)), vec!["Only"]);
}

#[test]
fn load_fails_on_a_bad_file_name() {
    let r = News::load(vec![file("1.a.en.md", "A", &[]), file("oops.md", "B", &[])]);
    assert_eq!(r.err(), Some(LoadError::FileName(FileNameError::InvalidIndex)));
}

#[test]
fn load_is_repeatable() {
    let a = fixture();
    let b = fixture();
    assert_eq!(titles(&a.content_by_lang(Language::English)), titles(&b.content_by_lang(Language::English)));
}

#[test]
fn keyword_search_matches_any_keyword() {
    let news = fixture();
    let y = vec!["y".to_string()];
    assert_eq!(titles(&news.search_by_keywords(Language::English, &y)), vec!["B", "A"]);
    let xyz = vec!["x".to_string(), "y".to_string(), "z".to_string()];
    assert_eq!(titles(&news.search_by_keywords(Language::English, &xyz)), vec!["B", "A"]);
    let none = vec!["nothing".to_string()];
    assert!(news.search_by_keywords(Language::English, &none).is_empty());
}

#[test]
fn keyword_search_with_empty_query_returns_all_of_the_language() {
    let news = fixture();
    assert_eq!(titles(&news.search_by_keywords(Language::English, &[])), vec!["B", "C", "A"]);
}

#[test]
fn keywords_are_collected_once() {
    let news = fixture();
    let mut k = news.keywords();
    k.sort();
    assert_eq!(k, vec!["q", "x", "y", "z"]);
}

#[test]
fn keyword_query_is_split_at_commas() {
    assert_eq!(split_keywords("rust,verus"), vec!["rust", "verus"]);
    assert_eq!(split_keywords(""), vec![""]);
}

#[test]
fn empty_and_single_file_collections() {
    let empty = News::load(Vec::new()).ok().unwrap();
    assert!(empty.content_by_lang(Language::English).is_empty());
    assert!(empty.content_by_lang(Language::German).is_empty());
    assert!(empty.keywords().is_empty());
    let single = News::load(vec![file("3.my-slug.en.md", "Mine", &["k"])]).ok().unwrap();
    let en = single.content_by_lang(Language::English);
    assert_eq!(en.len(), 1);
    assert_eq!(en[0].idx(), 3);
    assert_eq!(en[0].slug(), "my-slug");
    assert!(single.content_by_lang(Language::German).is_empty());
}

#[test]
fn list_forms_keep_every_field_but_the_body() {
    let news = fixture();
    let short = &news.content_by_lang(Language::English)[0];
    let long = news.content_by_slug(Language::English, &short.slug).unwrap();
    assert_eq!(short.title, long.title);
    assert_eq!(short.published, long.published);
    assert_eq!(short.description, long.description);
    assert_eq!(short.keywords, long.keywords);
    assert_eq!(short.authors, long.authors);
}

#[test]
fn drafts_are_told_by_a_leading_underscore() {
    assert!(is_draft_name("_1.x.en.md"));
    assert!(!is_draft_name("1._x.en.md"));
    assert!(!is_draft_name(""));
}
