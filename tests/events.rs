use foundation_api::event::{events_ending_after, upcoming_events, EventMeta, EventTime, Events};
use foundation_api::lang::Language;
use foundation_api::post_provider::{LoadError, SourceFile};

fn at(secs: i128) -> EventTime {
    EventTime { unix_nanos: secs * 1_000_000_000, offset_seconds: 3600 }
}

fn event(name: &str, end: i128) -> SourceFile<EventMeta> {
    SourceFile {
        file_name: name.to_string(),
        meta: EventMeta {
            title: name.to_string(),
            start_time: at(end - 10),
            end_time: at(end),
            location: "Dresden".to_string(),
            description: String::new(),
            keywords: vec!["meetup".to_string()],
            image: None,
            link: Some("https://example.org/".to_string()),
        },
        text: "= Title\n\nSome *text*.".to_string(),
        asciidoc_html: None,
    }
}

#[test]
fn upcoming_events_have_not_ended() {
    let events = Events::load(vec![event("1.old.en.md", 100), event("2.new.en.md", 300), event("3.neu.de.md", 300)])
        .ok()
        .unwrap();
    let up = events_ending_after(&events, Language::English, 200 * 1_000_000_000);
    let titles: Vec<&str> = up.iter().map(|e| e.title.as_str()).collect();
    assert_eq!(titles, vec!["2.new.en.md"]);
    assert_eq!(events.content_by_lang(Language::English).len(), 2);
}

#[test]
fn asciidoc_bodies_are_taken_as_handed_in() {
    let mut adoc = event("4.adoc-event.en.adoc", 300);
    adoc.asciidoc_html = Some("<p>Some <strong>text</strong>.</p>".to_string());
    let events = Events::load(vec![adoc]).ok().unwrap();
    let e = events.content_by_slug(Language::English, "adoc-event").unwrap();
    assert_eq!(e.body, "<p>Some <strong>text</strong>.</p>");
    let failed = Events::load(vec![event("5.broken.en.adoc", 300)]);
    assert_eq!(failed.err(), Some(LoadError::Render));
    let md = Events::load(vec![event("6.md.en.md", 300)]).ok().unwrap();
    assert!(md.content_by_slug(Language::English, "md").unwrap().body.contains("<em>text</em>"));
}

#[test]
fn upcoming_events_use_the_clock() {
    let far_future: i128 = 4_000_000_000;
    let events = Events::load(vec![event("1.past.en.md", 1_000), event("2.future.en.md", far_future)]).ok().unwrap();
    let up = upcoming_events(&events, Language::English);
    let slugs: Vec<&str> = up.iter().map(|e| e.slug.as_str()).collect();
    assert_eq!(slugs, vec!["future"]);
}
