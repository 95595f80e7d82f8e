use std::sync::Arc;
use vstd::prelude::*;
use crate::cache::share;
use crate::lang::Language;
use crate::post_provider::{in_language, values_of, FromLongPost, LongPostFromMeta, PostMeta, PostProvider};
use crate::text::{clone_opt_string, clone_strings};

verus! {

/// The events of the site, newest first.
pub type Events = PostProvider<SmallEventPost, EventPost>;

/// A moment as events give it: nanoseconds since the Unix epoch, and the UTC offset (in
/// seconds) that it was written with.
#[derive(Debug, Clone, Copy, PartialEq, Eq, Structural)]
pub struct EventTime {
    pub unix_nanos: i128,
    pub offset_seconds: i32,
}

/// The front matter of an event.
pub struct EventMeta {
    pub title: String,
    pub start_time: EventTime,
    pub end_time: EventTime,
    pub location: String,
    pub description: String,
    pub keywords: Vec<String>,
    pub image: Option<String>,
    pub link: Option<String>,
}

/// An event with its rendered body.
pub struct EventPost {
    pub slug: String,
    pub lang: Language,
    pub idx: u32,
    pub title: String,
    pub start_time: EventTime,
    pub end_time: EventTime,
    pub location: String,
    pub description: String,
    pub keywords: Vec<String>,
    pub image: Option<String>,
    pub link: Option<String>,
    pub body: String,
}

/// An event as lists show it: without its body and link.
pub struct SmallEventPost {
    pub slug: String,
    pub lang: Language,
    pub idx: u32,
    pub title: String,
    pub start_time: EventTime,
    pub end_time: EventTime,
    pub location: String,
    pub description: String,
    pub keywords: Vec<String>,
    pub image: Option<String>,
}

impl LongPostFromMeta<EventMeta> for EventPost {
    open spec fn body_spec(&self) -> Seq<char> {
        self.body@
    }

    open spec fn meta_keywords(meta: EventMeta) -> Seq<Seq<char>> {
        meta.keywords@.map_values(|k: String| k@)
    }

    open spec fn built_by(&self, slug: Seq<char>, lang: Language, idx: u32, meta: EventMeta, body: Seq<char>) -> bool {
        &&& self.slug@ == slug
        &&& self.lang == lang
        &&& self.idx == idx
        &&& self.title == meta.title
        &&& self.start_time == meta.start_time
        &&& self.end_time == meta.end_time
        &&& self.location == meta.location
        &&& self.description == meta.description
        &&& self.keywords == meta.keywords
        &&& self.image == meta.image
        &&& self.link == meta.link
        &&& self.body@ == body
    }

    open spec fn same_item(&self, other: &Self) -> bool {
        &&& self.slug@ == other.slug@
        &&& self.lang == other.lang
        &&& self.idx == other.idx
        &&& self.title == other.title
        &&& self.start_time == other.start_time
        &&& self.end_time == other.end_time
        &&& self.location == other.location
        &&& self.description == other.description
        &&& self.keywords == other.keywords
        &&& self.image == other.image
        &&& self.link == other.link
        &&& self.body@ == other.body@
    }

    proof fn lemma_built_by_determined(
        a: Self,
        b: Self,
        slug: Seq<char>,
        lang: Language,
        idx: u32,
        meta: EventMeta,
        body: Seq<char>,
    ) {
    }

    fn from_meta(slug: &str, lang: Language, idx: u32, meta: EventMeta, body: String) -> (r: Self) {
        EventPost {
            slug: slug.to_owned(),
            lang,
            idx,
            title: meta.title,
            start_time: meta.start_time,
            end_time: meta.end_time,
            location: meta.location,
            description: meta.description,
            keywords: meta.keywords,
            image: meta.image,
            link: meta.link,
            body,
        }
    }
}

impl FromLongPost<EventPost> for SmallEventPost {
    open spec fn shortened_from(&self, post: EventPost) -> bool {
        &&& self.slug == post.slug
        &&& self.lang == post.lang
        &&& self.idx == post.idx
        &&& self.title == post.title
        &&& self.start_time == post.start_time
        &&& self.end_time == post.end_time
        &&& self.location == post.location
        &&& self.description == post.description
        &&& self.keywords@ == post.keywords@
        &&& self.image == post.image
    }

    fn from_long(post: &EventPost) -> (r: Self) {
        SmallEventPost {
            slug: post.slug.clone(),
            lang: post.lang,
            idx: post.idx,
            title: post.title.clone(),
            start_time: post.start_time,
            end_time: post.end_time,
            location: post.location.clone(),
            description: post.description.clone(),
            keywords: clone_strings(&post.keywords),
            image: clone_opt_string(&post.image),
        }
    }
}

impl PostMeta for EventPost {
    open spec fn index_spec(&self) -> u32 {
        self.idx
    }

    open spec fn lang_spec(&self) -> Language {
        self.lang
    }

    open spec fn slug_spec(&self) -> Seq<char> {
        self.slug@
    }

    open spec fn keywords_spec(&self) -> Seq<Seq<char>> {
        self.keywords@.map_values(|k: String| k@)
    }

    fn idx(&self) -> (r: u32) {
        self.idx
    }

    fn lang(&self) -> (r: Language) {
        self.lang
    }

    fn slug(&self) -> (r: &str) {
        self.slug.as_str()
    }

    fn keywords(&self) -> (r: &Vec<String>) {
        &self.keywords
    }
}

impl PostMeta for SmallEventPost {
    open spec fn index_spec(&self) -> u32 {
        self.idx
    }

    open spec fn lang_spec(&self) -> Language {
        self.lang
    }

    open spec fn slug_spec(&self) -> Seq<char> {
        self.slug@
    }

    open spec fn keywords_spec(&self) -> Seq<Seq<char>> {
        self.keywords@.map_values(|k: String| k@)
    }

    fn idx(&self) -> (r: u32) {
        self.idx
    }

    fn lang(&self) -> (r: Language) {
        self.lang
    }

    fn slug(&self) -> (r: &str) {
        self.slug.as_str()
    }

    fn keywords(&self) -> (r: &Vec<String>) {
        &self.keywords
    }
}

/// The events of `lang` that have not ended at `now`, newest first.
pub open spec fn upcoming(events: Seq<SmallEventPost>, lang: Language, now: i128) -> Seq<SmallEventPost> {
    in_language(events, lang).filter(|e: SmallEventPost| e.end_time.unix_nanos > now)
}

/// The events of `lang` whose end lies after `now` (nanoseconds since the Unix epoch).
pub fn events_ending_after(events: &Events, lang: Language, now: i128) -> (r: Vec<Arc<SmallEventPost>>)
    ensures
        values_of(r@) == upcoming(events.short_posts_spec(), lang, now),
{
    let all = events.content_by_lang(lang);
    let ghost v = values_of(all@);
    let mut r: Vec<Arc<SmallEventPost>> = Vec::new();
    let mut i: usize = 0;
    assert(v.take(0) =~= Seq::<SmallEventPost>::empty());
    proof {
        reveal(Seq::filter);
    }
    while i < all.len()
        invariant
            i <= all@.len(),
            v == values_of(all@),
            v == in_language(events.short_posts_spec(), lang),
            values_of(r@) == v.take(i as int).filter(|e: SmallEventPost| e.end_time.unix_nanos > now),
        decreases all.len() - i,
    {
        proof {
            reveal(Seq::filter);
            assert(v.take(i + 1).drop_last() =~= v.take(i as int));
            assert(v.take(i + 1).last() == v[i as int]);
        }
        if all[i].end_time.unix_nanos > now {
            let ghost before = values_of(r@);
            r.push(share(&all[i]));
            assert(values_of(r@) =~= before.push(v[i as int]));
        }
        i = i + 1;
    }
    assert(v.take(i as int) =~= v);
    r
}

/// Relies on `time::OffsetDateTime::now_utc` and `unix_timestamp_nanos`: the current time,
/// in nanoseconds since the Unix epoch. Nothing is known of the value.
#[verifier::external_body]
fn now_unix_nanos() -> (r: i128) {
    time::OffsetDateTime::now_utc().unix_timestamp_nanos()
}

/// The events of `lang` that have not ended yet, by the clock read once at the call.
pub fn upcoming_events(events: &Events, lang: Language) -> (r: Vec<Arc<SmallEventPost>>)
    ensures
        exists|now: i128| values_of(r@) == #[trigger] upcoming(events.short_posts_spec(), lang, now),
{
    let now = now_unix_nanos();
    events_ending_after(events, lang, now)
}

} // verus!
