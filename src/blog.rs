use vstd::prelude::*;
use crate::date::CalendarDate;
use crate::lang::Language;
use crate::post_provider::{FromLongPost, LongPostFromMeta, PostMeta, PostProvider};
use crate::text::{clone_opt_string, clone_strings};

verus! {

/// The blog posts of the site, newest first.
pub type Blogs = PostProvider<SmallBlogPost, BlogPost>;

/// The front matter of a blog post.
pub struct BlogMeta {
    pub title: String,
    pub published: CalendarDate,
    pub modified: Option<CalendarDate>,
    pub description: String,
    pub keywords: Vec<String>,
    pub authors: Vec<String>,
    pub image: Option<String>,
}

/// A blog post with its rendered body.
pub struct BlogPost {
    pub slug: String,
    pub lang: Language,
    pub idx: u32,
    pub title: String,
    pub published: CalendarDate,
    pub modified: Option<CalendarDate>,
    pub description: String,
    pub keywords: Vec<String>,
    pub authors: Vec<String>,
    pub image: Option<String>,
    pub body: String,
}

/// A blog post as lists show it: without its body.
pub struct SmallBlogPost {
    pub slug: String,
    pub lang: Language,
    pub idx: u32,
    pub title: String,
    pub published: CalendarDate,
    pub modified: Option<CalendarDate>,
    pub description: String,
    pub keywords: Vec<String>,
    pub authors: Vec<String>,
    pub image: Option<String>,
}

impl LongPostFromMeta<BlogMeta> for BlogPost {
    open spec fn body_spec(&self) -> Seq<char> {
        self.body@
    }

    open spec fn meta_keywords(meta: BlogMeta) -> Seq<Seq<char>> {
        meta.keywords@.map_values(|k: String| k@)
    }

    open spec fn built_by(&self, slug: Seq<char>, lang: Language, idx: u32, meta: BlogMeta, body: Seq<char>) -> bool {
        &&& self.slug@ == slug
        &&& self.lang == lang
        &&& self.idx == idx
        &&& self.title == meta.title
        &&& self.published == meta.published
        &&& self.modified == meta.modified
        &&& self.description == meta.description
        &&& self.keywords == meta.keywords
        &&& self.authors == meta.authors
        &&& self.image == meta.image
        &&& self.body@ == body
    }

    open spec fn same_item(&self, other: &Self) -> bool {
        &&& self.slug@ == other.slug@
        &&& self.lang == other.lang
        &&& self.idx == other.idx
        &&& self.title == other.title
        &&& self.published == other.published
        &&& self.modified == other.modified
        &&& self.description == other.description
        &&& self.keywords == other.keywords
        &&& self.authors == other.authors
        &&& self.image == other.image
        &&& self.body@ == other.body@
    }

    proof fn lemma_built_by_determined(
        a: Self,
        b: Self,
        slug: Seq<char>,
        lang: Language,
        idx: u32,
        meta: BlogMeta,
        body: Seq<char>,
    ) {
    }

    fn from_meta(slug: &str, lang: Language, idx: u32, meta: BlogMeta, body: String) -> (r: Self) {
        BlogPost {
            slug: slug.to_owned(),
            lang,
            idx,
            title: meta.title,
            published: meta.published,
            modified: meta.modified,
            description: meta.description,
            keywords: meta.keywords,
            authors: meta.authors,
            image: meta.image,
            body,
        }
    }
}

impl FromLongPost<BlogPost> for SmallBlogPost {
    open spec fn shortened_from(&self, post: BlogPost) -> bool {
        &&& self.slug == post.slug
        &&& self.lang == post.lang
        &&& self.idx == post.idx
        &&& self.title == post.title
        &&& self.published == post.published
        &&& self.modified == post.modified
        &&& self.description == post.description
        &&& self.keywords@ == post.keywords@
        &&& self.authors@ == post.authors@
        &&& self.image == post.image
    }

    fn from_long(post: &BlogPost) -> (r: Self) {
        SmallBlogPost {
            slug: post.slug.clone(),
            lang: post.lang,
            idx: post.idx,
            title: post.title.clone(),
            published: post.published,
            modified: post.modified,
            description: post.description.clone(),
            keywords: clone_strings(&post.keywords),
            authors: clone_strings(&post.authors),
            image: clone_opt_string(&post.image),
        }
    }
}

impl PostMeta for BlogPost {
    open spec fn index_spec(&self) -> u32 {
        self.idx
    }

    open spec fn lang_spec(&self) -> Language {
        self.lang
    }

    open spec fn slug_spec(&self) -> Seq<char> {
        self.slug@
    }

    open spec fn keywords_spec(&self) -> Seq<Seq<char>> {
        self.keywords@.map_values(|k: String| k@)
    }

    fn idx(&self) -> (r: u32) {
        self.idx
    }

    fn lang(&self) -> (r: Language) {
        self.lang
    }

    fn slug(&self) -> (r: &str) {
        self.slug.as_str()
    }

    fn keywords(&self) -> (r: &Vec<String>) {
        &self.keywords
    }
}

impl PostMeta for SmallBlogPost {
    open spec fn index_spec(&self) -> u32 {
        self.idx
    }

    open spec fn lang_spec(&self) -> Language {
        self.lang
    }

    open spec fn slug_spec(&self) -> Seq<char> {
        self.slug@
    }

    open spec fn keywords_spec(&self) -> Seq<Seq<char>> {
        self.keywords@.map_values(|k: String| k@)
    }

    fn idx(&self) -> (r: u32) {
        self.idx
    }

    fn lang(&self) -> (r: Language) {
        self.lang
    }

    fn slug(&self) -> (r: &str) {
        self.slug.as_str()
    }

    fn keywords(&self) -> (r: &Vec<String>) {
        &self.keywords
    }
}

} // verus!
