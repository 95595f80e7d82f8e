use std::sync::Arc;
use vstd::prelude::*;
use crate::cache::share;
use crate::lang::Language;
use crate::markup::{opt_text, render_body, rendered_body};
use crate::posts::{file_name_parts, parse_file_name, FileNameError};
use crate::text::str_eq;

verus! {

/// What every content item tells about itself: its place in the ordering, its language,
/// its slug and its keywords.
pub trait PostMeta {
    spec fn index_spec(&self) -> u32;

    spec fn lang_spec(&self) -> Language;

    spec fn slug_spec(&self) -> Seq<char>;

    spec fn keywords_spec(&self) -> Seq<Seq<char>>;

    fn idx(&self) -> (r: u32)
        ensures
            r == self.index_spec(),
    ;

    fn lang(&self) -> (r: Language)
        ensures
            r == self.lang_spec(),
    ;

    fn slug(&self) -> (r: &str)
        ensures
            r@ == self.slug_spec(),
    ;

    fn keywords(&self) -> (r: &Vec<String>)
        ensures
            r@.map_values(|k: String| k@) == self.keywords_spec(),
    ;
}

/// A full content item, built from what its file name says, its front matter and its
/// rendered body.
pub trait LongPostFromMeta<Meta>: PostMeta + Sized {
    spec fn body_spec(&self) -> Seq<char>;

    /// The keywords that a front matter lists.
    spec fn meta_keywords(meta: Meta) -> Seq<Seq<char>>;

    /// Whether this is the item that `from_meta` builds from these parts.
    spec fn built_by(&self, slug: Seq<char>, lang: Language, idx: u32, meta: Meta, body: Seq<char>) -> bool;

    /// Whether two items agree on every field.
    spec fn same_item(&self, other: &Self) -> bool;

    /// The parts determine the item: two items built from the same parts agree on every
    /// field.
    proof fn lemma_built_by_determined(
        a: Self,
        b: Self,
        slug: Seq<char>,
        lang: Language,
        idx: u32,
        meta: Meta,
        body: Seq<char>,
    )
        requires
            a.built_by(slug, lang, idx, meta, body),
            b.built_by(slug, lang, idx, meta, body),
        ensures
            a.same_item(&b),
    ;

    fn from_meta(slug: &str, lang: Language, idx: u32, meta: Meta, body: String) -> (r: Self)
        ensures
            r.index_spec() == idx,
            r.lang_spec() == lang,
            r.slug_spec() == slug@,
            r.keywords_spec() == Self::meta_keywords(meta),
            r.body_spec() == body@,
            r.built_by(slug@, lang, idx, meta, body@),
    ;
}

/// The list form of a content item: everything but the body.
pub trait FromLongPost<LongPost: PostMeta>: PostMeta + Sized {
    /// Whether this is the list form of `post`: every field of it but the body.
    spec fn shortened_from(&self, post: LongPost) -> bool;

    fn from_long(post: &LongPost) -> (r: Self)
        ensures
            r.shortened_from(*post),
            r.index_spec() == post.index_spec(),
            r.lang_spec() == post.lang_spec(),
            r.slug_spec() == post.slug_spec(),
            r.keywords_spec() == post.keywords_spec(),
    ;
}

/// A content file as read from disk: its name, its parsed front matter and the text
/// after the front matter; for an AsciiDoc file, also the HTML rendered from that text
/// (`None` where rendering failed).
pub struct SourceFile<Meta> {
    pub file_name: String,
    pub meta: Meta,
    pub text: String,
    pub asciidoc_html: Option<String>,
}

/// The AsciiDoc rendering handed in with a file.
pub open spec fn supplied_html<Meta>(f: SourceFile<Meta>) -> Option<Seq<char>> {
    opt_text(f.asciidoc_html)
}

/// Why a collection could not be loaded.
#[derive(Debug, Clone, Copy, PartialEq, Eq, Structural)]
pub enum LoadError {
    /// A file name does not follow `<index>.<slug>.<language>.<ext>`.
    FileName(FileNameError),
    /// No AsciiDoc rendering was handed in with an `.adoc` file (rendering it failed).
    Render,
}

/// Files whose name starts with `_` are drafts and are not loaded.
pub open spec fn is_draft(name: Seq<char>) -> bool {
    name.len() > 0 && name[0] == '_'
}

/// Whether the file named `name` is a draft.
pub fn is_draft_name(name: &str) -> (r: bool)
    ensures
        r == is_draft(name@),
{
    name.unicode_len() > 0 && name.get_char(0) == '_'
}

pub open spec fn kept_files<Meta>(files: Seq<SourceFile<Meta>>) -> Seq<SourceFile<Meta>> {
    files.filter(|f: SourceFile<Meta>| !is_draft(f.file_name@))
}

/// What one file yields: index, language, slug and HTML body, or why it is refused.
pub open spec fn file_outcome(name: Seq<char>, text: Seq<char>, asciidoc: Option<Seq<char>>) -> Result<
    (u32, Language, Seq<char>, Seq<char>),
    LoadError,
> {
    match file_name_parts(name) {
        Err(e) => Err(LoadError::FileName(e)),
        Ok((idx, lang, slug)) => match rendered_body(name, text, asciidoc) {
            None => Err(LoadError::Render),
            Some(body) => Ok((idx, lang, slug, body)),
        },
    }
}

/// The error of the first file, drafts aside, that is refused.
pub open spec fn first_error<Meta>(files: Seq<SourceFile<Meta>>) -> Option<LoadError>
    decreases files.len(),
{
    if files.len() == 0 {
        None
    } else if is_draft(files[0].file_name@) {
        first_error(files.drop_first())
    } else {
        match file_outcome(files[0].file_name@, files[0].text@, supplied_html(files[0])) {
            Err(e) => Some(e),
            Ok(_) => first_error(files.drop_first()),
        }
    }
}

/// Whether `post` is what the file `f` yields.
pub open spec fn built_from<Meta, LongPost: LongPostFromMeta<Meta>>(
    post: LongPost,
    f: SourceFile<Meta>,
) -> bool {
    match file_outcome(f.file_name@, f.text@, supplied_html(f)) {
        Ok((idx, lang, slug, body)) => {
            &&& post.index_spec() == idx
            &&& post.lang_spec() == lang
            &&& post.slug_spec() == slug
            &&& post.body_spec() == body
            &&& post.keywords_spec() == LongPost::meta_keywords(f.meta)
            &&& post.built_by(slug, lang, idx, f.meta, body)
        },
        Err(_) => false,
    }
}

/// Where an item of index `idx` goes into a list ordered newest first: after every item
/// whose index is not lower, so that items of equal index keep their order.
pub open spec fn insert_position<T: PostMeta>(s: Seq<T>, idx: u32) -> int
    decreases s.len(),
{
    if s.len() == 0 {
        0
    } else if s[0].index_spec() < idx {
        0
    } else {
        1 + insert_position(s.drop_first(), idx)
    }
}

/// `s` sorted by descending index, stably (as `sort_by_key` with `Reverse` does).
pub open spec fn sort_by_index_desc<T: PostMeta>(s: Seq<T>) -> Seq<T>
    decreases s.len(),
{
    if s.len() == 0 {
        s
    } else {
        let r = sort_by_index_desc(s.drop_last());
        r.insert(insert_position(r, s.last().index_spec()), s.last())
    }
}

/// Whether the indices of `s` never increase along it.
pub open spec fn is_sorted_desc<T: PostMeta>(s: Seq<T>) -> bool {
    forall|i: int, j: int| 0 <= i < j < s.len() ==> s[i].index_spec() >= s[j].index_spec()
}

/// Whether two items agree on what `PostMeta` tells.
pub open spec fn same_meta<A: PostMeta, B: PostMeta>(a: A, b: B) -> bool {
    &&& a.index_spec() == b.index_spec()
    &&& a.lang_spec() == b.lang_spec()
    &&& a.slug_spec() == b.slug_spec()
    &&& a.keywords_spec() == b.keywords_spec()
}

pub open spec fn values_of<T>(s: Seq<Arc<T>>) -> Seq<T> {
    s.map_values(|p: Arc<T>| *p)
}

proof fn lemma_insert_position_bounds<T: PostMeta>(s: Seq<T>, idx: u32)
    ensures
        0 <= insert_position(s, idx) <= s.len(),
        forall|k: int| 0 <= k < insert_position(s, idx) ==> s[k].index_spec() >= idx,
        insert_position(s, idx) < s.len() ==> s[insert_position(s, idx)].index_spec() < idx,
    decreases s.len(),
{
    if s.len() > 0 && s[0].index_spec() >= idx {
        lemma_insert_position_bounds(s.drop_first(), idx);
        assert forall|k: int| 0 <= k < insert_position(s, idx) implies s[k].index_spec() >= idx by {
            if k > 0 {
                assert(s[k] == s.drop_first()[k - 1]);
            }
        }
    }
}

proof fn lemma_insert_position_at<T: PostMeta>(s: Seq<T>, idx: u32, j: int)
    requires
        0 <= j <= s.len(),
        forall|k: int| 0 <= k < j ==> s[k].index_spec() >= idx,
        j < s.len() ==> s[j].index_spec() < idx,
    ensures
        insert_position(s, idx) == j,
    decreases j,
{
    if j > 0 {
        assert forall|k: int| 0 <= k < j - 1 implies s.drop_first()[k].index_spec() >= idx by {
            assert(s.drop_first()[k] == s[k + 1]);
        }
        lemma_insert_position_at(s.drop_first(), idx, j - 1);
    }
}

/// Sorting keeps the indices in descending order.
pub proof fn lemma_sort_is_sorted<T: PostMeta>(s: Seq<T>)
    ensures
        is_sorted_desc(sort_by_index_desc(s)),
        sort_by_index_desc(s).len() == s.len(),
    decreases s.len(),
{
    if s.len() > 0 {
        lemma_sort_is_sorted(s.drop_last());
        let r = sort_by_index_desc(s.drop_last());
        let x = s.last();
        let p = insert_position(r, x.index_spec());
        lemma_insert_position_bounds(r, x.index_spec());
        let out = r.insert(p, x);
        assert forall|i: int, j: int| 0 <= i < j < out.len() implies out[i].index_spec()
            >= out[j].index_spec() by {
            if j < p {
            } else if j == p {
                assert(out[i] == r[i]);
            } else if i < p {
                assert(out[j] == r[j - 1]);
            } else if i == p {
                assert(out[j] == r[j - 1]);
                assert(r[p].index_spec() < x.index_spec());
                assert(r[p].index_spec() >= r[j - 1].index_spec() || j - 1 == p);
            } else {
                assert(out[i] == r[i - 1]);
                assert(out[j] == r[j - 1]);
            }
        }
    }
}

/// A loaded collection of content items: the full items sorted newest first, and beside
/// them their list forms in the same order. It never changes once loaded.
pub struct PostProvider<ShortPost, LongPost> {
    posts: Arc<Vec<Arc<LongPost>>>,
    small_posts: Arc<Vec<Arc<ShortPost>>>,
}

impl<ShortPost: FromLongPost<LongPost>, LongPost: PostMeta> PostProvider<ShortPost, LongPost> {
    /// The full items, newest first.
    pub closed spec fn posts_spec(&self) -> Seq<LongPost> {
        values_of(self.posts@)
    }

    /// The list forms, in the order of the full items.
    pub closed spec fn short_posts_spec(&self) -> Seq<ShortPost> {
        values_of(self.small_posts@)
    }

    pub open spec fn well_formed(&self) -> bool {
        &&& self.short_posts_spec().len() == self.posts_spec().len()
        &&& forall|i: int|
            0 <= i < self.posts_spec().len() ==> same_meta(
                #[trigger] self.short_posts_spec()[i],
                self.posts_spec()[i],
            )
        &&& forall|i: int|
            0 <= i < self.posts_spec().len() ==> (#[trigger] self.short_posts_spec()[i]).shortened_from(
                self.posts_spec()[i],
            )
        &&& is_sorted_desc(self.posts_spec())
    }
}

proof fn lemma_kept_step<Meta>(all: Seq<SourceFile<Meta>>, i: int)
    requires
        0 <= i < all.len(),
    ensures
        kept_files(all.take(i + 1)) == if is_draft(all[i].file_name@) {
            kept_files(all.take(i))
        } else {
            kept_files(all.take(i)).push(all[i])
        },
{
    reveal(Seq::filter);
    assert(all.take(i + 1).drop_last() =~= all.take(i));
    assert(all.take(i + 1).last() == all[i]);
}

proof fn lemma_first_error_step<Meta>(all: Seq<SourceFile<Meta>>, i: int)
    requires
        0 <= i < all.len(),
    ensures
        all.skip(i)[0] == all[i],
        all.skip(i).drop_first() == all.skip(i + 1),
{
    assert(all.skip(i).drop_first() =~= all.skip(i + 1));
}

impl<ShortPost: FromLongPost<LongPost>, LongPost: PostMeta> PostProvider<ShortPost, LongPost> {
    /// Builds a collection from the files of a directory: drafts (names starting with `_`)
    /// are left out, every other file yields one item, and the items are sorted by
    /// descending index, files of equal index keeping their order. The first file that is
    /// refused fails the whole load.
    pub fn load<Meta>(files: Vec<SourceFile<Meta>>) -> (r: Result<Self, LoadError>)
        where
            LongPost: LongPostFromMeta<Meta>,
        ensures
            r is Err <==> first_error(files@) is Some,
            r is Err ==> r->Err_0 == first_error(files@)->0,
            r is Ok ==> r->Ok_0.well_formed(),
            r is Ok ==> exists|built: Seq<LongPost>|
                #![trigger sort_by_index_desc(built)]
                {
                    &&& built.len() == kept_files(files@).len()
                    &&& forall|k: int|
                        0 <= k < built.len() ==> built_from(#[trigger] built[k], kept_files(files@)[k])
                    &&& r->Ok_0.posts_spec() == sort_by_index_desc(built)
                },
    {
        let ghost all = files@;
        let mut remaining = files;
        let mut posts: Vec<Arc<LongPost>> = Vec::new();
        let ghost mut built: Seq<LongPost> = Seq::empty();
        let mut i: usize = 0;
        assert(all.skip(0) =~= all);
        assert(all.take(0) =~= Seq::<SourceFile<Meta>>::empty());
        proof {
            reveal(Seq::filter);
        }
        let count = remaining.len();
        while remaining.len() > 0
            invariant
                all == files@,
                count == all.len(),
                i <= all.len(),
                remaining@ == all.skip(i as int),
                first_error(all) == first_error(all.skip(i as int)),
                built.len() == kept_files(all.take(i as int)).len(),
                forall|k: int|
                    0 <= k < built.len() ==> built_from(#[trigger] built[k], kept_files(all.take(i as int))[k]),
                values_of(posts@) == sort_by_index_desc(built),
            decreases remaining.len(),
        {
            proof {
                lemma_first_error_step(all, i as int);
                lemma_kept_step(all, i as int);
            }
            let f = remaining.remove(0);
            assert(remaining@ =~= all.skip(i + 1));
            let name = f.file_name.as_str();
            let draft = is_draft_name(name);
            if draft {
                i = i + 1;
            } else {
                assert(f == all[i as int]);
                assert(!is_draft(all[i as int].file_name@));
                let (idx, lang, slug) = match parse_file_name(name) {
                    Ok(parts) => parts,
                    Err(e) => {
                        assert(file_outcome(all[i as int].file_name@, all[i as int].text@, supplied_html(all[i as int])) == Err::<
                            (u32, Language, Seq<char>, Seq<char>),
                            LoadError,
                        >(LoadError::FileName(e)));
                        assert(first_error(all.skip(i as int)) == Some(LoadError::FileName(e)));
                        return Err(LoadError::FileName(e));
                    },
                };
                let body = match render_body(name, f.text.as_str(), f.asciidoc_html) {
                    Some(b) => b,
                    None => {
                        assert(first_error(all.skip(i as int)) == Some(LoadError::Render));
                        return Err(LoadError::Render);
                    },
                };
                let post = LongPost::from_meta(slug, lang, idx, f.meta, body);
                let ghost before = built;
                proof {
                    built = built.push(post);
                    assert(built.drop_last() =~= before);
                    assert forall|k: int| 0 <= k < built.len() implies built_from(
                        #[trigger] built[k],
                        kept_files(all.take(i + 1))[k],
                    ) by {
                        if k < before.len() {
                            assert(built[k] == before[k]);
                        }
                    }
                }
                let ghost sorted = values_of(posts@);
                proof {
                    lemma_insert_position_bounds(sorted, idx);
                }
                let mut j: usize = 0;
                while j < posts.len() && posts[j].idx() >= idx
                    invariant
                        j <= posts@.len(),
                        values_of(posts@) == sorted,
                        forall|k: int| 0 <= k < j ==> sorted[k].index_spec() >= idx,
                    decreases posts.len() - j,
                {
                    j = j + 1;
                }
                proof {
                    lemma_insert_position_at(sorted, idx, j as int);
                }
                posts.insert(j, Arc::new(post));
                assert(values_of(posts@) =~= sorted.insert(j as int, post));
                i = i + 1;
            }
        }
        assert(all.take(i as int) =~= all);
        let mut small_posts: Vec<Arc<ShortPost>> = Vec::new();
        let mut j: usize = 0;
        while j < posts.len()
            invariant
                j <= posts@.len(),
                small_posts@.len() == j,
                forall|k: int| 0 <= k < j ==> same_meta(#[trigger] values_of(small_posts@)[k], values_of(posts@)[k]),
                forall|k: int|
                    0 <= k < j ==> (#[trigger] values_of(small_posts@)[k]).shortened_from(values_of(posts@)[k]),
            decreases posts.len() - j,
        {
            let ghost before = values_of(small_posts@);
            let short = ShortPost::from_long(&posts[j]);
            small_posts.push(Arc::new(short));
            assert(values_of(small_posts@) =~= before.push(short));
            j = j + 1;
        }
        proof {
            lemma_sort_is_sorted(built);
        }
        let provider = PostProvider { posts: Arc::new(posts), small_posts: Arc::new(small_posts) };
        assert(provider.posts_spec() == sort_by_index_desc(built));
        Ok(provider)
    }
}

proof fn lemma_push_contains<A>(s: Seq<A>, x: A)
    ensures
        forall|k: A| #[trigger] s.push(x).contains(k) <==> s.contains(k) || k == x,
{
    assert forall|k: A| #[trigger] s.push(x).contains(k) <==> s.contains(k) || k == x by {
        if s.contains(k) {
            let a = choose|a: int| 0 <= a < s.len() && s[a] == k;
            assert(s.push(x)[a] == k);
        }
        if k == x {
            assert(s.push(x)[s.len() as int] == k);
        }
        if s.push(x).contains(k) {
            let a = choose|a: int| 0 <= a < s.push(x).len() && s.push(x)[a] == k;
            if a < s.len() {
                assert(s[a] == k);
            }
        }
    }
}

/// Whether the two keyword lists have a keyword in common.
pub open spec fn shares_keyword(keywords: Seq<Seq<char>>, query: Seq<Seq<char>>) -> bool {
    exists|k: Seq<char>| keywords.contains(k) && query.contains(k)
}

/// Whether the distinct keywords that `keywords` shares with `query` are as many as
/// `query` has entries: `query` repeats no keyword and each of them is among `keywords`.
pub open spec fn has_all_keywords(keywords: Seq<Seq<char>>, query: Seq<Seq<char>>) -> bool {
    query.no_duplicates() && forall|k: Seq<char>| query.contains(k) ==> keywords.contains(k)
}

/// The items of one language, in their order.
pub open spec fn in_language<S: PostMeta>(posts: Seq<S>, lang: Language) -> Seq<S> {
    posts.filter(|p: S| p.lang_spec() == lang)
}

/// The first tier of a keyword search: items sharing a keyword with the query.
pub open spec fn any_tier<S: PostMeta>(posts: Seq<S>, query: Seq<Seq<char>>) -> Seq<S> {
    posts.filter(|p: S| shares_keyword(p.keywords_spec(), query))
}

/// The second tier of a keyword search: items left out of the first tier that hold
/// every keyword of the query.
pub open spec fn all_tier<S: PostMeta>(posts: Seq<S>, query: Seq<Seq<char>>) -> Seq<S> {
    posts.filter(
        |p: S| !shares_keyword(p.keywords_spec(), query) && has_all_keywords(p.keywords_spec(), query),
    )
}

/// A keyword search within one language: the first tier, then the second.
pub open spec fn search_result<S: PostMeta>(posts: Seq<S>, lang: Language, query: Seq<Seq<char>>) -> Seq<S> {
    any_tier(in_language(posts, lang), query) + all_tier(in_language(posts, lang), query)
}

pub open spec fn string_views(s: Seq<String>) -> Seq<Seq<char>> {
    s.map_values(|k: String| k@)
}

fn shares_keyword_exec(keywords: &Vec<String>, query: &[String]) -> (r: bool)
    ensures
        r == shares_keyword(string_views(keywords@), string_views(query@)),
{
    let ghost kv = string_views(keywords@);
    let ghost qv = string_views(query@);
    let mut i: usize = 0;
    while i < keywords.len()
        invariant
            i <= keywords@.len(),
            kv == string_views(keywords@),
            qv == string_views(query@),
            forall|a: int, b: int| 0 <= a < i && 0 <= b < qv.len() ==> kv[a] != qv[b],
        decreases keywords.len() - i,
    {
        let mut j: usize = 0;
        while j < query.len()
            invariant
                i < keywords@.len(),
                j <= query@.len(),
                kv == string_views(keywords@),
                qv == string_views(query@),
                forall|a: int, b: int| 0 <= a < i && 0 <= b < qv.len() ==> kv[a] != qv[b],
                forall|b: int| 0 <= b < j ==> kv[i as int] != qv[b],
            decreases query.len() - j,
        {
            if keywords[i] == query[j] {
                assert(kv.contains(kv[i as int]));
                assert(qv[j as int] == kv[i as int]);
                assert(qv.contains(kv[i as int]));
                return true;
            }
            j = j + 1;
        }
        i = i + 1;
    }
    assert forall|k: Seq<char>| !(kv.contains(k) && qv.contains(k)) by {
        if kv.contains(k) && qv.contains(k) {
            let a = choose|a: int| 0 <= a < kv.len() && kv[a] == k;
            let b = choose|b: int| 0 <= b < qv.len() && qv[b] == k;
            assert(kv[a] != qv[b]);
        }
    }
    false
}

fn has_all_keywords_exec(keywords: &Vec<String>, query: &[String]) -> (r: bool)
    ensures
        r == has_all_keywords(string_views(keywords@), string_views(query@)),
{
    let ghost kv = string_views(keywords@);
    let ghost qv = string_views(query@);
    let mut i: usize = 0;
    while i < query.len()
        invariant
            i <= query@.len(),
            kv == string_views(keywords@),
            qv == string_views(query@),
            forall|a: int, b: int| 0 <= a < b < i ==> qv[a] != qv[b],
            forall|a: int| 0 <= a < i ==> kv.contains(qv[a]),
        decreases query.len() - i,
    {
        let mut j: usize = 0;
        while j < i
            invariant
                i < query@.len(),
                j <= i,
                qv == string_views(query@),
                forall|a: int| 0 <= a < j ==> qv[a] != qv[i as int],
            decreases i - j,
        {
            if query[j] == query[i] {
                assert(qv[j as int] == qv[i as int]);
                assert(!qv.no_duplicates());
                return false;
            }
            j = j + 1;
        }
        let mut k: usize = 0;
        let mut found = false;
        while k < keywords.len()
            invariant
                i < query@.len(),
                k <= keywords@.len(),
                kv == string_views(keywords@),
                qv == string_views(query@),
                found ==> kv.contains(qv[i as int]),
                !found ==> forall|a: int| 0 <= a < k ==> kv[a] != qv[i as int],
            decreases keywords.len() - k,
        {
            if keywords[k] == query[i] {
                found = true;
                assert(kv[k as int] == qv[i as int]);
            }
            k = k + 1;
        }
        if !found {
            assert(qv.contains(qv[i as int]));
            assert(!kv.contains(qv[i as int]));
            return false;
        }
        i = i + 1;
    }
    assert forall|k: Seq<char>| qv.contains(k) implies kv.contains(k) by {
        let a = choose|a: int| 0 <= a < qv.len() && qv[a] == k;
    }
    true
}

impl<ShortPost: FromLongPost<LongPost>, LongPost: PostMeta> PostProvider<ShortPost, LongPost> {
    /// The list forms of the items in `lang`, newest first.
    pub fn content_by_lang(&self, lang: Language) -> (r: Vec<Arc<ShortPost>>)
        ensures
            values_of(r@) == in_language(self.short_posts_spec(), lang),
    {
        let posts = &*self.small_posts;
        let ghost all = values_of(posts@);
        let mut r: Vec<Arc<ShortPost>> = Vec::new();
        let mut i: usize = 0;
        assert(all.take(0) =~= Seq::<ShortPost>::empty());
        proof {
            reveal(Seq::filter);
        }
        while i < posts.len()
            invariant
                i <= posts@.len(),
                all == values_of(posts@),
                all == self.short_posts_spec(),
                values_of(r@) == in_language(all.take(i as int), lang),
            decreases posts.len() - i,
        {
            proof {
                reveal(Seq::filter);
                assert(all.take(i + 1).drop_last() =~= all.take(i as int));
                assert(all.take(i + 1).last() == all[i as int]);
            }
            if posts[i].lang() == lang {
                let ghost before = values_of(r@);
                r.push(share(&posts[i]));
                assert(values_of(r@) =~= before.push(all[i as int]));
            }
            i = i + 1;
        }
        assert(all.take(i as int) =~= all);
        r
    }

    /// The full item of language `lang` and slug `slug`, if there is one (the first, in
    /// the collection's order).
    pub fn content_by_slug(&self, lang: Language, slug: &str) -> (r: Option<Arc<LongPost>>)
        ensures
            r is None <==> forall|i: int|
                0 <= i < self.posts_spec().len() ==> !(#[trigger] self.posts_spec()[i].lang_spec() == lang
                    && self.posts_spec()[i].slug_spec() == slug@),
            r is Some ==> exists|i: int|
                0 <= i < self.posts_spec().len() && self.posts_spec()[i].lang_spec() == lang
                    && self.posts_spec()[i].slug_spec() == slug@ && *r->0 == #[trigger] self.posts_spec()[i]
                    && forall|j: int|
                    0 <= j < i ==> !(#[trigger] self.posts_spec()[j].lang_spec() == lang
                        && self.posts_spec()[j].slug_spec() == slug@),
    {
        let posts = &*self.posts;
        let ghost all = values_of(posts@);
        let mut i: usize = 0;
        while i < posts.len()
            invariant
                i <= posts@.len(),
                all == values_of(posts@),
                all == self.posts_spec(),
                forall|k: int| 0 <= k < i ==> !(#[trigger] all[k].lang_spec() == lang && all[k].slug_spec() == slug@),
            decreases posts.len() - i,
        {
            if posts[i].lang() == lang && str_eq(posts[i].slug(), slug) {
                assert(all[i as int] == *posts@[i as int]);
                return Some(share(&posts[i]));
            }
            i = i + 1;
        }
        None
    }

    /// Searches the items of `lang` by keywords: first those sharing any keyword with the
    /// query, then, after them, those left that hold every keyword of the query (none
    /// but where the query is empty).
    pub fn search_by_keywords(&self, lang: Language, keywords: &[String]) -> (r: Vec<Arc<ShortPost>>)
        ensures
            values_of(r@) == search_result(self.short_posts_spec(), lang, string_views(keywords@)),
    {
        let posts = self.content_by_lang(lang);
        let ghost all = values_of(posts@);
        let ghost query = string_views(keywords@);
        let mut any: Vec<Arc<ShortPost>> = Vec::new();
        let mut i: usize = 0;
        assert(all.take(0) =~= Seq::<ShortPost>::empty());
        proof {
            reveal(Seq::filter);
        }
        while i < posts.len()
            invariant
                i <= posts@.len(),
                all == values_of(posts@),
                query == string_views(keywords@),
                values_of(any@) == any_tier(all.take(i as int), query),
            decreases posts.len() - i,
        {
            proof {
                reveal(Seq::filter);
                assert(all.take(i + 1).drop_last() =~= all.take(i as int));
                assert(all.take(i + 1).last() == all[i as int]);
            }
            if shares_keyword_exec(posts[i].keywords(), keywords) {
                let ghost before = values_of(any@);
                any.push(share(&posts[i]));
                assert(values_of(any@) =~= before.push(all[i as int]));
            }
            i = i + 1;
        }
        assert(all.take(i as int) =~= all);
        let mut every: Vec<Arc<ShortPost>> = Vec::new();
        let mut i: usize = 0;
        while i < posts.len()
            invariant
                i <= posts@.len(),
                all == values_of(posts@),
                query == string_views(keywords@),
                values_of(every@) == all_tier(all.take(i as int), query),
            decreases posts.len() - i,
        {
            proof {
                reveal(Seq::filter);
                assert(all.take(i + 1).drop_last() =~= all.take(i as int));
                assert(all.take(i + 1).last() == all[i as int]);
            }
            if !shares_keyword_exec(posts[i].keywords(), keywords) && has_all_keywords_exec(
                posts[i].keywords(),
                keywords,
            ) {
                let ghost before = values_of(every@);
                every.push(share(&posts[i]));
                assert(values_of(every@) =~= before.push(all[i as int]));
            }
            i = i + 1;
        }
        assert(all.take(i as int) =~= all);
        let ghost a = values_of(any@);
        let ghost e = values_of(every@);
        any.append(&mut every);
        assert(values_of(any@) =~= a + e);
        any
    }

    /// Every keyword used by any item, in any language, each once.
    pub fn keywords(&self) -> (r: Vec<String>)
        ensures
            string_views(r@).no_duplicates(),
            forall|k: Seq<char>|
                string_views(r@).contains(k) <==> exists|i: int|
                    0 <= i < self.short_posts_spec().len() && (#[trigger] self.short_posts_spec()[i]).keywords_spec().contains(k),
    {
        let posts = &*self.small_posts;
        let ghost all = values_of(posts@);
        let mut r: Vec<String> = Vec::new();
        let mut i: usize = 0;
        while i < posts.len()
            invariant
                i <= posts@.len(),
                all == values_of(posts@),
                all == self.short_posts_spec(),
                string_views(r@).no_duplicates(),
                forall|k: Seq<char>|
                    string_views(r@).contains(k) <==> exists|a: int|
                        0 <= a < i && (#[trigger] all[a]).keywords_spec().contains(k),
            decreases posts.len() - i,
        {
            let kws = posts[i].keywords();
            let ghost kv = string_views(kws@);
            assert(kv == all[i as int].keywords_spec());
            let mut j: usize = 0;
            while j < kws.len()
                invariant
                    i < posts@.len(),
                    j <= kws@.len(),
                    all == values_of(posts@),
                    kv == string_views(kws@),
                    kv == all[i as int].keywords_spec(),
                    string_views(r@).no_duplicates(),
                    forall|k: Seq<char>|
                        string_views(r@).contains(k) <==> (exists|a: int|
                            0 <= a < i && (#[trigger] all[a]).keywords_spec().contains(k))
                            || kv.take(j as int).contains(k),
                decreases kws.len() - j,
            {
                let mut present = false;
                let mut m: usize = 0;
                let ghost rv = string_views(r@);
                while m < r.len()
                    invariant
                        m <= r@.len(),
                        rv == string_views(r@),
                        j < kws@.len(),
                        kv == string_views(kws@),
                        present ==> rv.contains(kv[j as int]),
                        !present ==> forall|b: int| 0 <= b < m ==> rv[b] != kv[j as int],
                    decreases r.len() - m,
                {
                    if r[m] == kws[j] {
                        present = true;
                        assert(rv[m as int] == kv[j as int]);
                    }
                    m = m + 1;
                }
                assert(kv.take(j + 1) =~= kv.take(j as int).push(kv[j as int]));
                proof {
                    lemma_push_contains(kv.take(j as int), kv[j as int]);
                }
                if !present {
                    let k = kws[j].clone();
                    r.push(k);
                    assert(string_views(r@) =~= rv.push(kv[j as int]));
                    proof {
                        lemma_push_contains(rv, kv[j as int]);
                    }
                    assert forall|a: int, b: int|
                        0 <= a < b < string_views(r@).len() implies string_views(r@)[a] != string_views(
                        r@,
                    )[b] by {
                        if b == rv.len() {
                            assert(rv[a] != kv[j as int]);
                        } else {
                            assert(rv.no_duplicates());
                        }
                    }
                }
                j = j + 1;
            }
            assert(kv.take(kws@.len() as int) =~= kv);
            assert forall|k: Seq<char>|
                string_views(r@).contains(k) <==> exists|a: int|
                    0 <= a < i + 1 && (#[trigger] all[a]).keywords_spec().contains(k) by {
                if exists|a: int| 0 <= a < i && (#[trigger] all[a]).keywords_spec().contains(k) {
                    let a = choose|a: int| 0 <= a < i && (#[trigger] all[a]).keywords_spec().contains(k);
                    assert(0 <= a < i + 1 && all[a].keywords_spec().contains(k));
                }
                if exists|a: int| 0 <= a < i + 1 && (#[trigger] all[a]).keywords_spec().contains(k) {
                    let a = choose|a: int| 0 <= a < i + 1 && (#[trigger] all[a]).keywords_spec().contains(k);
                    if a == i {
                        assert(kv.contains(k));
                    } else {
                        assert(0 <= a < i && all[a].keywords_spec().contains(k));
                    }
                }
            }
            i = i + 1;
        }
        r
    }
}

/// Whether two full items agree on every field, on what `PostMeta` tells and on the body.
pub open spec fn same_content<Meta, L: LongPostFromMeta<Meta>>(a: L, b: L) -> bool {
    same_meta(a, b) && a.body_spec() == b.body_spec() && a.same_item(&b)
}

/// On a loaded collection, the list forms come newest first: their indices never increase,
/// and strictly decrease wherever no two items share an index. Empty and one-item
/// collections are sorted too.
pub proof fn lemma_short_list_order<S: FromLongPost<L>, L: PostMeta>(p: PostProvider<S, L>)
    requires
        p.well_formed(),
    ensures
        is_sorted_desc(p.short_posts_spec()),
        (forall|i: int, j: int|
            0 <= i < j < p.short_posts_spec().len() ==> p.short_posts_spec()[i].index_spec()
                != p.short_posts_spec()[j].index_spec()) ==> forall|i: int, j: int|
            0 <= i < j < p.short_posts_spec().len() ==> p.short_posts_spec()[i].index_spec()
                > p.short_posts_spec()[j].index_spec(),
{
    let s = p.short_posts_spec();
    let l = p.posts_spec();
    assert forall|i: int, j: int| 0 <= i < j < s.len() implies s[i].index_spec() >= s[j].index_spec() by {
        assert(same_meta(s[i], l[i]));
        assert(same_meta(s[j], l[j]));
    }
}

/// The second tier of a keyword search adds nothing to the first for any query with a
/// keyword in it: an item holding every keyword of the query shares one with it.
pub proof fn lemma_all_tier_adds_nothing<S: PostMeta>(posts: Seq<S>, lang: Language, query: Seq<Seq<char>>)
    requires
        query.len() > 0,
    ensures
        all_tier(in_language(posts, lang), query).len() == 0,
        search_result(posts, lang, query) == any_tier(in_language(posts, lang), query),
{
    let l = in_language(posts, lang);
    let pred = |p: S| !shares_keyword(p.keywords_spec(), query) && has_all_keywords(p.keywords_spec(), query);
    assert forall|i: int| 0 <= i < l.len() implies !pred(#[trigger] l[i]) by {
        let x = l[i];
        if has_all_keywords(x.keywords_spec(), query) {
            assert(query.contains(query[0]));
            assert(x.keywords_spec().contains(query[0]));
        }
    }
    assert(l.all(|x: S| !pred(x)));
    l.lemma_all_neg_filter_empty(pred);
    assert(search_result(posts, lang, query) =~= any_tier(l, query));
}

proof fn lemma_insert_position_same<A: PostMeta, B: PostMeta>(r1: Seq<A>, r2: Seq<B>, idx: u32)
    requires
        r1.len() == r2.len(),
        forall|i: int| 0 <= i < r1.len() ==> r1[i].index_spec() == r2[i].index_spec(),
    ensures
        insert_position(r1, idx) == insert_position(r2, idx),
    decreases r1.len(),
{
    if r1.len() > 0 {
        lemma_insert_position_same(r1.drop_first(), r2.drop_first(), idx);
    }
}

proof fn lemma_sort_same_content<Meta, L: LongPostFromMeta<Meta>>(b1: Seq<L>, b2: Seq<L>)
    requires
        b1.len() == b2.len(),
        forall|k: int| 0 <= k < b1.len() ==> same_content::<Meta, L>(b1[k], b2[k]),
    ensures
        sort_by_index_desc(b1).len() == b1.len(),
        sort_by_index_desc(b2).len() == b2.len(),
        forall|k: int|
            0 <= k < b1.len() ==> same_content::<Meta, L>(
                #[trigger] sort_by_index_desc(b1)[k],
                sort_by_index_desc(b2)[k],
            ),
    decreases b1.len(),
{
    lemma_sort_is_sorted(b1);
    lemma_sort_is_sorted(b2);
    if b1.len() > 0 {
        lemma_sort_same_content::<Meta, L>(b1.drop_last(), b2.drop_last());
        let r1 = sort_by_index_desc(b1.drop_last());
        let r2 = sort_by_index_desc(b2.drop_last());
        assert(same_content::<Meta, L>(b1.last(), b2.last()));
        assert forall|i: int| 0 <= i < r1.len() implies r1[i].index_spec() == r2[i].index_spec() by {
            assert(same_content::<Meta, L>(r1[i], r2[i]));
        }
        lemma_insert_position_same(r1, r2, b1.last().index_spec());
        lemma_insert_position_bounds(r1, b1.last().index_spec());
        let p = insert_position(r1, b1.last().index_spec());
        assert forall|k: int| 0 <= k < b1.len() implies same_content::<Meta, L>(
            #[trigger] sort_by_index_desc(b1)[k],
            sort_by_index_desc(b2)[k],
        ) by {
            if k < p {
                assert(same_content::<Meta, L>(r1[k], r2[k]));
            } else if k > p {
                assert(same_content::<Meta, L>(r1[k - 1], r2[k - 1]));
            }
        }
    }
}

/// Loading is repeatable: any two loads of the same files give item lists of the same
/// length that agree, place by place, on every field.
pub proof fn lemma_load_is_repeatable<Meta, L: LongPostFromMeta<Meta>>(
    files: Seq<SourceFile<Meta>>,
    b1: Seq<L>,
    b2: Seq<L>,
)
    requires
        b1.len() == kept_files(files).len(),
        b2.len() == kept_files(files).len(),
        forall|k: int| 0 <= k < b1.len() ==> built_from(#[trigger] b1[k], kept_files(files)[k]),
        forall|k: int| 0 <= k < b2.len() ==> built_from(#[trigger] b2[k], kept_files(files)[k]),
    ensures
        sort_by_index_desc(b1).len() == sort_by_index_desc(b2).len(),
        forall|k: int|
            0 <= k < sort_by_index_desc(b1).len() ==> same_content::<Meta, L>(
                #[trigger] sort_by_index_desc(b1)[k],
                sort_by_index_desc(b2)[k],
            ),
{
    assert forall|k: int| 0 <= k < b1.len() implies same_content::<Meta, L>(b1[k], b2[k]) by {
        let f = kept_files(files)[k];
        assert(built_from(b1[k], f));
        assert(built_from(b2[k], f));
        let (idx, lang, slug, body) = file_outcome(f.file_name@, f.text@, supplied_html(f))->Ok_0;
        L::lemma_built_by_determined(b1[k], b2[k], slug, lang, idx, f.meta, body);
    }
    lemma_sort_same_content::<Meta, L>(b1, b2);
}

} // verus!
