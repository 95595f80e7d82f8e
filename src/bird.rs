use vstd::prelude::*;

verus! {

/// The inner HTML of the `body` element of an HTML page, as `select` parses it, or
/// `None` where the page has no body.
pub uninterp spec fn html_body(page: Seq<char>) -> Option<Seq<char>>;

/// Relies on `select::document::Document::from`, `find(Name("body"))` and
/// `Node::inner_html`: the inner HTML of the first `body` element; it depends on the page
/// text alone. The node found borrows the parsed document, so the calls stand in this
/// one body.
#[verifier::external_body]
fn body_inner_html(page: &str) -> (r: Option<String>)
    ensures
        r is Some <==> html_body(page@) is Some,
        r is Some ==> r->0@ == html_body(page@)->0,
{
    let document = select::document::Document::from(page);
    let body = document.find(select::predicate::Name("body")).next();
    body.map(|node| node.inner_html())
}

/// Why a route-server status page could not be shown.
#[derive(Debug, Clone, Copy, PartialEq, Eq, Structural)]
pub enum BirdError {
    /// The page has no `body` element.
    MissingBody,
}

/// The part of a route-server status page that is shown: the content of its body.
pub fn page_content(page: &str) -> (r: Result<String, BirdError>)
    ensures
        r is Err <==> html_body(page@) is None,
        r is Ok ==> r->Ok_0@ == html_body(page@)->0,
{
    match body_inner_html(page) {
        Some(body) => Ok(body),
        None => Err(BirdError::MissingBody),
    }
}

} // verus!
