use vstd::prelude::*;
use crate::text::ends_with;

verus! {

/// The HTML that `markdown::to_html` renders from a Markdown text.
pub uninterp spec fn markdown_html(text: Seq<char>) -> Seq<char>;

/// Relies on `markdown::to_html`: with the default options it never fails, and the HTML
/// depends on the text alone.
#[verifier::external_body]
fn markdown_to_html(text: &str) -> (r: String)
    ensures
        r@ == markdown_html(text@),
{
    markdown::to_html(text)
}

/// Renders a Markdown text to HTML.
pub fn render_markdown(text: &str) -> (r: String)
    ensures
        r@ == markdown_html(text@),
{
    markdown_to_html(text)
}

/// The text of an optional string.
pub open spec fn opt_text(o: Option<String>) -> Option<Seq<char>> {
    match o {
        Some(h) => Some(h@),
        None => None,
    }
}

/// Whether a file holds AsciiDoc, told by its `.adoc` extension; other files hold Markdown.
pub open spec fn is_asciidoc_file(file: Seq<char>) -> bool {
    file.len() >= 5 && file.subrange(file.len() - 5, file.len() as int) == seq!['.', 'a', 'd', 'o', 'c']
}

/// The HTML body of a content file: for `.adoc` files the AsciiDoc rendering handed in
/// (`None` where it failed), for any other file its Markdown rendering.
pub open spec fn rendered_body(file: Seq<char>, text: Seq<char>, asciidoc: Option<Seq<char>>) -> Option<
    Seq<char>,
> {
    if is_asciidoc_file(file) {
        asciidoc
    } else {
        Some(markdown_html(text))
    }
}

/// Whether `file` names an AsciiDoc file.
pub fn is_asciidoc_name(file: &str) -> (r: bool)
    ensures
        r == is_asciidoc_file(file@),
{
    let adoc = ".adoc";
    proof {
        reveal_strlit(".adoc");
    }
    assert(adoc@ =~= seq!['.', 'a', 'd', 'o', 'c']);
    ends_with(file, adoc)
}

/// Renders the body of a content file to HTML, by the format its name declares. AsciiDoc
/// is rendered by the caller, who hands in the result (`None` where rendering failed).
pub fn render_body(file: &str, text: &str, asciidoc: Option<String>) -> (r: Option<String>)
    ensures
        r is Some <==> rendered_body(file@, text@, opt_text(asciidoc)) is Some,
        r is Some ==> r->0@ == rendered_body(file@, text@, opt_text(asciidoc))->0,
{
    if is_asciidoc_name(file) {
        asciidoc
    } else {
        Some(markdown_to_html(text))
    }
}

} // verus!
