//! The pages that the firmware's web server answers with.

use vstd::prelude::*;

verus! {

broadcast use vstd::string::group_string_axioms;

/// Everything of a page before its content.
pub const PAGE_HEAD: &'static str = "\n<!DOCTYPE html>\n<html>\n    <head>\n        <meta charset=\"utf-8\">\n        <title>esp-rs web server</title>\n    </head>\n    <body>\n        ";

/// Everything of a page after its content.
pub const PAGE_TAIL: &'static str = "\n    </body>\n</html>\n";

/// The greeting of the index page.
pub const GREETING: &'static str = "Hello from mcu!";

/// The content of the page that acknowledges an upload.
pub const UPLOAD_DONE: &'static str = "post /";

/// The page around a content.
pub open spec fn page(content: Seq<char>) -> Seq<char> {
    PAGE_HEAD@ + content + PAGE_TAIL@
}

/// The HTML page that shows `content` as its body.
pub fn templated(content: &str) -> (r: String)
    ensures
        r@ == page(content@),
{
    let mut r = String::from_str(PAGE_HEAD);
    r.append(content);
    r.append(PAGE_TAIL);
    r
}

/// The page served at `/`.
pub fn index_html() -> (r: String)
    ensures
        r@ == page(GREETING@),
{
    templated(GREETING)
}

/// The page served after an accepted upload.
pub fn upload_done_html() -> (r: String)
    ensures
        r@ == page(UPLOAD_DONE@),
{
    templated(UPLOAD_DONE)
}


/// A page holds its content verbatim, at the same place whatever the content,
/// between the same head and tail.
pub proof fn law_page_holds_content(content: Seq<char>, other: Seq<char>)
    ensures
        page(content).len() == page(Seq::empty()).len() + content.len(),
        page(content).subrange(PAGE_HEAD@.len() as int, (PAGE_HEAD@.len() + content.len()) as int)
            == content,
        page(content).subrange(0, PAGE_HEAD@.len() as int) == page(other).subrange(
            0,
            PAGE_HEAD@.len() as int,
        ),
        page(content).subrange((PAGE_HEAD@.len() + content.len()) as int, page(content).len() as int)
            == page(other).subrange((PAGE_HEAD@.len() + other.len()) as int, page(other).len() as int),
{
    let h = PAGE_HEAD@;
    let t = PAGE_TAIL@;
    assert(page(content).subrange(h.len() as int, (h.len() + content.len()) as int) =~= content);
    assert(page(content).subrange(0, h.len() as int) =~= h);
    assert(page(other).subrange(0, h.len() as int) =~= h);
    assert(page(content).subrange((h.len() + content.len()) as int, page(content).len() as int) =~= t);
    assert(page(other).subrange((h.len() + other.len()) as int, page(other).len() as int) =~= t);
}

} // verus!
