//! The book document tree, through `mdbook_preprocessor`.
//!
//! The tree's shape is owned by the host format and passes through
//! opaquely; the only thing the library does to it is prepend the payload
//! script to the content of every chapter. The chapter contents, in the
//! traversal's order, are named by [`chapter_contents`], and the mutation
//! is stated pointwise over that name.
use vstd::prelude::*;
use vstd::string::StringExecFns;

verus! {

/// The book tree is carried through opaquely.
#[verifier::external_type_specification]
#[verifier::external_body]
pub struct ExBook(mdbook_preprocessor::book::Book);

/// The contents of the book's chapters, in the order `for_each_mut` visits
/// them: what a book holds depends on the book value alone.
pub uninterp spec fn chapter_contents(b: mdbook_preprocessor::book::Book) -> Seq<Seq<char>>;

/// The book with every chapter's content blanked: the tree's shape,
/// separators, part titles, and every chapter field other than `content`.
/// A function of the book value alone.
pub uninterp spec fn book_skeleton(
    b: mdbook_preprocessor::book::Book,
) -> mdbook_preprocessor::book::Book;

/// The script line followed by the original content, as each chapter's new
/// content.
pub fn injected_content(script: &str, content: &str) -> (r: String)
    ensures
        r@ == script@ + "\n"@ + content@,
{
    let mut out = String::from_str(script);
    out.append("\n");
    out.append(content);
    out
}

/// Relies on `Book::for_each_mut`, which applies the closure to every item
/// of the tree, nested sub-chapters included, exactly once: every chapter's
/// content becomes the script line followed by what it held, no chapter is
/// added or lost, and nothing but chapter contents changes.
#[verifier::external_body]
pub fn prepend_to_chapters(book: &mut mdbook_preprocessor::book::Book, script: &str)
    ensures
        book_skeleton(*final(book)) == book_skeleton(*old(book)),
        chapter_contents(*final(book)).len() == chapter_contents(*old(book)).len(),
        forall|i: int|
            0 <= i < chapter_contents(*old(book)).len() ==> #[trigger] chapter_contents(
                *final(book),
            )[i] == script@ + "\n"@ + chapter_contents(*old(book))[i],
{
    book.for_each_mut(|item| {
        if let mdbook_preprocessor::book::BookItem::Chapter(ch) = item {
            ch.content = injected_content(script, &ch.content);
        }
    });
}

/// The inline script that binds the payload to the global
/// `CONTENT_COLLECTIONS` variable.
pub open spec fn script_of(payload: Seq<char>) -> Seq<char> {
    "<script>window.CONTENT_COLLECTIONS = "@ + payload + ";</script>"@
}

/// The script tag holding the serialized payload.
pub fn build_script(payload: &str) -> (r: String)
    ensures
        r@ == script_of(payload@),
{
    let mut out = String::from_str("<script>window.CONTENT_COLLECTIONS = ");
    out.append(payload);
    out.append(";</script>");
    out
}

} // verus!
