//! An mdBook preprocessor that aggregates a JSON index of content entries:
//! drafts are filtered out, the published entries are grouped into named
//! collections, each collection is sorted by its `date` field in descending
//! lexicographic order, and the resulting payload is injected into every
//! chapter as an inline script.
use vstd::prelude::*;

pub mod book;
pub mod clock;
pub mod codec;
pub mod host;
pub mod json;
pub mod lex;
pub mod transform;

use vstd::string::StringExecFns;

use crate::book::{book_skeleton, build_script, chapter_contents, prepend_to_chapters, script_of};
use crate::codec::{compact_json_of, json_parses, parse_json, parsed_doc};
use crate::json::{jv, str_eq, Json};
use crate::transform::{transform, transform_spec};

verus! {

/// Why the content index could not be loaded. Any of the three is
/// recoverable: the caller logs a warning and leaves the book unchanged.
#[derive(PartialEq, Eq, Structural, Clone, Copy, Debug)]
pub enum LoadError {
    /// No file at the expected path.
    NotFound,
    /// The file exists but could not be read.
    ReadError,
    /// The file's text is not valid JSON.
    ParseError,
}

impl LoadError {
    /// The warning message the caller logs.
    pub fn message(&self) -> (r: String)
        ensures
            *self == LoadError::NotFound ==> r@ == "content-collections.json not found"@,
            *self == LoadError::ReadError ==> r@ == "Failed to read content-collections.json"@,
            *self == LoadError::ParseError ==> r@ == "Failed to parse JSON"@,
    {
        match self {
            LoadError::NotFound => String::from_str("content-collections.json not found"),
            LoadError::ReadError => String::from_str("Failed to read content-collections.json"),
            LoadError::ParseError => String::from_str("Failed to parse JSON"),
        }
    }
}

/// The result document computed from the text of the content index.
///
/// The caller hands over the index file's text, or the error reading it
/// produced; a text that is not valid JSON is the third error, and every
/// valid JSON text, whatever its shape, succeeds. On success the result is
/// exactly the transformation of the parsed document with the given
/// timestamp.
pub fn load_collections(index_text: Result<String, LoadError>, generated_at: String) -> (r: Result<
    Json,
    LoadError,
>)
    ensures
        index_text matches Ok(t) ==> (r is Ok <==> json_parses(t@)),
        match r {
            Ok(out) => (index_text matches Ok(t) && jv(out) == transform_spec(
                parsed_doc(t@),
                generated_at@,
            )),
            Err(e) => match index_text {
                Ok(_) => e == LoadError::ParseError,
                Err(given) => e == given,
            },
        },
{
    match index_text {
        Ok(text) => match parse_json(text.as_str()) {
            Some(doc) => Ok(transform(doc, generated_at)),
            None => Err(LoadError::ParseError),
        },
        Err(e) => Err(e),
    }
}

/// The preprocessor: it loads the content index and injects the resulting
/// payload into every chapter of the book.
pub struct ContentLoader;

impl ContentLoader {
    pub fn new() -> ContentLoader {
        ContentLoader
    }

    /// The preprocessor's name, as the host addresses it.
    pub fn name(&self) -> (r: &'static str)
        ensures
            r@ == "content-loader"@,
    {
        "content-loader"
    }

    /// The renderer this preprocessor is made for: only the HTML renderer.
    pub fn supports_renderer(&self, renderer: &str) -> (r: bool)
        ensures
            r == (renderer@ == "html"@),
    {
        str_eq(renderer, "html")
    }

    /// The preprocessor's run over one book.
    ///
    /// When the index loaded — and a readable text loads exactly when it is
    /// valid JSON — every chapter's content is prefixed with the payload
    /// script and the rest of the tree is untouched; when it did not, the
    /// book comes back unchanged and the error is handed to the caller as a
    /// warning.
    pub fn run(
        &self,
        book: mdbook_preprocessor::book::Book,
        index_text: Result<String, LoadError>,
        generated_at: String,
    ) -> (res: (mdbook_preprocessor::book::Book, Option<LoadError>))
        ensures
            res.1 is Some ==> res.0 == book,
            index_text matches Ok(t) ==> (res.1 is None <==> json_parses(t@)),
            match index_text {
                Ok(_) => res.1 is None || res.1 == Some(LoadError::ParseError),
                Err(given) => res.1 == Some(given),
            },
            res.1 is None ==> book_skeleton(res.0) == book_skeleton(book),
            res.1 is None ==> (index_text matches Ok(t) && {
                let script = script_of(
                    compact_json_of(transform_spec(parsed_doc(t@), generated_at@)),
                );
                &&& chapter_contents(res.0).len() == chapter_contents(book).len()
                &&& forall|i: int|
                    0 <= i < chapter_contents(book).len() ==> #[trigger] chapter_contents(
                        res.0,
                    )[i] == script + "\n"@ + chapter_contents(book)[i]
            }),
    {
        let mut book = book;
        match load_collections(index_text, generated_at) {
            Ok(payload) => {
                let text = codec::serialize_json(&payload);
                let script = build_script(text.as_str());
                prepend_to_chapters(&mut book, script.as_str());
                (book, None)
            },
            Err(e) => (book, Some(e)),
        }
    }
}

impl Default for ContentLoader {
    fn default() -> (r: Self)
        ensures
            r == ContentLoader,
    {
        Self::new()
    }
}

} // verus!
