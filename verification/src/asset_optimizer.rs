//! Preparation of the assets of a project.

use vstd::prelude::*;
use vstd::string::*;
use crate::error::ForgeKitError;
use crate::text::{remove_all, without_all, join2};

verus! {

/// Optimizes the assets of a project.
#[derive(Debug, Clone)]
pub struct AssetOptimizer;

/// A JSON text without its blanks and line feeds, wherever they stand.
pub open spec fn minified(content: Seq<char>) -> Seq<char> {
    without_all(without_all(content, " "@), "\n"@)
}

impl AssetOptimizer {
    /// The text of a JSON file without its blanks and line feeds. Blanks
    /// inside strings go as well.
    pub fn minify_json(content: &str) -> (r: String)
        ensures
            r@ == minified(content@),
    {
        let without_blanks = remove_all(content, " ");
        remove_all(without_blanks.as_str(), "\n")
    }

    /// The compressed form of an image, which is the image itself.
    /// `shown_path` is the path of the image as shown in messages, and
    /// `exists` says whether the image was found there.
    pub fn compress_image(shown_path: &str, exists: bool) -> (r: Result<String, ForgeKitError>)
        ensures
            exists ==> r is Ok && r->Ok_0@ == shown_path@,
            !exists ==> r is Err && r->Err_0 is ProjectNotFound && r->Err_0.detail()
                == "Image not found: "@ + shown_path@,
    {
        if !exists {
            return Err(ForgeKitError::ProjectNotFound(join2("Image not found: ", shown_path)));
        }
        Ok(String::from_str(shown_path))
    }
}

} // verus!
