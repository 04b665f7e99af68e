//! The assets that the server offers, and the paths under which it offers
//! them.

use crate::text::str_eq;
use vstd::prelude::*;

verus! {

/// A file that the server offers.
#[derive(Debug, Clone, Copy, PartialEq, Eq)]
pub struct Asset {
    /// The name of the file in the content directory.
    pub file_name: &'static str,
    /// What `Content-Type` says of the file.
    pub content_type: &'static str,
}

/// What the body of the response to any other request says.
pub const NOT_FOUND_BODY: &'static str = "Not Found";

/// An asset as plain values: its file name and its content type.
pub struct AssetSpec {
    pub file_name: Seq<char>,
    pub content_type: Seq<char>,
}

impl View for Asset {
    type V = AssetSpec;

    open spec fn view(&self) -> AssetSpec {
        AssetSpec { file_name: self.file_name@, content_type: self.content_type@ }
    }
}

/// The asset that a request names: `GET /` names the index page, `GET /video`
/// the video, and every other request names nothing.
pub open spec fn asset_for(method: Seq<char>, path: Seq<char>) -> Option<AssetSpec> {
    if method == "GET"@ && path == "/"@ {
        Some(AssetSpec { file_name: "index.html"@, content_type: "text/html; charset=utf-8"@ })
    } else if method == "GET"@ && path == "/video"@ {
        Some(AssetSpec { file_name: "bbb.mp4"@, content_type: "video/mp4"@ })
    } else {
        None
    }
}

/// Finds the asset that a request names by its method and path. A request
/// that names none is answered with the status 404 and [`NOT_FOUND_BODY`].
pub fn route(method: &str, path: &str) -> (asset: Option<Asset>)
    ensures
        match asset {
            Some(asset) => asset_for(method@, path@) == Some(asset@),
            None => asset_for(method@, path@) is None,
        },
{
    if !str_eq(method, "GET") {
        None
    } else if str_eq(path, "/") {
        Some(Asset { file_name: "index.html", content_type: "text/html; charset=utf-8" })
    } else if str_eq(path, "/video") {
        Some(Asset { file_name: "bbb.mp4", content_type: "video/mp4" })
    } else {
        None
    }
}

/// How many directories above the executable are searched for the content
/// directory.
pub const CONTENT_SEARCH_DEPTH: usize = 3;

/// `at` is the nearest of the directories searched that holds a content
/// directory, `holds_content` saying of each directory above the executable,
/// nearest first, whether it holds one.
pub open spec fn is_content_dir(holds_content: Seq<bool>, at: int) -> bool {
    &&& 0 <= at < holds_content.len()
    &&& at < CONTENT_SEARCH_DEPTH
    &&& holds_content[at]
    &&& forall|i: int| 0 <= i < at ==> !holds_content[i]
}

/// Chooses the directory above the executable in which the content is
/// looked up: the nearest that holds a content directory, among the three
/// nearest. `None` says that none of them holds one.
pub fn choose_content_dir(holds_content: &[bool]) -> (chosen: Option<usize>)
    ensures
        match chosen {
            Some(at) => is_content_dir(holds_content@, at as int),
            None => forall|i: int|
                0 <= i < holds_content@.len() && i < CONTENT_SEARCH_DEPTH ==> !holds_content@[i],
        },
{
    let mut i: usize = 0;
    while i < holds_content.len() && i < CONTENT_SEARCH_DEPTH
        invariant
            i <= holds_content@.len(),
            i <= CONTENT_SEARCH_DEPTH,
            forall|j: int| 0 <= j < i ==> !holds_content@[j],
        decreases holds_content@.len() - i,
    {
        if holds_content[i] {
            return Some(i);
        }
        i += 1;
    }
    None
}

} // verus!
