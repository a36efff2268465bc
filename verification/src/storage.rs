//! Bookmark persistence: the JSON text the bookmark file stores.  The
//! session only produces and consumes the text; reading and writing the
//! file itself is the surrounding program's job.

use vstd::prelude::*;

use crate::session::App;

verus! {

/// What `serde_json::to_string_pretty` returns for a list of strings; a
/// function of the list alone.
pub uninterp spec fn json_of(v: Seq<Seq<char>>) -> Seq<char>;

/// What `serde_json::from_str::<Vec<String>>` yields on a text: the decoded
/// list, or nothing when the text is not a JSON array of strings; a
/// function of the text alone.
pub uninterp spec fn json_list(s: Seq<char>) -> Option<Seq<Seq<char>>>;

/// Relies on `serde_json::to_string_pretty`: on a list of strings it cannot
/// fail (string serialization has no error path and the in-memory writer
/// cannot fail), the result depends on the list alone, and
/// `serde_json::from_str` parses it back to the same list.
#[verifier::external_body]
fn encode_bookmarks(v: &Vec<String>) -> (r: String)
    ensures
        r@ == json_of(v.deep_view()),
        json_list(r@) == Some(v.deep_view()),
{
    serde_json::to_string_pretty(v).expect("serializing a list of strings cannot fail")
}

/// Relies on `serde_json::from_str::<Vec<String>>`: the result depends on
/// the text alone.
#[verifier::external_body]
fn decode_bookmarks(s: &str) -> (r: Option<Vec<String>>)
    ensures
        r is Some <==> json_list(s@) is Some,
        r is Some ==> r->Some_0.deep_view() == json_list(s@)->Some_0,
{
    serde_json::from_str(s).ok()
}

/// The bookmark list stored in a bookmark file's text, best effort: a
/// missing file (`None`) or an unreadable document yields the empty list,
/// never an error.
pub fn bookmarks_from_json(content: Option<&str>) -> (r: Vec<String>)
    ensures
        match content {
            Some(s) => match json_list(s@) {
                Some(l) => r.deep_view() == l,
                None => r.deep_view() == Seq::<Seq<char>>::empty(),
            },
            None => r.deep_view() == Seq::<Seq<char>>::empty(),
        },
{
    let empty_ok: Vec<String> = Vec::new();
    proof {
        assert(empty_ok.deep_view() =~~= Seq::<Seq<char>>::empty());
    }
    match content {
        Some(s) => match decode_bookmarks(s) {
            Some(list) => list,
            None => empty_ok,
        },
        None => empty_ok,
    }
}

impl App {
    /// The JSON text to persist for the current bookmark list; loading it
    /// back yields the same list.
    pub fn bookmarks_json(&self) -> (r: String)
        ensures
            r@ == json_of(self.bookmarks.deep_view()),
            json_list(r@) == Some(self.bookmarks.deep_view()),
    {
        encode_bookmarks(&self.bookmarks)
    }
}

} // verus!
