//! The index of paths: where it is fetched from, which of its paths lead to
//! index files, and the address of the file behind a path.

use crate::text::{contains_text, occurs_in, texts};
use vstd::prelude::*;
use vstd::string::*;

verus! {

/// The address that the paths in the index are relative to.
pub const DATA_HOST: &'static str = "https://data.commoncrawl.org/";

/// The path of the index of paths itself.
pub const INDEX_PATH: &'static str = "crawl-data/CC-MAIN-2024-30/cc-index.paths.gz";

/// The mark that the path of an index file bears.
pub open spec fn cdx_mark() -> Seq<char> {
    seq!['c', 'd', 'x', '-']
}

/// Whether a path leads to an index file: [`cdx_mark`] occurs in it.
pub open spec fn leads_to_cdx(path: Seq<char>) -> bool {
    occurs_in(cdx_mark(), path)
}

/// Whether a path leads to an index file.
pub fn is_cdx_path(path: &str) -> (r: bool)
    ensures
        r == leads_to_cdx(path@),
{
    proof {
        reveal_strlit("cdx-");
        assert("cdx-"@ =~= cdx_mark());
    }
    contains_text(path, "cdx-")
}

/// The position of the first path that leads to an index file. Only that
/// file is processed; the paths after it are not looked at.
pub fn first_cdx_path(paths: &Vec<String>) -> (r: Option<usize>)
    ensures
        match r {
            Some(at) => {
                &&& at < paths@.len()
                &&& leads_to_cdx(paths@[at as int]@)
                &&& forall|i: int| 0 <= i < at ==> !leads_to_cdx(#[trigger] paths@[i]@)
            },
            None => forall|i: int| 0 <= i < paths@.len() ==> !leads_to_cdx(#[trigger] paths@[i]@),
        },
{
    let mut at: usize = 0;
    while at < paths.len()
        invariant
            at <= paths@.len(),
            forall|i: int| 0 <= i < at ==> !leads_to_cdx(#[trigger] paths@[i]@),
        decreases paths@.len() - at,
    {
        if is_cdx_path(paths[at].as_str()) {
            return Some(at);
        }
        at += 1;
    }
    None
}

/// The address of the file behind a path of the index.
pub fn segment_url(path: &str) -> (r: String)
    ensures
        r@ == DATA_HOST@ + path@,
{
    let mut url = String::from_str(DATA_HOST);
    url.append(path);
    url
}

} // verus!
