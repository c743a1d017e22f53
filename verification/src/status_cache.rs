//! Where `status` keeps the last status it showed of each repository.
use vstd::prelude::*;
use vstd::utf8::encode_utf8;

use crate::fsmonitor_cache::{hex_lower, sha1_digest};
use crate::pathname::{join_child, spec_join_child};

verus! {

broadcast use vstd::string::group_string_axioms;

/// One JSON file per repository in `<base>/status_cache`.
pub struct StatusCache {
    dir: String,
}

/// The file name of a repository's cached status: the hexadecimal SHA-1 of
/// its path, then `.json`.
pub open spec fn status_file_name(repo_path: Seq<char>) -> Seq<char> {
    hex_lower(sha1_digest(encode_utf8(repo_path))) + ".json"@
}

impl StatusCache {
    pub closed spec fn dir(&self) -> Seq<char> {
        self.dir@
    }

    /// The cache under `base`; the caller creates its directory.
    pub fn new(base: &String) -> (c: StatusCache)
        ensures
            c.dir() == spec_join_child(base@, "status_cache"@),
    {
        StatusCache { dir: join_child(base, "status_cache") }
    }

    pub fn cache_dir(&self) -> (d: &String)
        ensures
            d@ == self.dir(),
    {
        &self.dir
    }

    /// The file holding the cached status of `repo_path`.
    pub fn cache_path(&self, repo_path: &String) -> (p: String)
        ensures
            p@ == spec_join_child(self.dir(), status_file_name(repo_path@)),
    {
        let digest = crate::fsmonitor_cache::sha1(repo_path.as_str().as_bytes());
        let mut name = crate::fsmonitor_cache::hex_encode(digest.as_slice());
        name.append(".json");
        join_child(&self.dir, name.as_str())
    }
}

} // verus!
