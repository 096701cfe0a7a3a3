//! Where the lock file of a job lives.
//!
//! Each job runs under an advisory lock on the file `.<job name>.lock` in
//! the directory of the configuration file; a job whose lock is held is
//! skipped. Taking the lock is done outside the library.

use vstd::prelude::*;
use crate::path::{join, spec_join};
use crate::text::{push_str, string_of};

verus! {

/// The lock files of jobs, in one directory.
#[derive(Debug, Clone)]
pub struct FileJobLock {
    directory: String,
}

/// The lock file of a job: `.<job name>.lock` in `directory`.
pub open spec fn spec_lock_path(directory: Seq<char>, job_name: Seq<char>) -> Seq<char> {
    spec_join(directory, "."@ + job_name + ".lock"@)
}

impl FileJobLock {
    /// The directory of the lock files.
    pub closed spec fn spec_directory(&self) -> Seq<char> {
        self.directory@
    }

    /// Lock files in `directory`.
    pub fn new(directory: String) -> (r: FileJobLock)
        ensures
            r.spec_directory() == directory@,
    {
        FileJobLock { directory }
    }

    /// The directory of the lock files.
    pub fn directory(&self) -> (r: &str)
        ensures
            r@ == self.spec_directory(),
    {
        self.directory.as_str()
    }

    /// The lock file of a job (see [`spec_lock_path`]); distinct job names
    /// give distinct files.
    pub fn lock_path(&self, job_name: &str) -> (r: String)
        ensures
            r@ == spec_lock_path(self.spec_directory(), job_name@),
    {
        let mut leaf: Vec<char> = Vec::new();
        push_str(&mut leaf, ".");
        push_str(&mut leaf, job_name);
        push_str(&mut leaf, ".lock");
        let leaf = string_of(&leaf);
        join(self.directory.as_str(), leaf.as_str())
    }
}

/// Jobs lock independently: in one directory, two different job names
/// never share a lock file.
pub proof fn law_lock_paths_are_distinct(directory: Seq<char>, a: Seq<char>, b: Seq<char>)
    requires
        a != b,
    ensures
        spec_lock_path(directory, a) != spec_lock_path(directory, b),
{
    reveal_strlit(".");
    reveal_strlit(".lock");
    let la = "."@ + a + ".lock"@;
    let lb = "."@ + b + ".lock"@;
    assert(la[0] == '.');
    assert(lb[0] == '.');
    if spec_lock_path(directory, a) == spec_lock_path(directory, b) {
        let pa = spec_lock_path(directory, a);
        let n: int = if directory.len() == 0 {
            0
        } else if directory.last() == '/' {
            directory.len() as int
        } else {
            directory.len() + 1int
        };
        assert(pa.skip(n) =~= la);
        assert(spec_lock_path(directory, b).skip(n) =~= lb);
        assert(la.subrange(1, la.len() - 5) =~= a);
        assert(lb.subrange(1, lb.len() - 5) =~= b);
    }
}

} // verus!
