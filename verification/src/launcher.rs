//! The command that starts the daemon in the background.
use vstd::prelude::*;

use crate::text::names_of;

verus! {

/// Prepared command used to spawn the daemon: `executable daemon run`, with
/// the daemon's address in its environment.
pub struct LaunchSpec {
    executable: String,
    args: Vec<String>,
    address: String,
}

impl LaunchSpec {
    pub closed spec fn spec_executable(&self) -> Seq<char> {
        self.executable@
    }

    pub closed spec fn spec_args(&self) -> Seq<Seq<char>> {
        names_of(self.args@)
    }

    pub closed spec fn spec_address(&self) -> Seq<char> {
        self.address@
    }

    /// The daemon at `address`, run by `executable` (the running program).
    pub fn new(address: String, executable: String) -> (s: LaunchSpec)
        ensures
            s.spec_executable() == executable@,
            s.spec_args() == seq!["daemon"@, "run"@],
            s.spec_address() == address@,
    {
        let mut args: Vec<String> = Vec::new();
        args.push(String::from_str("daemon"));
        args.push(String::from_str("run"));
        let s = LaunchSpec { executable, args, address };
        assert(s.spec_args() =~= seq!["daemon"@, "run"@]);
        s
    }

    pub fn args(&self) -> (a: &Vec<String>)
        ensures
            names_of(a@) == self.spec_args(),
    {
        &self.args
    }

    pub fn executable(&self) -> (e: &String)
        ensures
            e@ == self.spec_executable(),
    {
        &self.executable
    }

    pub fn address(&self) -> (a: &String)
        ensures
            a@ == self.spec_address(),
    {
        &self.address
    }
}

} // verus!
