//! Where the tool keeps its configuration, data and logs.
use vstd::prelude::*;

use crate::pathname::{join_child, spec_join_child};

verus! {

/// The directories under one base directory.
pub struct GitzPaths {
    base: String,
    config: String,
    data: String,
    logs: String,
}

impl GitzPaths {
    pub closed spec fn base(&self) -> Seq<char> {
        self.base@
    }

    pub closed spec fn config(&self) -> Seq<char> {
        self.config@
    }

    pub closed spec fn data(&self) -> Seq<char> {
        self.data@
    }

    pub closed spec fn logs(&self) -> Seq<char> {
        self.logs@
    }

    /// `config`, `data` and `logs` under `base`; the caller creates them.
    pub fn new(base: String) -> (p: GitzPaths)
        ensures
            p.base() == base@,
            p.config() == spec_join_child(base@, "config"@),
            p.data() == spec_join_child(base@, "data"@),
            p.logs() == spec_join_child(base@, "logs"@),
    {
        let config = join_child(&base, "config");
        let data = join_child(&base, "data");
        let logs = join_child(&base, "logs");
        GitzPaths { base, config, data, logs }
    }

    pub fn base_dir(&self) -> (d: &String)
        ensures
            d@ == self.base(),
    {
        &self.base
    }

    pub fn config_dir(&self) -> (d: &String)
        ensures
            d@ == self.config(),
    {
        &self.config
    }

    pub fn data_dir(&self) -> (d: &String)
        ensures
            d@ == self.data(),
    {
        &self.data
    }

    pub fn logs_dir(&self) -> (d: &String)
        ensures
            d@ == self.logs(),
    {
        &self.logs
    }

    /// `daemon.log` in the logs directory.
    pub fn daemon_log_path(&self) -> (p: String)
        ensures
            p@ == spec_join_child(self.logs(), "daemon.log"@),
    {
        join_child(&self.logs, "daemon.log")
    }
}

} // verus!
