//! The Git configuration the daemon applies to a registered repository.
use vstd::prelude::*;

verus! {

/// One change to a repository's Git configuration.
#[derive(Debug, Clone, PartialEq, Eq)]
pub enum ConfigEdit {
    SetStr { key: String, value: String },
    SetBool { key: String, value: bool },
    /// Remove the key; a key that is not set is no error.
    Remove { key: String },
}

pub enum ConfigEditView {
    SetStr { key: Seq<char>, value: Seq<char> },
    SetBool { key: Seq<char>, value: bool },
    Remove { key: Seq<char> },
}

impl View for ConfigEdit {
    type V = ConfigEditView;

    open spec fn view(&self) -> ConfigEditView {
        match self {
            ConfigEdit::SetStr { key, value } => ConfigEditView::SetStr { key: key@, value: value@ },
            ConfigEdit::SetBool { key, value } => ConfigEditView::SetBool { key: key@, value: *value },
            ConfigEdit::Remove { key } => ConfigEditView::Remove { key: key@ },
        }
    }
}

/// Partial clones fetch no blobs up front.
pub const PARTIAL_CLONE_FILTER: &'static str = "blob:none";

/// The edits that tune a repository for the daemon, in order: the fsmonitor
/// hook (or its removal without a helper), the untracked cache, the
/// many-files feature, commit graphs on fetch and gc, and a blobless
/// partial clone from `origin`.
pub open spec fn spec_performance_settings(helper: Option<Seq<char>>) -> Seq<ConfigEditView> {
    seq![
        match helper {
            Some(h) => ConfigEditView::SetStr { key: "core.fsmonitor"@, value: h },
            None => ConfigEditView::Remove { key: "core.fsmonitor"@ },
        },
        ConfigEditView::SetBool { key: "core.untrackedCache"@, value: true },
        ConfigEditView::SetBool { key: "feature.manyFiles"@, value: true },
        ConfigEditView::SetBool { key: "fetch.writeCommitGraph"@, value: true },
        ConfigEditView::SetBool { key: "gc.writeCommitGraph"@, value: true },
        ConfigEditView::SetBool { key: "remote.origin.promisor"@, value: true },
        ConfigEditView::SetStr { key: "remote.origin.partialclonefilter"@, value: "blob:none"@ },
    ]
}

/// The keys the performance settings touch.
pub open spec fn performance_keys() -> Seq<Seq<char>> {
    seq![
        "core.fsmonitor"@,
        "core.untrackedCache"@,
        "feature.manyFiles"@,
        "fetch.writeCommitGraph"@,
        "gc.writeCommitGraph"@,
        "remote.origin.promisor"@,
        "remote.origin.partialclonefilter"@,
    ]
}

/// The key an edit touches.
pub open spec fn edit_key(e: ConfigEditView) -> Seq<char> {
    match e {
        ConfigEditView::SetStr { key, .. } => key,
        ConfigEditView::SetBool { key, .. } => key,
        ConfigEditView::Remove { key } => key,
    }
}

/// Unregistering undoes registering: the settings touch exactly the keys
/// that clearing removes, in the same order. With a helper command the
/// fsmonitor hook is set to it; without one, the hook is removed.
pub proof fn lemma_clear_undoes_settings(helper: Option<Seq<char>>)
    ensures
        spec_performance_settings(helper).map_values(|e: ConfigEditView| edit_key(e)) == performance_keys(),
        helper matches Some(h) ==> spec_performance_settings(helper).contains(
            ConfigEditView::SetStr { key: "core.fsmonitor"@, value: h },
        ),
        helper is None ==> spec_performance_settings(helper).contains(
            ConfigEditView::Remove { key: "core.fsmonitor"@ },
        ),
{
    let v = spec_performance_settings(helper);
    assert(v.map_values(|e: ConfigEditView| edit_key(e)) =~= performance_keys());
    assert(v[0] == match helper {
        Some(h) => ConfigEditView::SetStr { key: "core.fsmonitor"@, value: h },
        None => ConfigEditView::Remove { key: "core.fsmonitor"@ },
    });
}

fn set_bool(key: &str) -> (e: ConfigEdit)
    ensures
        e@ == (ConfigEditView::SetBool { key: key@, value: true }),
{
    ConfigEdit::SetBool { key: String::from_str(key), value: true }
}

fn remove(key: &str) -> (e: ConfigEdit)
    ensures
        e@ == (ConfigEditView::Remove { key: key@ }),
{
    ConfigEdit::Remove { key: String::from_str(key) }
}

/// The edits applied when a repository is registered.
pub fn performance_settings(fsmonitor_helper: Option<&str>) -> (v: Vec<ConfigEdit>)
    ensures
        v@.map_values(|e: ConfigEdit| e@) == spec_performance_settings(
            match fsmonitor_helper {
                Some(h) => Some(h@),
                None => None,
            },
        ),
{
    let mut v: Vec<ConfigEdit> = Vec::new();
    match fsmonitor_helper {
        Some(h) => v.push(
            ConfigEdit::SetStr { key: String::from_str("core.fsmonitor"), value: String::from_str(h) },
        ),
        None => v.push(remove("core.fsmonitor")),
    }
    v.push(set_bool("core.untrackedCache"));
    v.push(set_bool("feature.manyFiles"));
    v.push(set_bool("fetch.writeCommitGraph"));
    v.push(set_bool("gc.writeCommitGraph"));
    v.push(set_bool("remote.origin.promisor"));
    v.push(
        ConfigEdit::SetStr {
            key: String::from_str("remote.origin.partialclonefilter"),
            value: String::from_str(PARTIAL_CLONE_FILTER),
        },
    );
    proof {
        assert(v@.map_values(|e: ConfigEdit| e@) =~= spec_performance_settings(
            match fsmonitor_helper {
                Some(h) => Some(h@),
                None => None,
            },
        ));
    }
    v
}

/// The edits applied when a repository is unregistered: every key the
/// performance settings touch is removed.
pub fn clear_settings() -> (v: Vec<ConfigEdit>)
    ensures
        v@.map_values(|e: ConfigEdit| e@) == performance_keys().map_values(
            |k: Seq<char>| ConfigEditView::Remove { key: k },
        ),
{
    let mut v: Vec<ConfigEdit> = Vec::new();
    v.push(remove("core.fsmonitor"));
    v.push(remove("core.untrackedCache"));
    v.push(remove("feature.manyFiles"));
    v.push(remove("fetch.writeCommitGraph"));
    v.push(remove("gc.writeCommitGraph"));
    v.push(remove("remote.origin.promisor"));
    v.push(remove("remote.origin.partialclonefilter"));
    proof {
        assert(v@.map_values(|e: ConfigEdit| e@) =~= performance_keys().map_values(
            |k: Seq<char>| ConfigEditView::Remove { key: k },
        ));
    }
    v
}

} // verus!
