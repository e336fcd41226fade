//! Where the inputs of a kernel that failed are left for later study.

use vstd::prelude::*;

verus! {

/// The directory below the repository's root.
pub const HANDOFF_SUBDIR: &'static str = "m2v-handoff/artifacts";
/// The directory without a repository.
pub const HANDOFF_TEMPORARY: &'static str = "/tmp/reims-vgpu-m2v-compute-fails";

/// Where a kernel's inputs go.
#[derive(Clone, Debug, PartialEq, Eq)]
pub enum HandoffDir<T> {
    /// To the named directory.
    Explicit(T),
    /// To [`HANDOFF_SUBDIR`] below the named root.
    RepoLocal(T),
    /// To [`HANDOFF_TEMPORARY`].
    Temporary,
}

/// Choose the directory: the one asked for, else one in the repository that is kept
/// out of version control, else a temporary one.
pub fn m2v_handoff_dir_from_env<T>(fail_dir: Option<T>, repo_root: Option<T>) -> (dir: HandoffDir<
    T,
>)
    ensures
        dir == match (fail_dir, repo_root) {
            (Some(d), _) => HandoffDir::Explicit(d),
            (None, Some(root)) => HandoffDir::RepoLocal(root),
            (None, None) => HandoffDir::Temporary,
        },
        fail_dir is Some ==> dir == HandoffDir::Explicit(fail_dir->0),
        fail_dir is None && repo_root is Some ==> dir == HandoffDir::RepoLocal(repo_root->0),
        fail_dir is None && repo_root is None ==> dir is Temporary,
{
    match fail_dir {
        Some(d) => HandoffDir::Explicit(d),
        None => match repo_root {
            Some(root) => HandoffDir::RepoLocal(root),
            None => HandoffDir::Temporary,
        },
    }
}

} // verus!
