//! Launch planning: which stored path to start, how to start it, and how to
//! classify a failed start.
//!
//! A stored target carries an optional executable path and an optional
//! shortcut path. The executable path wins when both are present; a target
//! with neither fails at once. A path ending in `.lnk` (case-insensitively)
//! is handed to the OS shell, which yields no child process id; anything else
//! is spawned directly with its parent directory as working directory. A
//! spawn failure whose OS error code marks a missing file or path calls for a
//! soft invalidation of the stored target: the paths are cleared, the catalog
//! entry stays.

use vstd::prelude::*;

use crate::bytes::{clone_bytes, ends_with, is_suffix_of, lower_bytes, to_lower};

verus! {

/// A stored launch target of one catalog entry.
pub struct LaunchTarget {
    pub display_name: Vec<u8>,
    pub exe_path: Option<Vec<u8>>,
    pub lnk_path: Option<Vec<u8>>,
}

/// A successful start: the path that was started and, for a direct spawn
/// only, the child process id.
pub struct LaunchResult {
    pub spawned_pid: Option<u32>,
    pub path_str: Vec<u8>,
}

/// Why no launch could even be attempted.
#[derive(Debug, Clone, Copy, PartialEq, Eq, Structural)]
pub enum LaunchError {
    /// The target stores neither an executable nor a shortcut path.
    NoLaunchTarget,
    /// The executable path has no parent directory to use as working
    /// directory.
    NoParentDirectory,
}

/// How the target is to be started.
#[derive(Debug)]
pub enum LaunchMethod {
    /// Spawn the executable directly, from the given working directory; the
    /// child process id will be known.
    Direct { exe: Vec<u8>, workdir: Vec<u8> },
    /// Hand the path to the OS shell (shortcuts); no process id results.
    ShellOpen { path: Vec<u8> },
}

/// The `.lnk` extension, with its leading dot.
pub open spec fn lnk_ext() -> Seq<u8> {
    seq![46u8, 108u8, 110u8, 107u8]
}

/// The path names a shortcut: it ends in `.lnk`, compared case-insensitively.
pub open spec fn spec_is_lnk(path: Seq<u8>) -> bool {
    is_suffix_of(lnk_ext(), lower_bytes(path))
}

/// Whether a stored path names a shortcut file.
pub fn is_lnk_path(path: &Vec<u8>) -> (r: bool)
    ensures
        r == spec_is_lnk(path@),
{
    let lower = to_lower(path.as_slice());
    let mut ext: Vec<u8> = Vec::new();
    ext.push(46);
    ext.push(108);
    ext.push(110);
    ext.push(107);
    assert(ext@ =~= lnk_ext());
    ends_with(lower.as_slice(), ext.as_slice())
}

/// A path separator byte: `/` or `\`.
pub open spec fn is_sep(b: u8) -> bool {
    b == 47 || b == 92
}

/// The index of the last separator in the path, or -1 when it has none.
pub open spec fn last_sep(path: Seq<u8>) -> int
    decreases path.len(),
{
    if path.len() == 0 {
        -1
    } else if is_sep(path[path.len() - 1]) {
        path.len() - 1
    } else {
        last_sep(path.drop_last())
    }
}

/// The parent directory of a path: everything before its last separator. A
/// path without a separator has no parent directory here.
pub open spec fn spec_parent(path: Seq<u8>) -> Option<Seq<u8>> {
    if last_sep(path) >= 0 {
        Some(path.subrange(0, last_sep(path)))
    } else {
        None
    }
}

/// `last_sep` ignores a separator-free tail.
pub proof fn lemma_last_sep_take(path: Seq<u8>, i: int)
    requires
        0 <= i <= path.len(),
        forall|j: int| i <= j < path.len() ==> !is_sep(#[trigger] path[j]),
    ensures
        last_sep(path) == last_sep(path.take(i)),
    decreases path.len(),
{
    if i < path.len() {
        assert(!is_sep(path[path.len() - 1]));
        assert(path.drop_last() =~= path.take(path.len() - 1));
        lemma_last_sep_take(path.take(path.len() - 1), i);
        assert(path.take(path.len() - 1).take(i) =~= path.take(i));
    } else {
        assert(path.take(i) =~= path);
    }
}

/// The parent directory of a path, as `spec_parent` describes it.
pub fn parent_dir(path: &Vec<u8>) -> (r: Option<Vec<u8>>)
    ensures
        r.deep_view() == spec_parent(path@),
{
    let mut i: usize = path.len();
    while i > 0
        invariant
            i <= path@.len(),
            forall|j: int| i <= j < path@.len() ==> !is_sep(#[trigger] path@[j]),
        decreases i,
    {
        let b = path[i - 1];
        if b == 47 || b == 92 {
            proof {
                lemma_last_sep_take(path@, i as int);
                assert(path@.take(i as int)[i as int - 1] == path@[i as int - 1]);
                assert(last_sep(path@.take(i as int)) == i - 1);
            }
            let mut parent: Vec<u8> = Vec::new();
            let mut j: usize = 0;
            while j < i - 1
                invariant
                    i >= 1,
                    i <= path@.len(),
                    j <= i - 1,
                    parent@ == path@.subrange(0, j as int),
                decreases i - j,
            {
                parent.push(path[j]);
                assert(parent@ =~= path@.subrange(0, j as int + 1));
                j = j + 1;
            }
            proof {
                assert(parent.deep_view() =~= path@.subrange(0, last_sep(path@)));
            }
            return Some(parent);
        }
        i = i - 1;
    }
    proof {
        lemma_last_sep_take(path@, 0);
        assert(last_sep(path@.take(0)) == -1);
    }
    None
}

/// The path a launch will use: the stored executable path when present,
/// otherwise the stored shortcut path.
pub open spec fn chosen_path(target: LaunchTarget) -> Option<Seq<u8>> {
    match target.exe_path {
        Some(p) => Some(p@),
        None => match target.lnk_path {
            Some(p) => Some(p@),
            None => None,
        },
    }
}

/// The decided launch method, at the specification level.
pub enum PlanView {
    Direct { exe: Seq<u8>, workdir: Seq<u8> },
    ShellOpen { path: Seq<u8> },
}

/// What a launch method holds, at the specification level.
pub open spec fn method_view(m: LaunchMethod) -> PlanView {
    match m {
        LaunchMethod::Direct { exe, workdir } => PlanView::Direct {
            exe: exe@,
            workdir: workdir@,
        },
        LaunchMethod::ShellOpen { path } => PlanView::ShellOpen { path: path@ },
    }
}

/// How a launch of the target must proceed.
pub open spec fn spec_plan(target: LaunchTarget) -> Result<PlanView, LaunchError> {
    match chosen_path(target) {
        None => Err(LaunchError::NoLaunchTarget),
        Some(p) => if spec_is_lnk(p) {
            Ok(PlanView::ShellOpen { path: p })
        } else {
            match spec_parent(p) {
                None => Err(LaunchError::NoParentDirectory),
                Some(d) => Ok(PlanView::Direct { exe: p, workdir: d }),
            }
        },
    }
}

/// Decide how to start the target: shell-open a shortcut, spawn an
/// executable directly from its parent directory, or fail when no path is
/// stored or the executable has no parent directory.
pub fn plan_launch(target: &LaunchTarget) -> (r: Result<LaunchMethod, LaunchError>)
    ensures
        match r {
            Ok(m) => spec_plan(*target) == Ok::<PlanView, LaunchError>(method_view(m)),
            Err(e) => spec_plan(*target) == Err::<PlanView, LaunchError>(e),
        },
{
    let path: &Vec<u8> = match &target.exe_path {
        Some(p) => p,
        None => match &target.lnk_path {
            Some(p) => p,
            None => {
                return Err(LaunchError::NoLaunchTarget);
            },
        },
    };
    if is_lnk_path(path) {
        Ok(LaunchMethod::ShellOpen { path: clone_bytes(path) })
    } else {
        match parent_dir(path) {
            None => Err(LaunchError::NoParentDirectory),
            Some(d) => {
                proof {
                    assert(d@ =~= d.deep_view());
                }
                Ok(LaunchMethod::Direct { exe: clone_bytes(path), workdir: d })
            },
        }
    }
}


/// OS error codes that mark a path-related spawn failure: file not found
/// (2), path not found (3), or a directory where a file was expected (267).
pub open spec fn spec_path_related(code: Option<i32>) -> bool {
    code == Some(2int as i32) || code == Some(3int as i32) || code == Some(267int as i32)
}

/// Classify a spawn failure by its raw OS error code: true exactly for the
/// codes that mean the stored path no longer points at a launchable file.
pub fn is_path_related_error(code: Option<i32>) -> (r: bool)
    ensures
        r == spec_path_related(code),
{
    match code {
        Some(c) => c == 2 || c == 3 || c == 267,
        None => false,
    }
}

/// Soft invalidation after a path-related launch failure: clear both stored
/// paths, keep the entry (its display name) itself.
pub fn soft_invalidate(target: &mut LaunchTarget)
    ensures
        final(target).exe_path is None,
        final(target).lnk_path is None,
        final(target).display_name == old(target).display_name,
{
    target.exe_path = None;
    target.lnk_path = None;
}

/// Store a new path on the target: a shortcut path lands in `lnk_path`,
/// anything else in `exe_path`; the other field is cleared.
pub fn set_target_path(target: &mut LaunchTarget, path: Vec<u8>)
    ensures
        final(target).display_name == old(target).display_name,
        spec_is_lnk(path@) ==> final(target).lnk_path == Some(path)
            && final(target).exe_path is None,
        !spec_is_lnk(path@) ==> final(target).exe_path == Some(path)
            && final(target).lnk_path is None,
{
    if is_lnk_path(&path) {
        target.exe_path = None;
        target.lnk_path = Some(path);
    } else {
        target.lnk_path = None;
        target.exe_path = Some(path);
    }
}

} // verus!
