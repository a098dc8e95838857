//! Choosing which workspace packages a run processes: every tagged member in
//! whole-workspace mode, or the most specific package enclosing the caller's
//! directory in single-package mode.

use vstd::prelude::*;
use crate::error::Error;
use crate::metadata::{ConfigTable, PackageInfo, WorkspaceMeta};
use crate::paths::SegPath;
use crate::strutil::contains_str;
use vstd::string::StringExecFns;

verus! {

/// How much of the workspace one run packages.
#[derive(Debug, Clone, PartialEq, Eq)]
pub enum Scope {
    /// Package only the crate enclosing the caller's directory.
    Single,
    /// Package every tagged workspace member whose name is not excluded.
    Workspace { exclude: Vec<String> },
}

/// Whether the package at index `i` is a workspace member.
pub open spec fn spec_is_member(meta: WorkspaceMeta, i: int) -> bool {
    exists|j: int|
        0 <= j < meta.workspace_members@.len() && (#[trigger] meta.workspace_members@[j])@
            == meta.packages@[i].id@
}

/// Whether `name` is on the exclude list (literal, exact match).
pub open spec fn spec_excluded(exclude: Seq<String>, name: Seq<char>) -> bool {
    exists|j: int| 0 <= j < exclude.len() && (#[trigger] exclude[j])@ == name
}

/// Whether the package carries a configuration table at all (present but
/// malformed still counts: it is reported later, not silently skipped).
pub open spec fn spec_has_config_table(p: PackageInfo) -> bool {
    !(p.config is Absent)
}

/// Whether a whole-workspace run processes the package at index `i`.
pub open spec fn spec_workspace_selected(meta: WorkspaceMeta, exclude: Seq<String>, i: int) -> bool {
    &&& spec_is_member(meta, i)
    &&& !spec_excluded(exclude, meta.packages@[i].name@)
    &&& spec_has_config_table(meta.packages@[i])
}

/// The directory holding a package's manifest file.
pub open spec fn spec_manifest_dir(p: PackageInfo) -> Seq<Seq<char>> {
    p.manifest_path@.drop_last()
}

/// Whether the package at index `i` is a member whose manifest directory
/// encloses `current_dir`.
pub open spec fn spec_is_candidate(meta: WorkspaceMeta, current_dir: Seq<Seq<char>>, i: int) -> bool {
    &&& spec_is_member(meta, i)
    &&& spec_manifest_dir(meta.packages@[i]).is_prefix_of(current_dir)
}

/// Nesting depth of a package's manifest path.
pub open spec fn spec_depth(meta: WorkspaceMeta, i: int) -> int {
    meta.packages@[i].manifest_path@.len() as int
}

/// Whether the package carries a configuration table.
pub fn has_config_table(p: &PackageInfo) -> (r: bool)
    ensures
        r == spec_has_config_table(*p),
{
    match &p.config {
        ConfigTable::Absent => false,
        _ => true,
    }
}

/// Computes the ordered set of packages (as indices into `meta.packages`)
/// that the run processes.
///
/// Whole-workspace mode takes every member that carries a configuration
/// table and is not excluded; untagged members are silently skipped. Single
/// mode picks the most deeply nested member whose manifest directory is an
/// ancestor of `current_dir`, falls back to the workspace root package, and
/// otherwise fails with `NoPackageSelected`.
pub fn determine_crates_to_publish(meta: &WorkspaceMeta, scope: &Scope, current_dir: &SegPath) -> (r:
    Result<Vec<usize>, Error>)
    requires
        forall|i: int|
            0 <= i < meta.packages@.len() ==> (#[trigger] meta.packages@[i]).manifest_path@.len()
                > 0,
    ensures
        match r {
            Result::Ok(v) => match *scope {
                Scope::Workspace { exclude } => {
                    &&& forall|k: int|
                        0 <= k < v@.len() ==> 0 <= #[trigger] v@[k] < meta.packages@.len()
                            && spec_workspace_selected(*meta, exclude@, v@[k] as int)
                    &&& forall|k1: int, k2: int| 0 <= k1 < k2 < v@.len() ==> v@[k1] < v@[k2]
                    &&& forall|i: int|
                        0 <= i < meta.packages@.len() && spec_workspace_selected(
                            *meta,
                            exclude@,
                            i,
                        ) ==> v@.contains(i as usize)
                },
                Scope::Single => {
                    &&& v@.len() == 1
                    &&& 0 <= v@[0] < meta.packages@.len()
                    &&& if exists|j: int|
                        0 <= j < meta.packages@.len() && spec_is_candidate(*meta, current_dir@, j) {
                        &&& spec_is_candidate(*meta, current_dir@, v@[0] as int)
                        &&& forall|j: int|
                            0 <= j < meta.packages@.len() && spec_is_candidate(
                                *meta,
                                current_dir@,
                                j,
                            ) ==> spec_depth(*meta, j) < spec_depth(*meta, v@[0] as int) || (
                            spec_depth(*meta, j) == spec_depth(*meta, v@[0] as int) && j <= v@[0])
                    } else {
                        match meta.root_id {
                            Option::Some(rid) => meta.packages@[v@[0] as int].id@ == rid@
                                && forall|j: int|
                                0 <= j < v@[0] ==> (#[trigger] meta.packages@[j]).id@ != rid@,
                            Option::None => false,
                        }
                    }
                },
            },
            Result::Err(e) => {
                &&& e == Error::NoPackageSelected
                &&& *scope is Single
                &&& !(exists|j: int|
                    0 <= j < meta.packages@.len() && spec_is_candidate(*meta, current_dir@, j))
                &&& match meta.root_id {
                    Option::Some(rid) => forall|j: int|
                        0 <= j < meta.packages@.len() ==> (#[trigger] meta.packages@[j]).id@
                            != rid@,
                    Option::None => true,
                }
            },
        },
{
    let n = meta.packages.len();
    match scope {
        Scope::Workspace { exclude } => {
            let mut v: Vec<usize> = Vec::new();
            let mut i: usize = 0;
            while i < n
                invariant
                    i <= n,
                    n == meta.packages@.len(),
                    forall|k: int|
                        0 <= k < v@.len() ==> #[trigger] v@[k] < i && spec_workspace_selected(
                            *meta,
                            exclude@,
                            v@[k] as int,
                        ),
                    forall|k1: int, k2: int| 0 <= k1 < k2 < v@.len() ==> v@[k1] < v@[k2],
                    forall|j: int|
                        0 <= j < i && spec_workspace_selected(*meta, exclude@, j) ==> v@.contains(
                            j as usize,
                        ),
                decreases n - i,
            {
                let p = &meta.packages[i];
                let selected = contains_str(&meta.workspace_members, &p.id) && !contains_str(
                    exclude,
                    &p.name,
                ) && has_config_table(p);
                let ghost oldv = v@;
                if selected {
                    v.push(i);
                }
                proof {
                    assert forall|j: int|
                        0 <= j < i + 1 && spec_workspace_selected(
                            *meta,
                            exclude@,
                            j,
                        ) implies v@.contains(j as usize) by {
                        if j < i {
                            let k = choose|k: int| 0 <= k < oldv.len() && oldv[k] == j as usize;
                            assert(v@[k] == j as usize);
                        } else {
                            assert(v@[v@.len() - 1] == j as usize);
                        }
                    }
                }
                i = i + 1;
            }
            Result::Ok(v)
        },
        Scope::Single => {
            let mut found = false;
            let mut best: usize = 0;
            let mut i: usize = 0;
            while i < n
                invariant
                    i <= n,
                    n == meta.packages@.len(),
                    forall|j: int|
                        0 <= j < meta.packages@.len() ==> (
                        #[trigger] meta.packages@[j]).manifest_path@.len() > 0,
                    found ==> best < i && spec_is_candidate(*meta, current_dir@, best as int),
                    found ==> forall|j: int|
                        0 <= j < i && spec_is_candidate(*meta, current_dir@, j) ==> spec_depth(
                            *meta,
                            j,
                        ) < spec_depth(*meta, best as int) || (spec_depth(*meta, j) == spec_depth(
                            *meta,
                            best as int,
                        ) && j <= best),
                    !found ==> forall|j: int|
                        0 <= j < i ==> !spec_is_candidate(*meta, current_dir@, j),
                decreases n - i,
            {
                let p = &meta.packages[i];
                if contains_str(&meta.workspace_members, &p.id) {
                    let dir = match p.manifest_path.parent() {
                        Option::Some(d) => d,
                        Option::None => SegPath::empty(),
                    };
                    if dir.is_ancestor_of(current_dir) {
                        if !found || meta.packages[best].manifest_path.depth()
                            <= p.manifest_path.depth() {
                            best = i;
                            found = true;
                        }
                    }
                }
                i = i + 1;
            }
            if found {
                let mut v: Vec<usize> = Vec::new();
                v.push(best);
                return Result::Ok(v);
            }
            match &meta.root_id {
                Option::Some(rid) => {
                    let mut i: usize = 0;
                    while i < n
                        invariant
                            i <= n,
                            n == meta.packages@.len(),
                            *scope is Single,
                            meta.root_id == Option::Some(*rid),
                            !(exists|j: int|
                                0 <= j < meta.packages@.len() && spec_is_candidate(
                                    *meta,
                                    current_dir@,
                                    j,
                                )),
                            forall|j: int|
                                0 <= j < i ==> (#[trigger] meta.packages@[j]).id@ != rid@,
                        decreases n - i,
                    {
                        if crate::strutil::str_eq(meta.packages[i].id.as_str(), rid.as_str()) {
                            let mut v: Vec<usize> = Vec::new();
                            v.push(i);
                            return Result::Ok(v);
                        }
                        i = i + 1;
                    }
                    Result::Err(Error::NoPackageSelected)
                },
                Option::None => Result::Err(Error::NoPackageSelected),
            }
        },
    }
}

/// Where the assembled bundle of a package goes: the directory given by the
/// caller, or a `wasmer` directory under the build target directory; in
/// whole-workspace mode the package name is appended so bundles of different
/// packages cannot collide.
pub fn out_dir(
    out_dir_override: &Option<SegPath>,
    target_dir: &SegPath,
    pkg_name: &String,
    scope: &Scope,
) -> (r: SegPath)
    ensures
        ({
            let base = match *out_dir_override {
                Option::Some(d) => d@,
                Option::None => target_dir@.push("wasmer"@),
            };
            r@ == if *scope is Single {
                base
            } else {
                base.push(pkg_name@)
            }
        }),
{
    let base = match out_dir_override {
        Option::Some(d) => d.copied(),
        Option::None => target_dir.join_one(&String::from_str("wasmer")),
    };
    match scope {
        Scope::Single => base,
        Scope::Workspace { .. } => base.join_one(pkg_name),
    }
}

} // verus!
