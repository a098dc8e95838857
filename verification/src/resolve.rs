//! Picking the one build target of a package that can be packaged, and
//! predicting the file name the compiler gives its artifact.

use vstd::prelude::*;
use crate::error::Error;
use crate::metadata::{PackageInfo, TargetInfo};
use crate::strutil::{chars_of, str_eq, string_from_chars, strs_view};

verus! {

/// Whether a target is an executable binary.
pub open spec fn spec_is_binary(t: TargetInfo) -> bool {
    exists|i: int| 0 <= i < t.kinds@.len() && (#[trigger] t.kinds@[i])@ == "bin"@
}

/// Whether a target produces a dynamic library usable for embedding.
pub open spec fn spec_is_webassembly_library(t: TargetInfo) -> bool {
    exists|i: int| 0 <= i < t.kinds@.len() && (#[trigger] t.kinds@[i])@ == "cdylib"@
}

/// Whether a target is eligible for packaging.
pub open spec fn spec_is_packageable(t: TargetInfo) -> bool {
    spec_is_webassembly_library(t) || spec_is_binary(t)
}

/// Whether any kind tag of `t` equals `tag`.
fn has_kind(t: &TargetInfo, tag: &str) -> (r: bool)
    ensures
        r == exists|i: int| 0 <= i < t.kinds@.len() && (#[trigger] t.kinds@[i])@ == tag@,
{
    let n = t.kinds.len();
    let mut i: usize = 0;
    while i < n
        invariant
            i <= n,
            n == t.kinds@.len(),
            forall|j: int| 0 <= j < i ==> (#[trigger] t.kinds@[j])@ != tag@,
        decreases n - i,
    {
        if str_eq(t.kinds[i].as_str(), tag) {
            return true;
        }
        i = i + 1;
    }
    false
}

/// Whether the target is an executable binary.
pub fn is_binary(target: &TargetInfo) -> (r: bool)
    ensures
        r == spec_is_binary(*target),
{
    has_kind(target, "bin")
}

/// Whether the target produces a dynamic library usable for embedding.
pub fn is_webassembly_library(target: &TargetInfo) -> (r: bool)
    ensures
        r == spec_is_webassembly_library(*target),
{
    has_kind(target, "cdylib")
}

/// Hyphens replaced by underscores.
pub open spec fn replace_hyphens(s: Seq<char>) -> Seq<char> {
    s.map_values(|c: char| if c == '-' { '_' } else { c })
}

/// The file name (without extension) the compiler gives a target's artifact:
/// hyphens survive in a binary's name but are rewritten to underscores for
/// library-style artifacts.
pub open spec fn spec_wasm_binary_name(t: TargetInfo) -> Seq<char> {
    if spec_is_binary(t) {
        t.name@
    } else {
        replace_hyphens(t.name@)
    }
}

/// The file name (without extension) of the target's compiled artifact.
pub fn wasm_binary_name(target: &TargetInfo) -> (r: String)
    ensures
        r@ == spec_wasm_binary_name(*target),
{
    if is_binary(target) {
        target.name.clone()
    } else {
        let cs = chars_of(target.name.as_str());
        let n = cs.len();
        let mut out: Vec<char> = Vec::new();
        let mut i: usize = 0;
        while i < n
            invariant
                i <= n,
                n == cs@.len(),
                cs@ == target.name@,
                out@ == replace_hyphens(cs@.take(i as int)),
            decreases n - i,
        {
            let c = cs[i];
            if c == '-' {
                out.push('_');
            } else {
                out.push(c);
            }
            proof {
                assert(replace_hyphens(cs@.take(i + 1 as int)) =~= replace_hyphens(
                    cs@.take(i as int),
                ).push(if cs@[i as int] == '-' {
                    '_'
                } else {
                    cs@[i as int]
                }));
            }
            i = i + 1;
        }
        proof {
            assert(cs@.take(n as int) =~= cs@);
        }
        string_from_chars(&out)
    }
}

/// The eligible targets of a target list, in declaration order.
pub open spec fn eligible_targets(ts: Seq<TargetInfo>) -> Seq<TargetInfo> {
    ts.filter(|t: TargetInfo| spec_is_packageable(t))
}

/// The name and kind tags of a candidate list, as mathematical values.
pub open spec fn candidates_view(cs: Seq<(String, Vec<String>)>) -> Seq<(Seq<char>, Seq<Seq<char>>)> {
    cs.map_values(|c: (String, Vec<String>)| (c.0@, strs_view(c.1@)))
}

proof fn lemma_filter_take_succ(s: Seq<TargetInfo>, k: int)
    requires
        0 <= k < s.len(),
    ensures
        eligible_targets(s.take(k + 1)) == eligible_targets(s.take(k)) + (
        if spec_is_packageable(s[k]) {
            seq![s[k]]
        } else {
            Seq::<TargetInfo>::empty()
        }),
{
    reveal(Seq::filter);
    let pred = |t: TargetInfo| spec_is_packageable(t);
    assert(s.take(k + 1).drop_last() =~= s.take(k));
    assert(s.take(k + 1).last() == s[k]);
    if pred(s[k]) {
        assert(s.take(k + 1).filter(pred) =~= s.take(k).filter(pred) + seq![s[k]]);
    } else {
        assert(s.take(k + 1).filter(pred) =~= s.take(k).filter(pred)
            + Seq::<TargetInfo>::empty());
    }
}

/// Picks the single target of `pkg` that is eligible for packaging.
///
/// Zero eligible targets and more than one eligible target are both hard
/// failures: guessing among candidates could silently ship the wrong
/// artifact, so ambiguity is never resolved by a heuristic.
pub fn determine_target<'a>(pkg: &'a PackageInfo) -> (r: Result<&'a TargetInfo, Error>)
    ensures
        match r {
            Result::Ok(t) => eligible_targets(pkg.targets@).len() == 1 && *t == eligible_targets(
                pkg.targets@,
            )[0],
            Result::Err(e) => match e {
                Error::NoPackageableTarget { package } => eligible_targets(pkg.targets@).len()
                    == 0 && package@ == pkg.name@,
                Error::AmbiguousTarget { package, candidates } => eligible_targets(
                    pkg.targets@,
                ).len() >= 2 && package@ == pkg.name@ && candidates_view(candidates@)
                    == eligible_targets(pkg.targets@).map_values(
                    |t: TargetInfo| (t.name@, strs_view(t.kinds@)),
                ),
                _ => false,
            },
        },
{
    let ghost full = eligible_targets(pkg.targets@);
    let n = pkg.targets.len();
    let mut count: usize = 0;
    let mut first: usize = 0;
    let mut cands: Vec<(String, Vec<String>)> = Vec::new();
    let mut i: usize = 0;
    proof {
        reveal(Seq::filter);
    }
    while i < n
        invariant
            i <= n,
            n == pkg.targets@.len(),
            count == eligible_targets(pkg.targets@.take(i as int)).len(),
            count > 0 ==> first < i && pkg.targets@[first as int] == eligible_targets(
                pkg.targets@.take(i as int),
            )[0],
            cands@.len() == count,
            forall|k: int| 0 <= k < count ==> (#[trigger] cands@[k]).0 == eligible_targets(
                pkg.targets@.take(i as int),
            )[k].name,
            forall|k: int| 0 <= k < count ==> (#[trigger] cands@[k]).1@ == eligible_targets(
                pkg.targets@.take(i as int),
            )[k].kinds@,
        decreases n - i,
    {
        let t = &pkg.targets[i];
        let eligible = is_webassembly_library(t) || is_binary(t);
        proof {
            lemma_filter_take_succ(pkg.targets@, i as int);
            if spec_is_packageable(pkg.targets@[i as int]) {
                assert(eligible_targets(pkg.targets@.take(i + 1 as int)) =~= eligible_targets(
                    pkg.targets@.take(i as int),
                ).push(pkg.targets@[i as int]));
            } else {
                assert(eligible_targets(pkg.targets@.take(i + 1 as int)) =~= eligible_targets(
                    pkg.targets@.take(i as int),
                ));
            }
        }
        if eligible {
            if count == 0 {
                first = i;
            }
            count = count + 1;
            let kinds = crate::strutil::clone_strings(&t.kinds);
            cands.push((t.name.clone(), kinds));
        }
        i = i + 1;
    }
    proof {
        assert(pkg.targets@.take(n as int) =~= pkg.targets@);
    }
    if count == 0 {
        Result::Err(Error::NoPackageableTarget { package: pkg.name.clone() })
    } else if count == 1 {
        Result::Ok(&pkg.targets[first])
    } else {
        proof {
            assert(candidates_view(cands@) =~~= eligible_targets(pkg.targets@).map_values(
                |t: TargetInfo| (t.name@, strs_view(t.kinds@)),
            ));
        }
        Result::Err(Error::AmbiguousTarget { package: pkg.name.clone(), candidates: cands })
    }
}

} // verus!
