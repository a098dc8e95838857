//! The compiler invocation: translating feature flags and the ABI into the
//! exact argument list, predicting where the artifact lands, and judging the
//! outcome. The subprocess itself is run by the driver; success of the
//! subprocess alone is never trusted as proof that the artifact exists.

use vstd::prelude::*;
use crate::error::Error;
use crate::manifest::Abi;
use crate::metadata::TargetInfo;
use crate::paths::SegPath;
use crate::resolve::{spec_wasm_binary_name, wasm_binary_name};
use crate::strutil::strs_view;
use vstd::string::StringExecFns;

verus! {

/// Feature selection forwarded to the compiler.
#[derive(Debug, Clone, PartialEq, Eq)]
pub struct Features {
    pub all_features: bool,
    pub no_default_features: bool,
    pub features: Vec<String>,
}

/// The items joined with commas between them.
pub open spec fn spec_join_comma(items: Seq<Seq<char>>) -> Seq<char>
    decreases items.len(),
{
    if items.len() == 0 {
        Seq::empty()
    } else if items.len() == 1 {
        items[0]
    } else {
        spec_join_comma(items.drop_last()) + ","@ + items.last()
    }
}

/// The strings joined with commas between them.
pub fn join_comma(items: &Vec<String>) -> (r: String)
    ensures
        r@ == spec_join_comma(strs_view(items@)),
{
    let ghost s = strs_view(items@);
    let n = items.len();
    let mut out = String::new();
    let mut i: usize = 0;
    while i < n
        invariant
            i <= n,
            n == items@.len(),
            s == strs_view(items@),
            out@ == spec_join_comma(s.take(i as int)),
        decreases n - i,
    {
        proof {
            assert(s.take(i + 1 as int).drop_last() =~= s.take(i as int));
            assert(s.take(i + 1 as int).last() == s[i as int]);
        }
        if i == 0 {
            out = items[0].clone();
        } else {
            out.append(",");
            out.append(items[i].as_str());
        }
        i = i + 1;
    }
    proof {
        assert(s.take(n as int) =~= s);
    }
    out
}

/// The exact argument list of one compiler invocation: quiet build of the
/// given manifest for the given target triple. "All features" and "no
/// default features" are both passed through when both are set; an explicit
/// feature list is passed as one comma-joined flag only when non-empty;
/// release mode is the default and a debug build merely omits the release
/// flag.
pub open spec fn spec_cargo_build_args(
    manifest_path: Seq<char>,
    triple: Seq<char>,
    f: Features,
    debug: bool,
) -> Seq<Seq<char>> {
    seq!["build"@, "--quiet"@, "--manifest-path"@, manifest_path, "--target"@, triple] + (
    if f.all_features {
        seq!["--all-features"@]
    } else {
        Seq::<Seq<char>>::empty()
    }) + (if f.no_default_features {
        seq!["--no-default-features"@]
    } else {
        Seq::<Seq<char>>::empty()
    }) + (if f.features@.len() > 0 {
        seq!["--features="@ + spec_join_comma(strs_view(f.features@))]
    } else {
        Seq::<Seq<char>>::empty()
    }) + (if !debug {
        seq!["--release"@]
    } else {
        Seq::<Seq<char>>::empty()
    })
}

/// The argument list handed to the compiler for one package.
pub fn cargo_build_args(manifest_path: &String, abi: Abi, features: &Features, debug: bool) -> (r:
    Vec<String>)
    ensures
        strs_view(r@) == spec_cargo_build_args(
            manifest_path@,
            abi.target_triple(),
            *features,
            debug,
        ),
{
    let mut v: Vec<String> = Vec::new();
    v.push(String::from_str("build"));
    v.push(String::from_str("--quiet"));
    v.push(String::from_str("--manifest-path"));
    v.push(manifest_path.clone());
    v.push(String::from_str("--target"));
    v.push(String::from_str(abi.target()));
    if features.all_features {
        v.push(String::from_str("--all-features"));
    }
    if features.no_default_features {
        v.push(String::from_str("--no-default-features"));
    }
    if features.features.len() > 0 {
        let joined = join_comma(&features.features);
        v.push(String::from_str("--features=").concat(joined.as_str()));
    }
    if !debug {
        v.push(String::from_str("--release"));
    }
    proof {
        assert(strs_view(v@) =~~= spec_cargo_build_args(
            manifest_path@,
            abi.target_triple(),
            *features,
            debug,
        ));
    }
    v
}

/// Where the compiled artifact of `t` must land: the build target directory,
/// then the target triple, then the build mode, then the predicted file name
/// with the binary-format extension appended.
pub open spec fn spec_artifact_path(
    target_dir: Seq<Seq<char>>,
    triple: Seq<char>,
    debug: bool,
    t: TargetInfo,
) -> Seq<Seq<char>> {
    target_dir + seq![
        triple,
        if debug {
            "debug"@
        } else {
            "release"@
        },
        spec_wasm_binary_name(t) + ".wasm"@,
    ]
}

/// The path at which the compiled artifact is expected after a build.
pub fn predicted_artifact_path(target_dir: &SegPath, abi: Abi, debug: bool, target: &TargetInfo) -> (r:
    SegPath)
    ensures
        r@ == spec_artifact_path(target_dir@, abi.target_triple(), debug, *target),
{
    let p = target_dir.join_one(&String::from_str(abi.target()));
    let mode = if debug {
        String::from_str("debug")
    } else {
        String::from_str("release")
    };
    let p = p.join_one(&mode);
    let file = wasm_binary_name(target).concat(".wasm");
    let p = p.join_one(&file);
    proof {
        assert(p@ =~~= spec_artifact_path(target_dir@, abi.target_triple(), debug, *target));
    }
    p
}

/// Judges one finished compiler run. `exit_code` is the subprocess's exit
/// code, or nothing when it was terminated by a signal; `artifact_exists`
/// says whether the predicted `artifact` path exists on disk afterwards.
/// A zero exit without the artifact is a failure, never a silent success.
pub fn interpret_compile_outcome(
    exit_code: Option<i64>,
    artifact_exists: bool,
    artifact: &SegPath,
) -> (r: Result<(), Error>)
    ensures
        match r {
            Result::Ok(_) => exit_code == Option::Some(0i64) && artifact_exists,
            Result::Err(e) => match e {
                Error::CompilerFailed { exit_code: c } => exit_code != Option::Some(0i64) && c
                    == exit_code,
                Error::ArtifactMissing { path } => exit_code == Option::Some(0i64)
                    && !artifact_exists && path@ == artifact@,
                _ => false,
            },
        },
{
    match exit_code {
        Option::Some(code) => {
            if code == 0 {
                if artifact_exists {
                    Result::Ok(())
                } else {
                    Result::Err(Error::ArtifactMissing { path: artifact.copied() })
                }
            } else {
                Result::Err(Error::CompilerFailed { exit_code: Option::Some(code) })
            }
        },
        Option::None => Result::Err(Error::CompilerFailed { exit_code: Option::None }),
    }
}

} // verus!
