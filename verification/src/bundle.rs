//! Planning the on-disk bundle of one package: which text to write where and
//! which files to copy where. The plan is computed in full before the driver
//! touches the disk, so a descriptor that cannot be serialized or a binding
//! file that escapes the package base directory stops the run before any file
//! of the bundle exists.

use vstd::prelude::*;
use crate::codec::{emit_manifest, spec_emit_manifest, wf_manifest};
use crate::error::Error;
use crate::manifest::Manifest;
use crate::metadata::PackageInfo;
use crate::paths::{spec_file_name, SegPath};
use vstd::string::StringExecFns;

verus! {

/// One file copy of a bundle plan.
#[derive(Debug, Clone, PartialEq, Eq)]
pub struct CopyOp {
    pub from: SegPath,
    pub to: SegPath,
}

impl View for CopyOp {
    type V = (Seq<Seq<char>>, Seq<Seq<char>>);

    open spec fn view(&self) -> (Seq<Seq<char>>, Seq<Seq<char>>) {
        (self.from@, self.to@)
    }
}

/// Everything the driver does on disk to assemble one bundle, in order: it
/// removes a pre-existing destination, creates the destination directory,
/// writes the descriptor text to the descriptor path, and performs the
/// copies.
#[derive(Debug, Clone, PartialEq, Eq)]
pub struct BundlePlan {
    pub dest: SegPath,
    pub descriptor_path: SegPath,
    pub descriptor_text: String,
    pub ops: Vec<CopyOp>,
}

/// The views of a list of paths.
pub open spec fn paths_view(v: Seq<SegPath>) -> Seq<Seq<Seq<char>>> {
    Seq::new(v.len(), |i: int| v[i]@)
}

/// The view of an optional path.
pub open spec fn opt_path_view(o: Option<SegPath>) -> Option<Seq<Seq<char>>> {
    match o {
        Option::Some(p) => Option::Some(p@),
        Option::None => Option::None,
    }
}

/// The copies of the artifact, the license file and the readme: the artifact
/// keeps its file name; license and readme are flattened to their file names
/// (one without a file name is skipped, as the original paths were relative
/// to the manifest directory).
pub open spec fn spec_fixed_ops(
    dest: Seq<Seq<char>>,
    wasm: Seq<Seq<char>>,
    base: Seq<Seq<char>>,
    license_file: Option<Seq<Seq<char>>>,
    readme: Option<Seq<Seq<char>>>,
) -> Seq<(Seq<Seq<char>>, Seq<Seq<char>>)> {
    (match spec_file_name(wasm) {
        Option::Some(n) => seq![(wasm, dest.push(n))],
        Option::None => Seq::empty(),
    }) + (match license_file {
        Option::Some(p) => match spec_file_name(p) {
            Option::Some(n) => seq![(base + p, dest.push(n))],
            Option::None => Seq::empty(),
        },
        Option::None => Seq::empty(),
    }) + (match readme {
        Option::Some(p) => match spec_file_name(p) {
            Option::Some(n) => seq![(base + p, dest.push(n))],
            Option::None => Seq::empty(),
        },
        Option::None => Seq::empty(),
    })
}

/// The copies of the first `n` binding files: each keeps its location
/// relative to the package base directory.
pub open spec fn spec_binding_ops(
    dest: Seq<Seq<char>>,
    base: Seq<Seq<char>>,
    refs: Seq<Seq<Seq<char>>>,
    n: int,
) -> Seq<(Seq<Seq<char>>, Seq<Seq<char>>)> {
    Seq::new(n as nat, |i: int| (refs[i], dest + refs[i].skip(base.len() as int)))
}

/// All copies of a bundle.
pub open spec fn spec_bundle_ops(
    dest: Seq<Seq<char>>,
    wasm: Seq<Seq<char>>,
    base: Seq<Seq<char>>,
    license_file: Option<Seq<Seq<char>>>,
    readme: Option<Seq<Seq<char>>>,
    refs: Seq<Seq<Seq<char>>>,
) -> Seq<(Seq<Seq<char>>, Seq<Seq<char>>)> {
    spec_fixed_ops(dest, wasm, base, license_file, readme) + spec_binding_ops(
        dest,
        base,
        refs,
        refs.len() as int,
    )
}

/// Computes the complete plan for one bundle, or fails with no plan at all.
///
/// `binding_files` are the files the package's binding references resolve to,
/// as absolute paths; each must lie under the package base directory (the
/// directory of the package's manifest), or the plan fails with
/// `PathEscapesBaseDirectory` naming the first offender. A descriptor that
/// cannot be serialized fails before any path is considered.
pub fn bundle_plan(
    dest: &SegPath,
    manifest: &Manifest,
    wasm_path: &SegPath,
    pkg: &PackageInfo,
    binding_files: &Vec<SegPath>,
) -> (r: Result<BundlePlan, Error>)
    requires
        pkg.manifest_path@.len() > 0,
        spec_file_name(wasm_path@) is Some,
    ensures
        ({
            let base = pkg.manifest_path@.drop_last();
            let refs = paths_view(binding_files@);
            match r {
                Result::Ok(plan) => {
                    &&& wf_manifest(manifest@)
                    &&& forall|i: int| 0 <= i < refs.len() ==> base.is_prefix_of(#[trigger] refs[i])
                    &&& plan.dest@ == dest@
                    &&& plan.descriptor_path@ == dest@.push("wasmer.toml"@)
                    &&& plan.descriptor_text@ == spec_emit_manifest(manifest@)
                    &&& plan.ops@.map_values(|o: CopyOp| o@) == spec_bundle_ops(
                        dest@,
                        wasm_path@,
                        base,
                        opt_path_view(pkg.license_file),
                        opt_path_view(pkg.readme),
                        refs,
                    )
                },
                Result::Err(e) => match e {
                    Error::ManifestNotSerializable => !wf_manifest(manifest@),
                    Error::PathEscapesBaseDirectory { path } => {
                        &&& wf_manifest(manifest@)
                        &&& exists|i: int|
                            0 <= i < refs.len() && !base.is_prefix_of(#[trigger] refs[i]) && path@
                                == refs[i] && (forall|j: int|
                                0 <= j < i ==> base.is_prefix_of(#[trigger] refs[j]))
                    },
                    _ => false,
                },
            }
        }),
{
    let text = match emit_manifest(manifest) {
        Result::Ok(t) => t,
        Result::Err(e) => {
            return Result::Err(e);
        },
    };
    let base_dir = match pkg.manifest_path.parent() {
        Option::Some(d) => d,
        Option::None => SegPath::empty(),
    };
    let ghost base = pkg.manifest_path@.drop_last();
    let ghost refs = paths_view(binding_files@);
    let mut ops: Vec<CopyOp> = Vec::new();
    let wasm_name = match wasm_path.file_name() {
        Option::Some(n) => n,
        Option::None => String::new(),
    };
    ops.push(CopyOp { from: wasm_path.copied(), to: dest.join_one(&wasm_name) });
    match &pkg.license_file {
        Option::Some(p) => match p.file_name() {
            Option::Some(n) => {
                ops.push(CopyOp { from: base_dir.join(p), to: dest.join_one(&n) });
            },
            Option::None => {},
        },
        Option::None => {},
    }
    match &pkg.readme {
        Option::Some(p) => match p.file_name() {
            Option::Some(n) => {
                ops.push(CopyOp { from: base_dir.join(p), to: dest.join_one(&n) });
            },
            Option::None => {},
        },
        Option::None => {},
    }
    let ghost fixed = spec_fixed_ops(
        dest@,
        wasm_path@,
        base,
        opt_path_view(pkg.license_file),
        opt_path_view(pkg.readme),
    );
    proof {
        assert(ops@.map_values(|o: CopyOp| o@) =~~= fixed);
        assert(ops@.map_values(|o: CopyOp| o@) =~~= fixed + spec_binding_ops(
            dest@,
            pkg.manifest_path@.drop_last(),
            paths_view(binding_files@),
            0,
        ));
    }
    let nb = binding_files.len();
    let mut i: usize = 0;
    while i < nb
        invariant
            i <= nb,
            nb == binding_files@.len(),
            wf_manifest(manifest@),
            base == pkg.manifest_path@.drop_last(),
            refs == paths_view(binding_files@),
            forall|j: int| 0 <= j < i ==> base.is_prefix_of(#[trigger] refs[j]),
            ops@.map_values(|o: CopyOp| o@) == fixed + spec_binding_ops(dest@, base, refs, i as int),
            base_dir@ == base,
        decreases nb - i,
    {
        match binding_files[i].strip_prefix(&base_dir) {
            Option::Some(rel) => {
                proof {
                    assert(refs[i as int] == binding_files@[i as int]@);
                    assert(rel@ == refs[i as int].skip(base.len() as int));
                }
                let ghost before = ops@;
                let op = CopyOp { from: binding_files[i].copied(), to: dest.join(&rel) };
                let ghost opv = op@;
                ops.push(op);
                proof {
                    assert(opv == (refs[i as int], dest@ + refs[i as int].skip(
                        base.len() as int,
                    )));
                    assert(ops@.map_values(|o: CopyOp| o@) =~~= before.map_values(
                        |o: CopyOp| o@,
                    ).push(opv));
                    assert(fixed + spec_binding_ops(dest@, base, refs, i + 1 as int) =~~= (fixed
                        + spec_binding_ops(dest@, base, refs, i as int)).push(opv));
                }
            },
            Option::None => {
                proof {
                    assert(refs[i as int] == binding_files@[i as int]@);
                    assert(!base.is_prefix_of(refs[i as int]));
                }
                return Result::Err(
                    Error::PathEscapesBaseDirectory { path: binding_files[i].copied() },
                );
            },
        }
        i = i + 1;
    }
    let plan = BundlePlan {
        dest: dest.copied(),
        descriptor_path: dest.join_one(&String::from_str("wasmer.toml")),
        descriptor_text: text,
        ops,
    };
    proof {
        assert(plan.ops@.map_values(|o: CopyOp| o@) =~~= spec_bundle_ops(
            dest@,
            wasm_path@,
            base,
            opt_path_view(pkg.license_file),
            opt_path_view(pkg.readme),
            refs,
        ));
    }
    Result::Ok(plan)
}

} // verus!
