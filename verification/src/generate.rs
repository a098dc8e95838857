//! Deriving the bundle descriptor of a resolved package and target from its
//! configuration table, with strict validation: a missing or malformed table
//! and a missing or empty description are all fatal, and are reported before
//! any file of the bundle is touched.

use vstd::prelude::*;
use crate::error::Error;
use crate::manifest::{
    Bindings, BindingsView, Command, CommandView, Manifest, ManifestView, Module, ModuleView,
    Package, PackageView, opt_view,
};
use crate::metadata::{ConfigTable, PackageInfo, TargetInfo, Wapm};
use crate::paths::spec_file_name;
use crate::resolve::{is_binary, spec_is_binary, spec_wasm_binary_name, wasm_binary_name};
use vstd::string::StringExecFns;

verus! {

/// The published package name: `namespace/name`, where the name defaults to
/// the crate's own name when the table gives no override.
pub open spec fn spec_package_name(w: Wapm, crate_name: Seq<char>) -> Seq<char> {
    w.namespace@ + "/"@ + (match w.package {
        Option::Some(p) => p@,
        Option::None => crate_name,
    })
}

/// The value of an optional bindings reference.
pub open spec fn spec_bindings_view(b: Option<Bindings>) -> Option<BindingsView> {
    match b {
        Option::Some(x) => Option::Some(x@),
        Option::None => Option::None,
    }
}

/// The descriptor generated for a package whose configuration table is `w`
/// and whose resolved target is `t`. One module is emitted for the target;
/// a command is emitted if and only if the target is a binary; the license
/// file and readme are recorded by file name only, because the bundle
/// assembler flattens them into the bundle root.
pub open spec fn spec_generated_manifest(pkg: PackageInfo, w: Wapm, t: TargetInfo) -> ManifestView {
    let name = spec_package_name(w, pkg.name@);
    ManifestView {
        package: PackageView {
            name: name,
            version: pkg.version@,
            description: match pkg.description {
                Option::Some(d) => d@,
                Option::None => Seq::empty(),
            },
            license: opt_view(pkg.license),
            license_file: match pkg.license_file {
                Option::Some(p) => spec_file_name(p@),
                Option::None => Option::None,
            },
            readme: match pkg.readme {
                Option::Some(p) => spec_file_name(p@),
                Option::None => Option::None,
            },
            repository: opt_view(pkg.repository),
            homepage: opt_view(pkg.homepage),
            wasmer_extra_flags: opt_view(w.wasmer_extra_flags),
        },
        modules: seq![
            ModuleView {
                name: t.name@,
                source: spec_wasm_binary_name(t) + ".wasm"@,
                abi: w.abi,
                bindings: spec_bindings_view(w.bindings),
            },
        ],
        commands: if spec_is_binary(t) {
            seq![CommandView { name: t.name@, module: t.name@, package: name }]
        } else {
            Seq::empty()
        },
        fs: w.fs@.map_values(|p: (String, String)| (p.0@, p.1@)),
    }
}

/// Builds the descriptor for a resolved package and target, or fails.
///
/// Failures, in the order they are checked: the configuration table is
/// absent; it is malformed (the reader's message is passed through); the
/// description is missing; the description is empty.
pub fn generate_manifest(pkg: &PackageInfo, target: &TargetInfo) -> (r: Result<Manifest, Error>)
    ensures
        match r {
            Result::Ok(m) => {
                &&& match pkg.config {
                    ConfigTable::Present { table } => m@ == spec_generated_manifest(
                        *pkg,
                        table.wapm,
                        *target,
                    ),
                    _ => false,
                }
                &&& match pkg.description {
                    Option::Some(d) => d@.len() > 0,
                    Option::None => false,
                }
            },
            Result::Err(e) => match e {
                Error::ConfigTableMissing => pkg.config is Absent,
                Error::ConfigTableInvalid { message } => match pkg.config {
                    ConfigTable::Malformed { message: m0 } => message@ == m0@,
                    _ => false,
                },
                Error::MissingDescription => pkg.config is Present && pkg.description is None,
                Error::EmptyDescription => pkg.config is Present && match pkg.description {
                    Option::Some(d) => d@.len() == 0,
                    Option::None => false,
                },
                _ => false,
            },
        },
{
    let w: &Wapm = match &pkg.config {
        ConfigTable::Absent => {
            return Result::Err(Error::ConfigTableMissing);
        },
        ConfigTable::Malformed { message } => {
            return Result::Err(Error::ConfigTableInvalid { message: message.clone() });
        },
        ConfigTable::Present { table } => &table.wapm,
    };
    let description: String = match &pkg.description {
        Option::None => {
            return Result::Err(Error::MissingDescription);
        },
        Option::Some(d) => {
            if d.as_str().unicode_len() == 0 {
                return Result::Err(Error::EmptyDescription);
            }
            d.clone()
        },
    };
    let with_slash = w.namespace.clone().concat("/");
    let package_name: String = match &w.package {
        Option::Some(p) => with_slash.concat(p.as_str()),
        Option::None => with_slash.concat(pkg.name.as_str()),
    };

    let source = wasm_binary_name(target).concat(".wasm");
    let module = Module {
        name: target.name.clone(),
        source,
        abi: w.abi,
        bindings: match &w.bindings {
            Option::Some(b) => Option::Some(
                Bindings { exports: b.exports.clone(), wit_bindgen: b.wit_bindgen.clone() },
            ),
            Option::None => Option::None,
        },
    };
    let mut modules: Vec<Module> = Vec::new();
    modules.push(module);

    let mut commands: Vec<Command> = Vec::new();
    if is_binary(target) {
        commands.push(
            Command {
                name: target.name.clone(),
                module: target.name.clone(),
                package: package_name.clone(),
            },
        );
    }

    let license_file: Option<String> = match &pkg.license_file {
        Option::Some(p) => p.file_name(),
        Option::None => Option::None,
    };
    let readme: Option<String> = match &pkg.readme {
        Option::Some(p) => p.file_name(),
        Option::None => Option::None,
    };

    let m = Manifest {
        package: Package {
            name: package_name,
            version: pkg.version.clone(),
            description,
            license: match &pkg.license {
                Option::Some(s) => Option::Some(s.clone()),
                Option::None => Option::None,
            },
            license_file,
            readme,
            repository: match &pkg.repository {
                Option::Some(s) => Option::Some(s.clone()),
                Option::None => Option::None,
            },
            homepage: match &pkg.homepage {
                Option::Some(s) => Option::Some(s.clone()),
                Option::None => Option::None,
            },
            wasmer_extra_flags: match &w.wasmer_extra_flags {
                Option::Some(s) => Option::Some(s.clone()),
                Option::None => Option::None,
            },
        },
        modules,
        commands,
        fs: crate::strutil::clone_pairs(&w.fs),
    };
    proof {
        match &pkg.config {
            ConfigTable::Present { table } => {
                assert(m@ =~~= spec_generated_manifest(*pkg, table.wapm, *target));
            },
            _ => {
                assert(false);
            },
        }
    }
    Result::Ok(m)
}

} // verus!
