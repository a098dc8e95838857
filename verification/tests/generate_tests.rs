use cargo_wasmer::error::Error;
use cargo_wasmer::generate::generate_manifest;
use cargo_wasmer::manifest::{Abi, Bindings};
use cargo_wasmer::metadata::{ConfigTable, MetadataTable, PackageInfo, TargetInfo, Wapm};
use cargo_wasmer::paths::SegPath;

fn path(segments: &[&str]) -> SegPath {
    SegPath {
        segments: segments.iter().map(|s| s.to_string()).collect(),
    }
}

fn wapm() -> Wapm {
    Wapm {
        namespace: "wasmer".to_string(),
        package: None,
        wasmer_extra_flags: Some("--registry dev".to_string()),
        abi: Abi::Wasi,
        fs: vec![("/data".to_string(), "assets".to_string())],
        bindings: Some(Bindings {
            exports: "api.wai".to_string(),
            wit_bindgen: "0.1.0".to_string(),
        }),
    }
}

fn package() -> PackageInfo {
    PackageInfo {
        id: "id-hello".to_string(),
        name: "hello".to_string(),
        version: "1.0.0".to_string(),
        description: Some("Greets the world".to_string()),
        license: Some("MIT".to_string()),
        license_file: Some(path(&["docs", "LICENSE.txt"])),
        readme: Some(path(&["README.md"])),
        repository: None,
        homepage: None,
        manifest_path: path(&["ws", "hello", "Cargo.toml"]),
        targets: vec![],
        config: ConfigTable::Present {
            table: MetadataTable { wapm: wapm() },
        },
    }
}

fn binary() -> TargetInfo {
    TargetInfo {
        name: "hello-cli".to_string(),
        kinds: vec!["bin".to_string()],
    }
}

#[test]
fn generates_full_descriptor_for_a_binary() {
    let pkg = package();
    let m = generate_manifest(&pkg, &binary()).unwrap();
    assert_eq!(m.package.name, "wasmer/hello");
    assert_eq!(m.package.version, "1.0.0");
    assert_eq!(m.package.description, "Greets the world");
    assert_eq!(m.package.license, Some("MIT".to_string()));
    assert_eq!(m.package.license_file, Some("LICENSE.txt".to_string()));
    assert_eq!(m.package.readme, Some("README.md".to_string()));
    assert_eq!(m.package.wasmer_extra_flags, Some("--registry dev".to_string()));
    assert_eq!(m.modules.len(), 1);
    assert_eq!(m.modules[0].name, "hello-cli");
    assert_eq!(m.modules[0].source, "hello-cli.wasm");
    assert_eq!(m.modules[0].abi, Abi::Wasi);
    assert_eq!(
        m.modules[0].bindings,
        Some(Bindings {
            exports: "api.wai".to_string(),
            wit_bindgen: "0.1.0".to_string(),
        })
    );
    assert_eq!(m.commands.len(), 1);
    assert_eq!(m.commands[0].name, "hello-cli");
    assert_eq!(m.commands[0].module, "hello-cli");
    assert_eq!(m.commands[0].package, "wasmer/hello");
    assert_eq!(m.fs, vec![("/data".to_string(), "assets".to_string())]);
}

#[test]
fn package_override_and_library_target() {
    let mut pkg = package();
    match &mut pkg.config {
        ConfigTable::Present { table } => table.wapm.package = Some("renamed".to_string()),
        _ => unreachable!(),
    }
    let lib = TargetInfo {
        name: "hello-lib".to_string(),
        kinds: vec!["cdylib".to_string()],
    };
    let m = generate_manifest(&pkg, &lib).unwrap();
    assert_eq!(m.package.name, "wasmer/renamed");
    assert_eq!(m.modules[0].source, "hello_lib.wasm");
    assert!(m.commands.is_empty());
}

#[test]
fn missing_description_fails_before_any_output_exists() {
    let mut pkg = package();
    pkg.description = None;
    assert_eq!(
        generate_manifest(&pkg, &binary()),
        Err(Error::MissingDescription)
    );
}

#[test]
fn empty_description_fails_before_any_output_exists() {
    let mut pkg = package();
    pkg.description = Some("".to_string());
    assert_eq!(
        generate_manifest(&pkg, &binary()),
        Err(Error::EmptyDescription)
    );
}

#[test]
fn absent_config_table_fails() {
    let mut pkg = package();
    pkg.config = ConfigTable::Absent;
    assert_eq!(
        generate_manifest(&pkg, &binary()),
        Err(Error::ConfigTableMissing)
    );
}

#[test]
fn malformed_config_table_keeps_the_readers_message() {
    let mut pkg = package();
    pkg.config = ConfigTable::Malformed {
        message: "missing field `namespace`".to_string(),
    };
    assert_eq!(
        generate_manifest(&pkg, &binary()),
        Err(Error::ConfigTableInvalid {
            message: "missing field `namespace`".to_string()
        })
    );
}
