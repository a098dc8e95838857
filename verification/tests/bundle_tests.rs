use cargo_wasmer::bundle::{bundle_plan, CopyOp};
use cargo_wasmer::error::Error;
use cargo_wasmer::manifest::{Abi, Manifest, Module, Package};
use cargo_wasmer::metadata::{ConfigTable, PackageInfo};
use cargo_wasmer::paths::SegPath;

fn path(segments: &[&str]) -> SegPath {
    SegPath {
        segments: segments.iter().map(|s| s.to_string()).collect(),
    }
}

fn manifest() -> Manifest {
    Manifest {
        package: Package {
            name: "wasmer/hello".to_string(),
            version: "1.0.0".to_string(),
            description: "Greets".to_string(),
            license: None,
            license_file: Some("LICENSE".to_string()),
            readme: Some("README.md".to_string()),
            repository: None,
            homepage: None,
            wasmer_extra_flags: None,
        },
        modules: vec![Module {
            name: "hello".to_string(),
            source: "hello.wasm".to_string(),
            abi: Abi::Wasi,
            bindings: None,
        }],
        commands: vec![],
        fs: vec![],
    }
}

fn package() -> PackageInfo {
    PackageInfo {
        id: "id-hello".to_string(),
        name: "hello".to_string(),
        version: "1.0.0".to_string(),
        description: Some("Greets".to_string()),
        license: None,
        license_file: Some(path(&["legal", "LICENSE"])),
        readme: Some(path(&["README.md"])),
        repository: None,
        homepage: None,
        manifest_path: path(&["ws", "hello", "Cargo.toml"]),
        targets: vec![],
        config: ConfigTable::Absent,
    }
}

#[test]
fn bundle_contains_descriptor_artifact_and_hoisted_files() {
    let dest = path(&["ws", "target", "wasmer"]);
    let wasm = path(&["ws", "target", "wasm32-wasi", "release", "hello.wasm"]);
    let plan = bundle_plan(&dest, &manifest(), &wasm, &package(), &vec![]).unwrap();
    assert_eq!(plan.dest, dest);
    assert_eq!(
        plan.descriptor_path,
        path(&["ws", "target", "wasmer", "wasmer.toml"])
    );
    assert!(plan.descriptor_text.starts_with("[package]\n"));
    assert_eq!(
        plan.ops,
        vec![
            CopyOp {
                from: wasm.clone(),
                to: path(&["ws", "target", "wasmer", "hello.wasm"]),
            },
            CopyOp {
                from: path(&["ws", "hello", "legal", "LICENSE"]),
                to: path(&["ws", "target", "wasmer", "LICENSE"]),
            },
            CopyOp {
                from: path(&["ws", "hello", "README.md"]),
                to: path(&["ws", "target", "wasmer", "README.md"]),
            },
        ]
    );
}

#[test]
fn binding_files_keep_their_relative_location() {
    let dest = path(&["out"]);
    let wasm = path(&["ws", "target", "wasm32-wasi", "release", "hello.wasm"]);
    let refs = vec![
        path(&["ws", "hello", "api.wai"]),
        path(&["ws", "hello", "wai", "shared.wai"]),
        path(&["ws", "hello", "wai", "types.wai"]),
    ];
    let plan = bundle_plan(&dest, &manifest(), &wasm, &package(), &refs).unwrap();
    let binding_ops = &plan.ops[3..];
    assert_eq!(
        binding_ops,
        &[
            CopyOp {
                from: path(&["ws", "hello", "api.wai"]),
                to: path(&["out", "api.wai"]),
            },
            CopyOp {
                from: path(&["ws", "hello", "wai", "shared.wai"]),
                to: path(&["out", "wai", "shared.wai"]),
            },
            CopyOp {
                from: path(&["ws", "hello", "wai", "types.wai"]),
                to: path(&["out", "wai", "types.wai"]),
            },
        ]
    );
}

#[test]
fn escaping_binding_file_fails_with_no_plan() {
    let dest = path(&["out"]);
    let wasm = path(&["ws", "target", "wasm32-wasi", "release", "hello.wasm"]);
    let refs = vec![
        path(&["ws", "hello", "api.wai"]),
        path(&["ws", "other", "secret.wai"]),
    ];
    let got = bundle_plan(&dest, &manifest(), &wasm, &package(), &refs);
    assert_eq!(
        got,
        Err(Error::PathEscapesBaseDirectory {
            path: path(&["ws", "other", "secret.wai"]),
        })
    );
}

#[test]
fn unserializable_descriptor_fails_before_paths_are_considered() {
    let dest = path(&["out"]);
    let wasm = path(&["ws", "target", "wasm32-wasi", "release", "hello.wasm"]);
    let mut m = manifest();
    m.package.description = "bad\u{1}".to_string();
    let refs = vec![path(&["ws", "other", "secret.wai"])];
    let got = bundle_plan(&dest, &m, &wasm, &package(), &refs);
    assert_eq!(got, Err(Error::ManifestNotSerializable));
}
