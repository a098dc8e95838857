use cargo_wasmer::compiler::{cargo_build_args, interpret_compile_outcome, predicted_artifact_path, Features};
use cargo_wasmer::error::Error;
use cargo_wasmer::manifest::Abi;
use cargo_wasmer::metadata::{ConfigTable, PackageInfo, TargetInfo};
use cargo_wasmer::paths::SegPath;
use cargo_wasmer::publish::{interpret_publish_outcome, publish_args};
use cargo_wasmer::resolve::{determine_target, is_binary, is_webassembly_library, wasm_binary_name};

fn path(segments: &[&str]) -> SegPath {
    SegPath {
        segments: segments.iter().map(|s| s.to_string()).collect(),
    }
}

fn target(name: &str, kinds: &[&str]) -> TargetInfo {
    TargetInfo {
        name: name.to_string(),
        kinds: kinds.iter().map(|s| s.to_string()).collect(),
    }
}

fn package(name: &str, targets: Vec<TargetInfo>) -> PackageInfo {
    PackageInfo {
        id: format!("id-{}", name),
        name: name.to_string(),
        version: "0.1.0".to_string(),
        description: Some("a package".to_string()),
        license: None,
        license_file: None,
        readme: None,
        repository: None,
        homepage: None,
        manifest_path: path(&["ws", name, "Cargo.toml"]),
        targets,
        config: ConfigTable::Absent,
    }
}

#[test]
fn kind_tags() {
    let t = target("tool", &["bin"]);
    assert!(is_binary(&t));
    assert!(!is_webassembly_library(&t));
    let l = target("lib", &["lib", "cdylib"]);
    assert!(!is_binary(&l));
    assert!(is_webassembly_library(&l));
}

#[test]
fn binary_keeps_hyphens_library_does_not() {
    let b = target("my-tool", &["bin"]);
    assert_eq!(wasm_binary_name(&b), "my-tool");
    let l = target("my-lib", &["cdylib"]);
    assert_eq!(wasm_binary_name(&l), "my_lib");
}

#[test]
fn zero_eligible_targets_is_an_error() {
    let pkg = package("empty", vec![target("empty", &["lib"])]);
    let got = determine_target(&pkg);
    assert_eq!(
        got,
        Err(Error::NoPackageableTarget {
            package: "empty".to_string()
        })
    );
}

#[test]
fn two_eligible_targets_are_ambiguous() {
    let pkg = package(
        "both",
        vec![
            target("both", &["cdylib"]),
            target("both-cli", &["bin"]),
            target("docs", &["lib"]),
        ],
    );
    match determine_target(&pkg) {
        Err(Error::AmbiguousTarget {
            package,
            candidates,
        }) => {
            assert_eq!(package, "both");
            assert_eq!(candidates.len(), 2);
            assert_eq!(candidates[0].0, "both");
            assert_eq!(candidates[0].1, vec!["cdylib".to_string()]);
            assert_eq!(candidates[1].0, "both-cli");
            assert_eq!(candidates[1].1, vec!["bin".to_string()]);
        }
        other => panic!("expected an ambiguity error, got {:?}", other),
    }
}

#[test]
fn one_eligible_target_is_chosen() {
    let pkg = package(
        "one",
        vec![target("docs", &["lib"]), target("one", &["bin"])],
    );
    let got = determine_target(&pkg).unwrap();
    assert_eq!(got.name, "one");
}

#[test]
fn abi_target_triples() {
    assert_eq!(Abi::Wasi.target(), "wasm32-wasi");
    assert_eq!(Abi::Emscripten.target(), "wasm32-unknown-emscripten");
    assert_eq!(Abi::NoAbi.target(), "wasm32-unknown-unknown");
}

#[test]
fn build_args_release_default() {
    let f = Features {
        all_features: false,
        no_default_features: false,
        features: vec![],
    };
    let args = cargo_build_args(&"/ws/a/Cargo.toml".to_string(), Abi::Wasi, &f, false);
    assert_eq!(
        args,
        vec![
            "build",
            "--quiet",
            "--manifest-path",
            "/ws/a/Cargo.toml",
            "--target",
            "wasm32-wasi",
            "--release",
        ]
        .into_iter()
        .map(String::from)
        .collect::<Vec<_>>()
    );
}

#[test]
fn build_args_all_flags() {
    let f = Features {
        all_features: true,
        no_default_features: true,
        features: vec!["alpha".to_string(), "beta".to_string()],
    };
    let args = cargo_build_args(&"Cargo.toml".to_string(), Abi::NoAbi, &f, true);
    assert_eq!(
        args,
        vec![
            "build",
            "--quiet",
            "--manifest-path",
            "Cargo.toml",
            "--target",
            "wasm32-unknown-unknown",
            "--all-features",
            "--no-default-features",
            "--features=alpha,beta",
        ]
        .into_iter()
        .map(String::from)
        .collect::<Vec<_>>()
    );
}

#[test]
fn artifact_path_prediction() {
    let t = target("my-lib", &["cdylib"]);
    let p = predicted_artifact_path(&path(&["ws", "target"]), Abi::Wasi, false, &t);
    assert_eq!(
        p,
        path(&["ws", "target", "wasm32-wasi", "release", "my_lib.wasm"])
    );
    let d = predicted_artifact_path(&path(&["ws", "target"]), Abi::Wasi, true, &t);
    assert_eq!(
        d,
        path(&["ws", "target", "wasm32-wasi", "debug", "my_lib.wasm"])
    );
}

#[test]
fn compiler_outcome_zero_exit_without_artifact_is_missing() {
    let artifact = path(&["target", "wasm32-wasi", "release", "tool.wasm"]);
    let got = interpret_compile_outcome(Some(0), false, &artifact);
    assert_eq!(got, Err(Error::ArtifactMissing { path: artifact }));
}

#[test]
fn compiler_outcome_success() {
    let artifact = path(&["target", "wasm32-wasi", "release", "tool.wasm"]);
    assert_eq!(interpret_compile_outcome(Some(0), true, &artifact), Ok(()));
}

#[test]
fn compiler_outcome_failures() {
    let artifact = path(&["target", "x", "release", "tool.wasm"]);
    assert_eq!(
        interpret_compile_outcome(Some(101), true, &artifact),
        Err(Error::CompilerFailed {
            exit_code: Some(101)
        })
    );
    assert_eq!(
        interpret_compile_outcome(None, true, &artifact),
        Err(Error::CompilerFailed { exit_code: None })
    );
}

#[test]
fn publisher_args_and_outcome() {
    assert_eq!(publish_args(false), vec!["publish".to_string()]);
    assert_eq!(
        publish_args(true),
        vec!["publish".to_string(), "--dry-run".to_string()]
    );
    assert_eq!(interpret_publish_outcome(Some(0)), Ok(()));
    assert_eq!(
        interpret_publish_outcome(Some(2)),
        Err(Error::PublisherFailed { exit_code: Some(2) })
    );
}
