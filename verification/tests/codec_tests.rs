use cargo_wasmer::codec::{emit_manifest, parse_manifest};
use cargo_wasmer::error::Error;
use cargo_wasmer::manifest::{Abi, Bindings, Command, Manifest, Module, Package};

fn full_manifest() -> Manifest {
    Manifest {
        package: Package {
            name: "wasmer/hello".to_string(),
            version: "1.2.3".to_string(),
            description: "Say \"hello\"\nto the world\t(loudly)".to_string(),
            license: Some("MIT".to_string()),
            license_file: Some("LICENSE".to_string()),
            readme: Some("README.md".to_string()),
            repository: Some("https://example.com/repo".to_string()),
            homepage: Some("https://example.com".to_string()),
            wasmer_extra_flags: Some("--registry dev".to_string()),
        },
        modules: vec![
            Module {
                name: "hello".to_string(),
                source: "hello.wasm".to_string(),
                abi: Abi::Wasi,
                bindings: Some(Bindings {
                    exports: "hello.wai".to_string(),
                    wit_bindgen: "0.1.0".to_string(),
                }),
            },
            Module {
                name: "helper".to_string(),
                source: "helper.wasm".to_string(),
                abi: Abi::NoAbi,
                bindings: None,
            },
        ],
        commands: vec![Command {
            name: "hello".to_string(),
            module: "hello".to_string(),
            package: "wasmer/hello".to_string(),
        }],
        fs: vec![
            ("/data".to_string(), "assets/data".to_string()),
            ("/etc = odd \"key\"".to_string(), "etc".to_string()),
        ],
    }
}

fn minimal_manifest() -> Manifest {
    Manifest {
        package: Package {
            name: "ns/min".to_string(),
            version: "0.1.0".to_string(),
            description: "tiny".to_string(),
            license: None,
            license_file: None,
            readme: None,
            repository: None,
            homepage: None,
            wasmer_extra_flags: None,
        },
        modules: vec![Module {
            name: "min".to_string(),
            source: "min.wasm".to_string(),
            abi: Abi::Emscripten,
            bindings: None,
        }],
        commands: vec![],
        fs: vec![],
    }
}

#[test]
fn round_trip_full() {
    let m = full_manifest();
    let text = emit_manifest(&m).unwrap();
    let back = parse_manifest(&text).unwrap();
    assert_eq!(back, m);
}

#[test]
fn round_trip_minimal() {
    let m = minimal_manifest();
    let text = emit_manifest(&m).unwrap();
    let back = parse_manifest(&text).unwrap();
    assert_eq!(back, m);
}

#[test]
fn round_trip_each_optional_alone() {
    let base = minimal_manifest();
    for field in 0..6 {
        let mut m = base.clone();
        let v = Some("value".to_string());
        match field {
            0 => m.package.license = v,
            1 => m.package.license_file = v,
            2 => m.package.readme = v,
            3 => m.package.repository = v,
            4 => m.package.homepage = v,
            _ => m.package.wasmer_extra_flags = v,
        }
        let text = emit_manifest(&m).unwrap();
        let back = parse_manifest(&text).unwrap();
        assert_eq!(back, m);
    }
}

#[test]
fn minimal_text_is_exact() {
    let m = minimal_manifest();
    let text = emit_manifest(&m).unwrap();
    let expected = "[package]\n\
                    name = \"ns/min\"\n\
                    version = \"0.1.0\"\n\
                    description = \"tiny\"\n\
                    [[module]]\n\
                    name = \"min\"\n\
                    source = \"min.wasm\"\n\
                    abi = \"emscripten\"\n";
    assert_eq!(text, expected);
}

#[test]
fn emitted_text_is_valid_toml() {
    let m = full_manifest();
    let text = emit_manifest(&m).unwrap();
    let value: toml::Value = toml::from_str(&text).expect("the emitted descriptor must be TOML");
    let package = value.get("package").unwrap();
    assert_eq!(
        package.get("name").unwrap().as_str().unwrap(),
        "wasmer/hello"
    );
    assert_eq!(
        package.get("description").unwrap().as_str().unwrap(),
        "Say \"hello\"\nto the world\t(loudly)"
    );
    let modules = value.get("module").unwrap().as_array().unwrap();
    assert_eq!(modules.len(), 2);
    assert_eq!(modules[0].get("abi").unwrap().as_str().unwrap(), "wasi");
    let bindings = modules[0].get("bindings").unwrap();
    assert_eq!(
        bindings.get("exports").unwrap().as_str().unwrap(),
        "hello.wai"
    );
    let fs = value.get("fs").unwrap();
    assert_eq!(
        fs.get("/etc = odd \"key\"").unwrap().as_str().unwrap(),
        "etc"
    );
}

#[test]
fn control_character_is_rejected() {
    let mut m = minimal_manifest();
    m.package.description = "bad\u{1}byte".to_string();
    assert_eq!(emit_manifest(&m), Err(Error::ManifestNotSerializable));
}

#[test]
fn parse_rejects_garbage() {
    assert_eq!(parse_manifest(""), None);
    assert_eq!(parse_manifest("[package]\n"), None);
    assert_eq!(parse_manifest("not a descriptor"), None);
    let m = minimal_manifest();
    let text = emit_manifest(&m).unwrap();
    let truncated = &text[..text.len() - 2];
    assert_eq!(parse_manifest(truncated), None);
    let trailing = format!("{}garbage", text);
    assert_eq!(parse_manifest(&trailing), None);
}
