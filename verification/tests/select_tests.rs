use cargo_wasmer::error::Error;
use cargo_wasmer::manifest::Abi;
use cargo_wasmer::metadata::{ConfigTable, MetadataTable, PackageInfo, Wapm, WorkspaceMeta};
use cargo_wasmer::paths::SegPath;
use cargo_wasmer::select::{determine_crates_to_publish, out_dir, Scope};

fn path(segments: &[&str]) -> SegPath {
    SegPath {
        segments: segments.iter().map(|s| s.to_string()).collect(),
    }
}

fn config() -> ConfigTable {
    ConfigTable::Present {
        table: MetadataTable {
            wapm: Wapm {
                namespace: "wasmer".to_string(),
                package: None,
                wasmer_extra_flags: None,
                abi: Abi::Wasi,
                fs: vec![],
                bindings: None,
            },
        },
    }
}

fn package(name: &str, manifest: &[&str], tagged: bool) -> PackageInfo {
    PackageInfo {
        id: format!("id-{}", name),
        name: name.to_string(),
        version: "0.1.0".to_string(),
        description: Some("a package".to_string()),
        license: None,
        license_file: None,
        readme: None,
        repository: None,
        homepage: None,
        manifest_path: path(manifest),
        targets: vec![],
        config: if tagged { config() } else { ConfigTable::Absent },
    }
}

fn workspace(packages: Vec<PackageInfo>, root: Option<&str>) -> WorkspaceMeta {
    let members = packages.iter().map(|p| p.id.clone()).collect();
    WorkspaceMeta {
        packages,
        workspace_members: members,
        target_directory: path(&["ws", "target"]),
        root_id: root.map(|r| format!("id-{}", r)),
    }
}

#[test]
fn deepest_enclosing_package_wins() {
    let meta = workspace(
        vec![
            package("a", &["ws", "a", "Cargo.toml"], true),
            package("nested", &["ws", "a", "nested", "Cargo.toml"], true),
        ],
        None,
    );
    let cwd = path(&["ws", "a", "nested", "src"]);
    let got = determine_crates_to_publish(&meta, &Scope::Single, &cwd).unwrap();
    assert_eq!(got.len(), 1);
    assert_eq!(meta.packages[got[0]].name, "nested");
}

#[test]
fn enclosing_package_found_from_its_own_directory() {
    let meta = workspace(vec![package("a", &["ws", "a", "Cargo.toml"], true)], None);
    let cwd = path(&["ws", "a"]);
    let got = determine_crates_to_publish(&meta, &Scope::Single, &cwd).unwrap();
    assert_eq!(meta.packages[got[0]].name, "a");
}

#[test]
fn falls_back_to_root_package() {
    let meta = workspace(
        vec![
            package("a", &["ws", "a", "Cargo.toml"], true),
            package("root", &["ws", "Cargo.toml"], true),
        ],
        Some("root"),
    );
    let cwd = path(&["elsewhere"]);
    let got = determine_crates_to_publish(&meta, &Scope::Single, &cwd).unwrap();
    assert_eq!(meta.packages[got[0]].name, "root");
}

#[test]
fn no_package_selected_is_an_error() {
    let meta = workspace(vec![package("a", &["ws", "a", "Cargo.toml"], true)], None);
    let cwd = path(&["elsewhere"]);
    let got = determine_crates_to_publish(&meta, &Scope::Single, &cwd);
    assert_eq!(got, Err(Error::NoPackageSelected));
}

#[test]
fn workspace_mode_takes_tagged_members_and_honours_excludes() {
    let meta = workspace(
        vec![
            package("a", &["ws", "a", "Cargo.toml"], true),
            package("untagged", &["ws", "u", "Cargo.toml"], false),
            package("skipped", &["ws", "s", "Cargo.toml"], true),
            package("b", &["ws", "b", "Cargo.toml"], true),
        ],
        None,
    );
    let scope = Scope::Workspace {
        exclude: vec!["skipped".to_string()],
    };
    let cwd = path(&["ws"]);
    let got = determine_crates_to_publish(&meta, &scope, &cwd).unwrap();
    let names: Vec<&str> = got.iter().map(|&i| meta.packages[i].name.as_str()).collect();
    assert_eq!(names, vec!["a", "b"]);
}

#[test]
fn workspace_mode_keeps_malformed_tables_for_later_diagnosis() {
    let mut bad = package("bad", &["ws", "bad", "Cargo.toml"], false);
    bad.config = ConfigTable::Malformed {
        message: "missing field namespace".to_string(),
    };
    let meta = workspace(vec![bad], None);
    let scope = Scope::Workspace { exclude: vec![] };
    let got = determine_crates_to_publish(&meta, &scope, &path(&["ws"])).unwrap();
    assert_eq!(got.len(), 1);
}

#[test]
fn out_dir_defaults_and_namespacing() {
    let target_dir = path(&["ws", "target"]);
    let name = "pkg".to_string();
    let single = out_dir(&None, &target_dir, &name, &Scope::Single);
    assert_eq!(single, path(&["ws", "target", "wasmer"]));
    let scope = Scope::Workspace { exclude: vec![] };
    let multi = out_dir(&None, &target_dir, &name, &scope);
    assert_eq!(multi, path(&["ws", "target", "wasmer", "pkg"]));
    let overridden = out_dir(&Some(path(&["out"])), &target_dir, &name, &Scope::Single);
    assert_eq!(overridden, path(&["out"]));
}
