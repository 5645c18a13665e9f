use voran::package::{InstallInfo, Package, PackageType};
use voran::packages::{Entry, GetPackage, GetPackages, LoadPackages};
use voran::path::PkgPath;
use voran::update::{check_for_updates, Installed, Latest, UpdateError};

fn path(parts: &[&str]) -> PkgPath {
    PkgPath::new(parts.iter().map(|p| p.to_string()).collect())
}

fn parts(p: &PkgPath) -> Vec<&str> {
    p.parts.iter().map(|s| s.as_str()).collect()
}

fn manifest(name: &str, version: &str) -> Package {
    Package {
        name: name.to_string(),
        friendly_name: name.to_uppercase(),
        version: version.to_string(),
        install: InstallInfo { url: "https://example.org/p.tar.gz".to_string(), type_: PackageType::JellyFish },
    }
}

fn index(names: &[&str]) -> LoadPackages {
    let listing = names.iter().map(|n| Entry { name: n.to_string(), is_dir: true }).collect();
    GetPackages::new(path(&["idx"])).load(listing)
}

fn installed(name: &str, version: &str, latest: Latest) -> Installed {
    Installed {
        package: GetPackage { dir: path(&["inst", name]) },
        manifest: Some(manifest(name, version)),
        latest,
    }
}

#[test]
fn newer_latest_gives_one_update() {
    let idx = index(&["tool"]);
    let checks = vec![installed("tool", "1.0.0", Latest::Found(manifest("tool", "1.1.0")))];
    let updates = check_for_updates(&checks, &idx).unwrap();
    assert_eq!(updates.len(), 1);
    assert_eq!(parts(&updates[0].path_old), vec!["inst", "tool"]);
    assert_eq!(parts(&updates[0].path_new), vec!["idx", "tool", "LATEST"]);
}

#[test]
fn equal_latest_gives_no_update() {
    let idx = index(&["tool"]);
    let checks = vec![installed("tool", "1.1.0", Latest::Found(manifest("tool", "1.1.0")))];
    assert!(check_for_updates(&checks, &idx).unwrap().is_empty());
}

#[test]
fn downgrade_counts_as_update() {
    let idx = index(&["tool"]);
    let checks = vec![installed("tool", "2.0.0", Latest::Found(manifest("tool", "1.0.0")))];
    assert_eq!(check_for_updates(&checks, &idx).unwrap().len(), 1);
}

#[test]
fn only_differing_packages_are_reported_in_order() {
    let idx = index(&["a", "b", "c"]);
    let checks = vec![
        installed("c", "1", Latest::Found(manifest("c", "2"))),
        installed("b", "1", Latest::Found(manifest("b", "1"))),
        installed("a", "1", Latest::Found(manifest("a", "3"))),
    ];
    let updates = check_for_updates(&checks, &idx).unwrap();
    assert_eq!(updates.len(), 2);
    assert_eq!(parts(&updates[0].path_new), vec!["idx", "c", "LATEST"]);
    assert_eq!(parts(&updates[1].path_new), vec!["idx", "a", "LATEST"]);
}

#[test]
fn no_installed_packages_gives_no_update() {
    let idx = index(&["a"]);
    assert!(check_for_updates(&vec![], &idx).unwrap().is_empty());
}

#[test]
fn each_error_is_reported() {
    let idx = index(&["tool"]);
    let missing_manifest = vec![Installed {
        package: GetPackage { dir: path(&["inst", "tool"]) },
        manifest: None,
        latest: Latest::Missing,
    }];
    assert_eq!(check_for_updates(&missing_manifest, &idx).err(), Some(UpdateError::ManifestMissing));
    let not_in_index = vec![installed("gone", "1", Latest::Found(manifest("gone", "2")))];
    assert_eq!(check_for_updates(&not_in_index, &idx).err(), Some(UpdateError::NotInIndex));
    let no_latest = vec![installed("tool", "1", Latest::Missing)];
    assert_eq!(check_for_updates(&no_latest, &idx).err(), Some(UpdateError::NoLatest));
    let no_manifest = vec![installed("tool", "1", Latest::NoManifest)];
    assert_eq!(check_for_updates(&no_manifest, &idx).err(), Some(UpdateError::LatestManifestMissing));
}

#[test]
fn first_error_stops_the_check() {
    let idx = index(&["tool"]);
    let checks = vec![
        installed("tool", "1", Latest::Found(manifest("tool", "2"))),
        installed("gone", "1", Latest::Found(manifest("gone", "2"))),
        installed("tool", "1", Latest::Missing),
    ];
    assert_eq!(check_for_updates(&checks, &idx).err(), Some(UpdateError::NotInIndex));
}
