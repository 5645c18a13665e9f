use voran::install::{
    bin_dir, download_path, ensure_directory, install_actions, install_to, link_to, prepare_links,
    requested_version, BasicJellyFishInstaller, BinEntry, InstallAction, InstallError, InstallSteps,
    LinkStep, NodeKind,
};
use voran::package::{InstallInfo, Package, PackageType};
use voran::path::PkgPath;

fn path(parts: &[&str]) -> PkgPath {
    PkgPath::new(parts.iter().map(|p| p.to_string()).collect())
}

fn parts(p: &PkgPath) -> Vec<&str> {
    p.parts.iter().map(|s| s.as_str()).collect()
}

fn package(kind: PackageType) -> Package {
    Package {
        name: "tool".to_string(),
        friendly_name: "Tool".to_string(),
        version: "1.0.0".to_string(),
        install: InstallInfo { url: "https://example.org/tool".to_string(), type_: kind },
    }
}

fn bin_entry(name: &str, is_dir: bool, link_exists: bool) -> BinEntry {
    BinEntry { name: name.to_string(), is_dir, link_exists }
}

/// Applies link steps to a table of published links.
fn apply(table: &mut Vec<(Vec<String>, Vec<String>, bool)>, steps: &[LinkStep]) {
    for s in steps {
        match s {
            LinkStep::Remove(l) => table.retain(|e| e.0 != l.parts),
            LinkStep::Link { target, link, dir } => {
                table.retain(|e| e.0 != link.parts);
                table.push((link.parts.clone(), target.parts.clone(), *dir));
            }
        }
    }
    table.sort();
}

#[test]
fn output_directory_decisions() {
    assert_eq!(ensure_directory(NodeKind::Missing), Ok(true));
    assert_eq!(ensure_directory(NodeKind::Directory), Ok(false));
    assert_eq!(ensure_directory(NodeKind::File), Err(InstallError::NotADirectory));
}

#[test]
fn install_to_calls_right_functions() {
    assert_eq!(install_to(NodeKind::Missing, true), Ok(InstallSteps { create_out: true, publish: true }));
    assert_eq!(install_to(NodeKind::Directory, false), Ok(InstallSteps { create_out: false, publish: false }));
    assert_eq!(install_to(NodeKind::File, true), Err(InstallError::NotADirectory));
}

#[test]
fn publishing_needs_a_bin_directory() {
    assert_eq!(prepare_links(NodeKind::Missing, NodeKind::File), Ok(None));
    assert_eq!(prepare_links(NodeKind::Directory, NodeKind::Missing), Ok(Some(true)));
    assert_eq!(prepare_links(NodeKind::Directory, NodeKind::Directory), Ok(Some(false)));
    assert_eq!(prepare_links(NodeKind::Directory, NodeKind::File), Err(InstallError::NotADirectory));
    assert_eq!(prepare_links(NodeKind::File, NodeKind::Directory), Err(InstallError::NotADirectory));
}

#[test]
fn installer_keeps_its_archive() {
    let i = BasicJellyFishInstaller::new(path(&["cache", "tool.jellyfish"]));
    assert_eq!(parts(&i.input_file), vec!["cache", "tool.jellyfish"]);
}

#[test]
fn links_point_at_extracted_binaries() {
    let out = path(&["out"]);
    let bin = path(&["bin"]);
    assert_eq!(parts(&bin_dir(&out)), vec!["out", "bin"]);
    let entries = vec![bin_entry("tool", false, false), bin_entry("share", true, true)];
    let steps = link_to(&out, &bin, &entries);
    assert_eq!(steps.len(), 3);
    match &steps[0] {
        LinkStep::Link { target, link, dir } => {
            assert_eq!(parts(target), vec!["out", "bin", "tool"]);
            assert_eq!(parts(link), vec!["bin", "tool"]);
            assert!(!dir);
        }
        _ => panic!("expected a link"),
    }
    match &steps[1] {
        LinkStep::Remove(l) => assert_eq!(parts(l), vec!["bin", "share"]),
        _ => panic!("expected a removal"),
    }
    match &steps[2] {
        LinkStep::Link { target, link, dir } => {
            assert_eq!(parts(target), vec!["out", "bin", "share"]);
            assert_eq!(parts(link), vec!["bin", "share"]);
            assert!(dir);
        }
        _ => panic!("expected a link"),
    }
}

#[test]
fn no_binaries_no_steps() {
    assert!(link_to(&path(&["out"]), &path(&["bin"]), &vec![]).is_empty());
}

#[test]
fn publishing_twice_is_idempotent() {
    let out = path(&["out"]);
    let bin = path(&["bin"]);
    let mut table = vec![(
        vec!["bin".to_string(), "other".to_string()],
        vec!["elsewhere".to_string()],
        false,
    )];
    let first = vec![bin_entry("a", false, false), bin_entry("b", true, false)];
    apply(&mut table, &link_to(&out, &bin, &first));
    let once = table.clone();
    assert_eq!(once.len(), 3);
    let second = vec![bin_entry("a", false, true), bin_entry("b", true, true)];
    apply(&mut table, &link_to(&out, &bin, &second));
    assert_eq!(table, once);
}

#[test]
fn archive_install_actions() {
    let p = package(PackageType::JellyFish);
    let actions = install_actions(&p, &path(&["cache", "tool.jellyfish"]), &path(&["data", "packages"]), &path(&["data", "bin"]));
    assert_eq!(actions.len(), 2);
    match &actions[0] {
        InstallAction::Unpack { archive, out, bin } => {
            assert_eq!(parts(archive), vec!["cache", "tool.jellyfish"]);
            assert_eq!(parts(out), vec!["data", "packages", "tool"]);
            assert_eq!(parts(bin), vec!["data", "bin"]);
        }
        _ => panic!("expected an unpack"),
    }
    match &actions[1] {
        InstallAction::WriteManifest(m) => assert_eq!(parts(m), vec!["data", "packages", "tool", "package.toml"]),
        _ => panic!("expected the manifest"),
    }
}

#[test]
fn build_graph_install_runs_build_step() {
    let p = package(PackageType::Wharf);
    let actions = install_actions(&p, &path(&["c", "t"]), &path(&["d", "packages"]), &path(&["d", "bin"]));
    assert_eq!(actions.len(), 3);
    match &actions[2] {
        InstallAction::RunBuild(b) => assert_eq!(parts(b), vec!["d", "packages", "tool", "build.rope"]),
        _ => panic!("expected the build step"),
    }
}

#[test]
fn executable_install_runs_download() {
    let p = package(PackageType::Executable);
    let actions = install_actions(&p, &path(&["c", "t"]), &path(&["d", "packages"]), &path(&["d", "bin"]));
    assert_eq!(actions.len(), 1);
    match &actions[0] {
        InstallAction::Run(f) => assert_eq!(parts(f), vec!["c", "t"]),
        _ => panic!("expected a run"),
    }
}

#[test]
fn download_and_version_defaults() {
    assert_eq!(parts(&download_path(&path(&["cache"]), &"tool".to_string())), vec!["cache", "tool.jellyfish"]);
    assert_eq!(requested_version(None), "LATEST");
    assert_eq!(requested_version(Some("1.2.0".to_string())), "1.2.0");
}
