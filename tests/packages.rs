use voran::package::{InstallInfo, Package, PackageType};
use voran::packages::{Entry, GetPackages};
use voran::path::PkgPath;

fn path(parts: &[&str]) -> PkgPath {
    PkgPath::new(parts.iter().map(|p| p.to_string()).collect())
}

fn parts(p: &PkgPath) -> Vec<&str> {
    p.parts.iter().map(|s| s.as_str()).collect()
}

fn entry(name: &str, is_dir: bool) -> Entry {
    Entry { name: name.to_string(), is_dir }
}

fn sample_manifest() -> Package {
    Package {
        name: "my-package".to_string(),
        friendly_name: "My Package".to_string(),
        version: "0.1.0".to_string(),
        install: InstallInfo {
            url: "https://google.com/index.html".to_string(),
            type_: PackageType::JellyFish,
        },
    }
}

#[test]
fn get_packages_works() {
    let get_packages = GetPackages::new(path(&["packages"]));
    let lazy = get_packages.lazy();
    let mut my_package = lazy
        .get_package("my-package", true)
        .expect("This package does exist");
    let other_package = lazy.get_package("other-package", false);
    if other_package.is_some() {
        panic!("This package should not exist");
    }
    assert_eq!(parts(&my_package.dir), vec!["packages", "my-package"]);
    assert_eq!(
        parts(&my_package.manifest_path()),
        vec!["packages", "my-package", "package.toml"]
    );
    assert!(my_package.version("0.1.0", true));
    assert_eq!(
        parts(&my_package.manifest_path()),
        vec!["packages", "my-package", "0.1.0", "package.toml"]
    );
    let res_package = sample_manifest();
    if res_package.copy() != res_package {
        panic!("Packages should be the same");
    }
}

#[test]
fn lazy_lookup_of_absent_name_is_empty() {
    let lazy = GetPackages::new(path(&["root"])).lazy();
    assert!(lazy.get_package("nothing-here", false).is_none());
    assert_eq!(parts(&lazy.dir), vec!["root"]);
    assert_eq!(parts(&lazy.locate("nothing-here").dir), vec!["root", "nothing-here"]);
}

#[test]
fn eager_view_keeps_visible_directories_in_order() {
    let listing = vec![
        entry(".git", true),
        entry("alpha", true),
        entry("README.md", false),
        entry("beta", true),
        entry(".hidden", false),
    ];
    let mut loaded = GetPackages::new(path(&["idx"])).load(listing);
    assert_eq!(loaded.packages.len(), 2);
    assert_eq!(parts(&loaded.packages[0]), vec!["idx", "alpha"]);
    assert_eq!(parts(&loaded.packages[1]), vec!["idx", "beta"]);
    let first = loaded.next().unwrap();
    assert_eq!(parts(&first.dir), vec!["idx", "alpha"]);
    let second = loaded.next().unwrap();
    assert_eq!(parts(&second.dir), vec!["idx", "beta"]);
    assert!(loaded.next().is_none());
    assert_eq!(loaded.index, 2);
}

#[test]
fn eager_lookup_finds_by_directory_name() {
    let listing = vec![entry("alpha", true), entry("beta", true)];
    let loaded = GetPackages::new(path(&["idx"])).load(listing);
    let found = loaded.get_package("beta").unwrap();
    assert_eq!(parts(&found.dir), vec!["idx", "beta"]);
    assert!(loaded.get_package("gamma").is_none());
    assert!(loaded.get_package("").is_none());
}

#[test]
fn eager_view_of_empty_listing_is_empty() {
    let mut loaded = GetPackages::new(path(&["idx"])).load(vec![]);
    assert!(loaded.get_package("alpha").is_none());
    assert!(loaded.next().is_none());
}

#[test]
fn version_navigation_keeps_cursor_when_absent() {
    let lazy = GetPackages::new(path(&["idx"])).lazy();
    let mut pkg = lazy.get_package("tool", true).unwrap();
    assert!(!pkg.version("9.9.9", false));
    assert_eq!(parts(&pkg.dir), vec!["idx", "tool"]);
    assert_eq!(parts(&pkg.version_path("LATEST")), vec!["idx", "tool", "LATEST"]);
    assert!(pkg.version("LATEST", true));
    assert_eq!(parts(&pkg.dir), vec!["idx", "tool", "LATEST"]);
}

#[test]
fn manifests_compare_by_every_field() {
    let a = sample_manifest();
    let mut b = sample_manifest();
    assert!(a == b);
    b.install.type_ = PackageType::Wharf;
    assert!(a != b);
    let mut c = sample_manifest();
    c.version = "0.2.0".to_string();
    assert!(a != c);
}

#[test]
fn path_join_and_compare() {
    let p = path(&["a", "b"]);
    let q = p.join("c");
    assert_eq!(parts(&q), vec!["a", "b", "c"]);
    assert_eq!(q.file_name().map(|s| s.as_str()), Some("c"));
    assert!(path(&[]).file_name().is_none());
    assert!(p.same_as(&path(&["a", "b"])));
    assert!(!p.same_as(&q));
    assert!(!p.same_as(&path(&["a", "x"])));
}
