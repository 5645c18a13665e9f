use voran::config::Config;
use voran::git::{parse_remotes, sync_remotes, GitStep};
use voran::listing::{list_mode, package_row, update_row, ListMode};
use voran::package::{InstallInfo, Package, PackageType};

fn config(pairs: &[(&str, &str)]) -> Config {
    Config { git_repo_urls: pairs.iter().map(|(n, u)| (n.to_string(), u.to_string())).collect() }
}

#[test]
fn remote_names_from_git_output() {
    let out = "origin\thttps://a/x (fetch)\norigin\thttps://a/x (push)\nmirror\thttps://b/y (fetch)\nmirror\thttps://b/y (push)\n";
    assert_eq!(parse_remotes(out), vec!["origin".to_string(), "mirror".to_string()]);
}

#[test]
fn remote_names_skip_blank_lines_and_trim() {
    assert!(parse_remotes("").is_empty());
    assert_eq!(parse_remotes("\n  up  x\r\n\nup y\ndown"), vec!["up".to_string(), "down".to_string()]);
}

#[test]
fn add_and_remove_remotes() {
    let mut c = Config::default();
    assert!(c.git_repo_urls.is_empty());
    assert!(!c.add_remote("main".to_string(), "https://m".to_string()));
    assert!(c.has_remote("main"));
    assert!(!c.has_remote("other"));
    assert!(c.add_remote("main".to_string(), "https://n".to_string()));
    assert_eq!(c.git_repo_urls.len(), 2);
    c.add_remote("other".to_string(), "https://o".to_string());
    let d = c.without_remote("main");
    assert_eq!(d.git_repo_urls, vec![("other".to_string(), "https://o".to_string())]);
}

#[test]
fn sync_removes_then_adds_and_pulls() {
    let existing = vec!["old".to_string()];
    let steps = sync_remotes(&existing, &config(&[("a", "https://a"), ("b", "https://b")]));
    assert_eq!(steps.len(), 5);
    assert!(matches!(&steps[0], GitStep::RemoveRemote(n) if n == "old"));
    assert!(matches!(&steps[1], GitStep::AddRemote(n, u) if n == "a" && u == "https://a"));
    assert!(matches!(&steps[2], GitStep::Pull(n) if n == "a"));
    assert!(matches!(&steps[3], GitStep::AddRemote(n, _) if n == "b"));
    assert!(matches!(&steps[4], GitStep::Pull(n) if n == "b"));
}

#[test]
fn list_mode_priorities() {
    assert_eq!(list_mode(true, true, true), ListMode::Upgradeable);
    assert_eq!(list_mode(true, true, false), ListMode::Local);
    assert_eq!(list_mode(true, false, false), ListMode::Remote);
    assert_eq!(list_mode(false, false, false), ListMode::Remote);
}

#[test]
fn table_rows() {
    let p = |v: &str| Package {
        name: "tool".to_string(),
        friendly_name: "Tool".to_string(),
        version: v.to_string(),
        install: InstallInfo { url: "u".to_string(), type_: PackageType::JellyFish },
    };
    let r = package_row(&p("1.0"));
    assert_eq!((r.name.as_str(), r.id.as_str(), r.version.as_str()), ("Tool", "tool", "1.0"));
    let u = update_row(&p("1.0"), &p("1.1"));
    assert_eq!(u.version, "1.0 -> 1.1");
}
