use vstd::prelude::*;

use crate::packages::GetPackages;
use crate::path::PkgPath;

verus! {

#[verifier::external_type_specification]
#[verifier::external_body]
pub struct ExProjectDirs(directories::ProjectDirs);

/// Relies on directories::ProjectDirs::from: the per-user directories of a
/// project, or nothing when no home directory can be found. They depend on the
/// environment, so nothing more is stated.
pub assume_specification[ directories::ProjectDirs::from ](
    qualifier: &str,
    organization: &str,
    application: &str,
) -> Option<directories::ProjectDirs>;

/// Relies on directories::ProjectDirs::data_dir: the project's data directory,
/// given one component per part.
#[verifier::external_body]
fn data_dir_of(dirs: &directories::ProjectDirs) -> PkgPath {
    PkgPath { parts: dirs.data_dir().iter().map(|c| c.to_string_lossy().into_owned()).collect() }
}

/// Relies on directories::ProjectDirs::data_local_dir: the project's local
/// data directory, given one component per part.
#[verifier::external_body]
fn data_local_dir_of(dirs: &directories::ProjectDirs) -> PkgPath {
    PkgPath {
        parts: dirs.data_local_dir().iter().map(|c| c.to_string_lossy().into_owned()).collect(),
    }
}

/// Relies on directories::ProjectDirs::cache_dir: the project's cache
/// directory, given one component per part.
#[verifier::external_body]
fn cache_dir_of(dirs: &directories::ProjectDirs) -> PkgPath {
    PkgPath { parts: dirs.cache_dir().iter().map(|c| c.to_string_lossy().into_owned()).collect() }
}

/// The per-user directories of this application, when the platform has them.
pub fn proj_dirs() -> Option<directories::ProjectDirs> {
    directories::ProjectDirs::from("", "", "Voran")
}

/// The directories that the package manager works in.
pub struct Layout {
    /// The local data directory: the checkout of the package index.
    pub index_root: PkgPath,
    /// The data directory, which holds `packages/` and `bin/`.
    pub data_dir: PkgPath,
    /// Where downloads are kept.
    pub cache_dir: PkgPath,
}

impl Layout {
    /// The layout that this user's directories give, when there are any.
    pub fn of_user() -> (r: Option<Layout>) {
        match proj_dirs() {
            Some(d) => Some(
                Layout {
                    index_root: data_local_dir_of(&d),
                    data_dir: data_dir_of(&d),
                    cache_dir: cache_dir_of(&d),
                },
            ),
            None => None,
        }
    }

    /// The root of the installed packages: `data/packages`.
    pub fn installed_root(&self) -> (r: PkgPath)
        ensures
            r@ == self.data_dir@.push("packages"@),
    {
        self.data_dir.join("packages")
    }

    /// The directory that installed binaries are published in: `data/bin`.
    pub fn bin_dir(&self) -> (r: PkgPath)
        ensures
            r@ == self.data_dir@.push("bin"@),
    {
        self.data_dir.join("bin")
    }

    /// The package index: the checkout in the local data directory.
    pub fn index(&self) -> (r: GetPackages)
        ensures
            r.dir@ == self.index_root@,
    {
        GetPackages::new(self.index_root.copy())
    }

    /// The installed packages: one directory per package, with no version level.
    pub fn installed(&self) -> (r: GetPackages)
        ensures
            r.dir@ == self.data_dir@.push("packages"@),
    {
        GetPackages::new(self.installed_root())
    }
}

/// The package index of this user, when the platform has a data directory.
pub fn get_packages() -> (r: Option<GetPackages>) {
    match Layout::of_user() {
        Some(l) => Some(l.index()),
        None => None,
    }
}

/// The installed packages of this user, when the platform has a data directory.
pub fn installed_packages() -> (r: Option<GetPackages>)
    ensures
        r is Some ==> r->0.dir@.len() > 0 && r->0.dir@.last() == "packages"@,
{
    match Layout::of_user() {
        Some(l) => Some(l.installed()),
        None => None,
    }
}

} // verus!
