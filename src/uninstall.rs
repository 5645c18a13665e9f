use vstd::prelude::*;

use crate::install::BUILD_FILE;
use crate::package::{Package, PackageType};
use crate::packages::GetPackage;
use crate::path::PkgPath;

verus! {

/// Why an uninstall was refused.
#[derive(Clone, Copy, Debug, PartialEq, Eq, Structural)]
pub enum UninstallError {
    /// No installed package has that name.
    PackageNotFound,
    /// The installed package has no manifest.
    ManifestNotFound,
    /// Bare executables are not tracked as a directory tree, so they cannot
    /// be removed.
    NotUninstallable,
}

/// One change that an uninstall makes.
pub enum UninstallStep {
    /// Reverse the external build-graph step, given its descriptor.
    ReverseBuild(PkgPath),
    /// Delete this directory tree.
    RemoveTree(PkgPath),
}

/// An uninstall step, as plain values.
pub enum UninstallModel {
    ReverseBuild(Seq<Seq<char>>),
    RemoveTree(Seq<Seq<char>>),
}

impl View for UninstallStep {
    type V = UninstallModel;

    open spec fn view(&self) -> UninstallModel {
        match self {
            UninstallStep::ReverseBuild(p) => UninstallModel::ReverseBuild(p@),
            UninstallStep::RemoveTree(p) => UninstallModel::RemoveTree(p@),
        }
    }
}

/// The steps that remove an installed package, given the lookup of its name
/// among the installed packages and its manifest: an archive's directory
/// is deleted; a build-graph package first has its build reversed, while
/// the descriptor is still there; a bare executable is refused, and
/// nothing is deleted.
pub fn uninstall(package: Option<GetPackage>, manifest: Option<Package>) -> (r: Result<
    Vec<UninstallStep>,
    UninstallError,
>)
    ensures
        package is None ==> r == Err::<Vec<UninstallStep>, UninstallError>(
            UninstallError::PackageNotFound,
        ),
        package is Some && manifest is None ==> r == Err::<Vec<UninstallStep>, UninstallError>(
            UninstallError::ManifestNotFound,
        ),
        package is Some && manifest is Some && manifest->0.install.type_ == PackageType::Executable
            ==> r == Err::<Vec<UninstallStep>, UninstallError>(UninstallError::NotUninstallable),
        package is Some && manifest is Some && manifest->0.install.type_ == PackageType::JellyFish
            ==> r is Ok && r->Ok_0@.map_values(|s: UninstallStep| s@) == seq![
            UninstallModel::RemoveTree(package->0.dir@),
        ],
        package is Some && manifest is Some && manifest->0.install.type_ == PackageType::Wharf
            ==> r is Ok && r->Ok_0@.map_values(|s: UninstallStep| s@) == seq![
            UninstallModel::ReverseBuild(package->0.dir@.push(BUILD_FILE@)),
            UninstallModel::RemoveTree(package->0.dir@),
        ],
{
    let package = match package {
        None => return Err(UninstallError::PackageNotFound),
        Some(p) => p,
    };
    let manifest = match manifest {
        None => return Err(UninstallError::ManifestNotFound),
        Some(m) => m,
    };
    let mut steps: Vec<UninstallStep> = Vec::new();
    match manifest.install.type_ {
        PackageType::Executable => {
            return Err(UninstallError::NotUninstallable);
        },
        PackageType::JellyFish => {},
        PackageType::Wharf => {
            steps.push(UninstallStep::ReverseBuild(package.dir.join(BUILD_FILE)));
        },
    }
    steps.push(UninstallStep::RemoveTree(package.dir));
    proof {
        if manifest.install.type_ == PackageType::Wharf {
            assert(steps@.map_values(|s: UninstallStep| s@) =~= seq![
                UninstallModel::ReverseBuild(package.dir@.push(BUILD_FILE@)),
                UninstallModel::RemoveTree(package.dir@),
            ]);
        } else {
            assert(steps@.map_values(|s: UninstallStep| s@) =~= seq![
                UninstallModel::RemoveTree(package.dir@),
            ]);
        }
    }
    Ok(steps)
}

} // verus!
