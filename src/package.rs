use vstd::prelude::*;

verus! {

/// How a package is installed.
#[derive(Clone, Copy, Debug, PartialEq, Eq, Structural)]
pub enum PackageType {
    /// A bare runnable file; never tracked as a directory tree.
    Executable,
    /// A gzip-compressed tar archive whose optional `bin/` entries are published.
    JellyFish,
    /// An archive that also runs an external build-graph step after install
    /// and before uninstall.
    Wharf,
}

/// Where a package comes from and how it is installed.
pub struct InstallInfo {
    pub url: String,
    pub type_: PackageType,
}

/// The manifest of one package version.
pub struct Package {
    pub name: String,
    pub friendly_name: String,
    pub version: String,
    pub install: InstallInfo,
}

/// The contents of a manifest, as plain values.
pub struct PackageModel {
    pub name: Seq<char>,
    pub friendly_name: Seq<char>,
    pub version: Seq<char>,
    pub url: Seq<char>,
    pub type_: PackageType,
}

impl View for Package {
    type V = PackageModel;

    open spec fn view(&self) -> PackageModel {
        PackageModel {
            name: self.name@,
            friendly_name: self.friendly_name@,
            version: self.version@,
            url: self.install.url@,
            type_: self.install.type_,
        }
    }
}

impl PartialEq for InstallInfo {
    fn eq(&self, other: &InstallInfo) -> (r: bool) {
        self.url.eq(&other.url) && self.type_ == other.type_
    }
}

impl vstd::std_specs::cmp::PartialEqSpecImpl for InstallInfo {
    open spec fn obeys_eq_spec() -> bool {
        true
    }

    open spec fn eq_spec(&self, other: &InstallInfo) -> bool {
        self.url@ == other.url@ && self.type_ == other.type_
    }
}

impl PartialEq for Package {
    fn eq(&self, other: &Package) -> (r: bool) {
        self.name.eq(&other.name) && self.friendly_name.eq(&other.friendly_name)
            && self.version.eq(&other.version) && self.install.eq(&other.install)
    }
}

impl vstd::std_specs::cmp::PartialEqSpecImpl for Package {
    open spec fn obeys_eq_spec() -> bool {
        true
    }

    open spec fn eq_spec(&self, other: &Package) -> bool {
        self@ == other@
    }
}

impl InstallInfo {
    /// A copy of this install information.
    pub fn copy(&self) -> (r: InstallInfo)
        ensures
            r.url@ == self.url@,
            r.type_ == self.type_,
    {
        InstallInfo { url: crate::path::copy_string(&self.url), type_: self.type_ }
    }
}

impl Package {
    /// A copy of this manifest.
    pub fn copy(&self) -> (r: Package)
        ensures
            r@ == self@,
    {
        Package {
            name: crate::path::copy_string(&self.name),
            friendly_name: crate::path::copy_string(&self.friendly_name),
            version: crate::path::copy_string(&self.version),
            install: self.install.copy(),
        }
    }
}

} // verus!
