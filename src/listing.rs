use vstd::prelude::*;

use crate::package::Package;
use crate::path::copy_string;

verus! {

/// Which packages a listing shows.
#[derive(Clone, Copy, Debug, PartialEq, Eq, Structural)]
pub enum ListMode {
    /// Installed packages whose index has another version.
    Upgradeable,
    /// Installed packages.
    Local,
    /// The index's packages, at their `LATEST` version.
    Remote,
}

/// The listing asked for: upgradeable packages first, then local ones;
/// the index otherwise, also when nothing is asked for.
pub fn list_mode(remote: bool, local: bool, upgradeable: bool) -> (r: ListMode)
    ensures
        upgradeable ==> r == ListMode::Upgradeable,
        !upgradeable && local ==> r == ListMode::Local,
        !upgradeable && !local ==> r == ListMode::Remote,
{
    if upgradeable {
        ListMode::Upgradeable
    } else if local {
        ListMode::Local
    } else {
        ListMode::Remote
    }
}

/// One row of a package table: display name, identifier, version text.
pub struct Row {
    pub name: String,
    pub id: String,
    pub version: String,
}

/// The row of a package: its display name, name and version.
pub fn package_row(p: &Package) -> (r: Row)
    ensures
        r.name@ == p.friendly_name@,
        r.id@ == p.name@,
        r.version@ == p.version@,
{
    Row {
        name: copy_string(&p.friendly_name),
        id: copy_string(&p.name),
        version: copy_string(&p.version),
    }
}

/// The row of an available update: the installed package's display name
/// and name, and `old -> new` for the versions.
pub fn update_row(installed: &Package, latest: &Package) -> (r: Row)
    ensures
        r.name@ == installed.friendly_name@,
        r.id@ == installed.name@,
        r.version@ == installed.version@ + " -> "@ + latest.version@,
{
    let version = copy_string(&installed.version).concat(" -> ").concat(latest.version.as_str());
    Row { name: copy_string(&installed.friendly_name), id: copy_string(&installed.name), version }
}

} // verus!
