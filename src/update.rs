use vstd::prelude::*;

use crate::package::Package;
use crate::packages::{lookup, GetPackage, LoadPackages};
use crate::path::{str_equals, PkgPath};

verus! {

/// The version directory that an index keeps for its newest release.
pub const LATEST: &'static str = "LATEST";

/// An installed package whose index has another version: the installed
/// directory and the index's `LATEST` directory.
pub struct Update {
    pub path_old: PkgPath,
    pub path_new: PkgPath,
}

/// Why update detection stopped.
#[derive(Clone, Copy, Debug, PartialEq, Eq, Structural)]
pub enum UpdateError {
    /// An installed package has no manifest.
    ManifestMissing,
    /// An installed package is not in the index.
    NotInIndex,
    /// The index has no `LATEST` version of an installed package.
    NoLatest,
    /// The index's `LATEST` version of an installed package has no manifest.
    LatestManifestMissing,
}

/// What the index's `LATEST` directory of a package held.
pub enum Latest {
    Missing,
    NoManifest,
    Found(Package),
}

/// One installed package, with its manifest and what its index `LATEST`
/// directory held.
pub struct Installed {
    pub package: GetPackage,
    pub manifest: Option<Package>,
    pub latest: Latest,
}

/// An update as plain values: installed directory, then index directory.
pub type UpdateModel = (Seq<Seq<char>>, Seq<Seq<char>>);

/// The outcome of checking one installed package against the index
/// `index`: an update when the versions differ as strings, none when they
/// are equal.
pub open spec fn check_one(c: Installed, index: Seq<Seq<Seq<char>>>) -> Result<
    Option<UpdateModel>,
    UpdateError,
> {
    match c.manifest {
        None => Err(UpdateError::ManifestMissing),
        Some(m) => match lookup(index, m.name@) {
            None => Err(UpdateError::NotInIndex),
            Some(dir) => match c.latest {
                Latest::Missing => Err(UpdateError::NoLatest),
                Latest::NoManifest => Err(UpdateError::LatestManifestMissing),
                Latest::Found(n) => if m.version@ != n.version@ {
                    Ok(Some((c.package.dir@, dir.push(LATEST@))))
                } else {
                    Ok(None)
                },
            },
        },
    }
}

/// The updates of all installed packages, in order, or the first error.
pub open spec fn updates_of(cs: Seq<Installed>, index: Seq<Seq<Seq<char>>>) -> Result<
    Seq<UpdateModel>,
    UpdateError,
>
    decreases cs.len(),
{
    if cs.len() == 0 {
        Ok(Seq::empty())
    } else {
        match updates_of(cs.drop_last(), index) {
            Err(e) => Err(e),
            Ok(us) => match check_one(cs.last(), index) {
                Err(e) => Err(e),
                Ok(None) => Ok(us),
                Ok(Some(u)) => Ok(us.push(u)),
            },
        }
    }
}

impl View for Update {
    type V = UpdateModel;

    open spec fn view(&self) -> UpdateModel {
        (self.path_old@, self.path_new@)
    }
}

/// A list of updates, or an error, as plain values.
pub open spec fn result_view(r: Result<Vec<Update>, UpdateError>) -> Result<
    Seq<UpdateModel>,
    UpdateError,
> {
    match r {
        Ok(v) => Ok(v@.map_values(|u: Update| u@)),
        Err(e) => Err(e),
    }
}

fn check_package(c: &Installed, index: &LoadPackages) -> (r: Result<Option<Update>, UpdateError>)
    ensures
        match r {
            Ok(Some(u)) => check_one(*c, index.view()) == Ok::<Option<UpdateModel>, UpdateError>(
                Some(u@),
            ),
            Ok(None) => check_one(*c, index.view()) == Ok::<Option<UpdateModel>, UpdateError>(
                None,
            ),
            Err(e) => check_one(*c, index.view()) == Err::<Option<UpdateModel>, UpdateError>(e),
        },
{
    match &c.manifest {
        None => Err(UpdateError::ManifestMissing),
        Some(m) => match index.get_package(m.name.as_str()) {
            None => Err(UpdateError::NotInIndex),
            Some(found) => match &c.latest {
                Latest::Missing => Err(UpdateError::NoLatest),
                Latest::NoManifest => Err(UpdateError::LatestManifestMissing),
                Latest::Found(n) => {
                    if !m.version.eq(&n.version) {
                        Ok(
                            Some(
                                Update {
                                    path_old: c.package.dir.copy(),
                                    path_new: found.version_path(LATEST),
                                },
                            ),
                        )
                    } else {
                        Ok(None)
                    }
                },
            },
        },
    }
}

/// Compares each installed package's version with its index `LATEST`
/// version, and lists those that differ; stops at the first installed
/// package that cannot be checked.
pub fn check_for_updates(installed: &Vec<Installed>, index: &LoadPackages) -> (r: Result<
    Vec<Update>,
    UpdateError,
>)
    ensures
        result_view(r) == updates_of(installed@, index.view()),
{
    let mut updates: Vec<Update> = Vec::new();
    let mut i: usize = 0;
    assert(installed@.take(0) =~= Seq::<Installed>::empty());
    assert(updates@.map_values(|u: Update| u@) =~= Seq::<UpdateModel>::empty());
    while i < installed.len()
        invariant
            i <= installed@.len(),
            updates_of(installed@.take(i as int), index.view()) == Ok::<
                Seq<UpdateModel>,
                UpdateError,
            >(updates@.map_values(|u: Update| u@)),
        decreases installed@.len() - i,
    {
        assert(installed@.take(i + 1).drop_last() =~= installed@.take(i as int));
        let ghost before = updates@.map_values(|u: Update| u@);
        match check_package(&installed[i], index) {
            Err(e) => {
                assert(updates_of(installed@.take(i + 1), index.view()) == Err::<
                    Seq<UpdateModel>,
                    UpdateError,
                >(e));
                proof {
                    lemma_error_stays(installed@, index.view(), i as int + 1, e);
                }
                assert(installed@.take(installed@.len() as int) =~= installed@);
                return Err(e);
            },
            Ok(None) => {},
            Ok(Some(u)) => {
                updates.push(u);
                assert(updates@.map_values(|u: Update| u@) =~= before.push(u@));
            },
        }
        i = i + 1;
    }
    assert(installed@.take(i as int) =~= installed@);
    Ok(updates)
}

proof fn lemma_error_stays(cs: Seq<Installed>, index: Seq<Seq<Seq<char>>>, k: int, e: UpdateError)
    requires
        0 <= k <= cs.len(),
        updates_of(cs.take(k), index) == Err::<Seq<UpdateModel>, UpdateError>(e),
    ensures
        updates_of(cs, index) == Err::<Seq<UpdateModel>, UpdateError>(e),
    decreases cs.len() - k,
{
    if k < cs.len() {
        assert(cs.take(k + 1).drop_last() =~= cs.take(k));
        lemma_error_stays(cs, index, k + 1, e);
    } else {
        assert(cs.take(k) =~= cs);
    }
}

/// Update detection on one installed package: when the installed and the
/// index `LATEST` versions differ, exactly one update comes out, from the
/// installed directory to the index's `LATEST` directory; when they are
/// equal, none does.
pub proof fn lemma_one_installed(c: Installed, index: Seq<Seq<Seq<char>>>)
    requires
        c.manifest is Some,
        lookup(index, c.manifest->0.name@) is Some,
        c.latest is Found,
    ensures
        c.manifest->0.version@ != c.latest->Found_0.version@ ==> updates_of(seq![c], index) == Ok::<
            Seq<UpdateModel>,
            UpdateError,
        >(seq![(c.package.dir@, lookup(index, c.manifest->0.name@)->0.push(LATEST@))]),
        c.manifest->0.version@ == c.latest->Found_0.version@ ==> updates_of(seq![c], index) == Ok::<
            Seq<UpdateModel>,
            UpdateError,
        >(Seq::empty()),
{
    let cs = seq![c];
    assert(cs.drop_last() =~= Seq::<Installed>::empty());
    assert(cs.last() == c);
    assert(updates_of(Seq::<Installed>::empty(), index) == Ok::<Seq<UpdateModel>, UpdateError>(
        Seq::empty(),
    ));
    assert(Seq::<UpdateModel>::empty().push(
        (c.package.dir@, lookup(index, c.manifest->0.name@)->0.push(LATEST@)),
    ) =~= seq![(c.package.dir@, lookup(index, c.manifest->0.name@)->0.push(LATEST@))]);
}

} // verus!
