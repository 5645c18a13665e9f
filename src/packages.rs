use vstd::prelude::*;

use crate::path::{str_equals, PkgPath};

verus! {

/// One entry of a directory listing, as the filesystem reported it.
pub struct Entry {
    pub name: String,
    pub is_dir: bool,
}

/// Whether a listed entry names a package: a directory whose name does not
/// start with `.`.
pub open spec fn is_package_dir(name: Seq<char>, is_dir: bool) -> bool {
    is_dir && !(name.len() > 0 && name[0] == '.')
}

/// The package directories of a listing of `root`, in listing order.
pub open spec fn package_dirs(root: Seq<Seq<char>>, entries: Seq<Entry>) -> Seq<Seq<Seq<char>>>
    decreases entries.len(),
{
    if entries.len() == 0 {
        Seq::empty()
    } else {
        let rest = package_dirs(root, entries.drop_last());
        let e = entries.last();
        if is_package_dir(e.name@, e.is_dir) {
            rest.push(root.push(e.name@))
        } else {
            rest
        }
    }
}

/// Whether the last component of `dir` is `name`.
pub open spec fn named(dir: Seq<Seq<char>>, name: Seq<char>) -> bool {
    dir.len() > 0 && dir.last() == name
}

/// The first directory in `dirs` whose last component is `name`.
pub open spec fn lookup(dirs: Seq<Seq<Seq<char>>>, name: Seq<char>) -> Option<Seq<Seq<char>>>
    decreases dirs.len(),
{
    if dirs.len() == 0 {
        None
    } else if named(dirs[0], name) {
        Some(dirs[0])
    } else {
        lookup(dirs.drop_first(), name)
    }
}

/// Whether the listing has a package directory called `name`.
pub open spec fn listed(entries: Seq<Entry>, name: Seq<char>) -> bool {
    exists|i: int| 0 <= i < entries.len() && #[trigger] entries[i].name@ == name && is_package_dir(
        name,
        entries[i].is_dir,
    )
}

proof fn lemma_package_dirs_shape(root: Seq<Seq<char>>, entries: Seq<Entry>, name: Seq<char>)
    ensures
        forall|i: int|
            0 <= i < package_dirs(root, entries).len() ==> #[trigger] package_dirs(root, entries)[i].drop_last()
                == root && package_dirs(root, entries)[i].len() == root.len() + 1,
        listed(entries, name) <==> exists|i: int|
            0 <= i < package_dirs(root, entries).len() && #[trigger] package_dirs(root, entries)[i]
                == root.push(name),
    decreases entries.len(),
{
    if entries.len() > 0 {
        let rest = entries.drop_last();
        let e = entries.last();
        let n = entries.len() - 1;
        lemma_package_dirs_shape(root, rest, name);
        let ds = package_dirs(root, rest);
        assert(root.push(e.name@).drop_last() =~= root);
        if listed(entries, name) {
            let i = choose|i: int|
                0 <= i < entries.len() && #[trigger] entries[i].name@ == name && is_package_dir(
                    name,
                    entries[i].is_dir,
                );
            if i < n {
                assert(rest[i] == entries[i]);
                assert(listed(rest, name));
                let j = choose|j: int| 0 <= j < ds.len() && #[trigger] ds[j] == root.push(name);
                assert(package_dirs(root, entries)[j] == root.push(name));
            } else {
                assert(package_dirs(root, entries)[ds.len() as int] == root.push(name));
            }
        }
        if exists|i: int|
            0 <= i < package_dirs(root, entries).len() && #[trigger] package_dirs(root, entries)[i]
                == root.push(name) {
            let i = choose|i: int|
                0 <= i < package_dirs(root, entries).len() && #[trigger] package_dirs(root, entries)[i]
                    == root.push(name);
            if i < ds.len() {
                assert(package_dirs(root, entries)[i] == ds[i]);
                let k = choose|k: int|
                    0 <= k < rest.len() && #[trigger] rest[k].name@ == name && is_package_dir(
                        name,
                        rest[k].is_dir,
                    );
                assert(entries[k] == rest[k]);
            } else {
                assert(root.push(e.name@)[root.len() as int] == e.name@);
                assert(root.push(name)[root.len() as int] == name);
                assert(entries[n].name@ == name);
            }
        }
    }
}

proof fn lemma_lookup_found(dirs: Seq<Seq<Seq<char>>>, name: Seq<char>)
    ensures
        lookup(dirs, name) is Some <==> exists|i: int| 0 <= i < dirs.len() && named(#[trigger] dirs[i], name),
        lookup(dirs, name) is Some ==> exists|i: int|
            0 <= i < dirs.len() && #[trigger] dirs[i] == lookup(dirs, name)->0 && named(dirs[i], name),
    decreases dirs.len(),
{
    if dirs.len() > 0 {
        let rest = dirs.drop_first();
        lemma_lookup_found(rest, name);
        if exists|i: int| 0 <= i < dirs.len() && named(#[trigger] dirs[i], name) {
            let i = choose|i: int| 0 <= i < dirs.len() && named(#[trigger] dirs[i], name);
            if i > 0 {
                assert(rest[i - 1] == dirs[i]);
            }
        }
        if lookup(dirs, name) is Some && !named(dirs[0], name) {
            let j = choose|j: int|
                0 <= j < rest.len() && #[trigger] rest[j] == lookup(rest, name)->0 && named(rest[j], name);
            assert(dirs[j + 1] == rest[j]);
        }
        if !named(dirs[0], name) {
            assert forall|i: int| 0 < i < dirs.len() && named(#[trigger] dirs[i], name) implies lookup(
                rest,
                name,
            ) is Some by {
                assert(rest[i - 1] == dirs[i]);
            }
        }
    }
}

/// Resolving by name in the eager view: a lookup of `name` in the view
/// loaded from a listing of `root` finds `root/name` exactly when the
/// listing has a package directory called `name`, and finds nothing
/// otherwise.
pub proof fn lemma_loaded_lookup(root: Seq<Seq<char>>, entries: Seq<Entry>, name: Seq<char>)
    ensures
        listed(entries, name) ==> lookup(package_dirs(root, entries), name) == Some(root.push(name)),
        !listed(entries, name) ==> lookup(package_dirs(root, entries), name) is None,
{
    let ds = package_dirs(root, entries);
    lemma_package_dirs_shape(root, entries, name);
    lemma_lookup_found(ds, name);
    if lookup(ds, name) is Some {
        let i = choose|i: int| 0 <= i < ds.len() && #[trigger] ds[i] == lookup(ds, name)->0 && named(ds[i], name);
        assert(ds[i].drop_last() == root);
        assert(ds[i] =~= root.push(name));
    }
    if listed(entries, name) {
        let i = choose|i: int| 0 <= i < ds.len() && #[trigger] ds[i] == root.push(name);
        assert(named(ds[i], name));
    }
}

/// The root of a package repository: `root/<name>/<version>/package.toml`.
pub struct GetPackages {
    pub dir: PkgPath,
}

impl GetPackages {
    /// A repository rooted at `dir`.
    pub fn new(dir: PkgPath) -> (r: GetPackages)
        ensures
            r.dir@ == dir@,
    {
        GetPackages { dir }
    }

    /// The lazy view: each lookup probes one path.
    pub fn lazy(self) -> (r: LazyPackages)
        ensures
            r.dir@ == self.dir@,
    {
        LazyPackages { dir: self.dir }
    }

    /// The eager view, built from one listing of the root: it keeps the
    /// directories that are not hidden, in listing order.
    pub fn load(self, listing: Vec<Entry>) -> (r: LoadPackages)
        ensures
            r.view() == package_dirs(self.dir@, listing@),
            r.index == 0,
    {
        LoadPackages::begin(&self.dir, &listing)
    }

    /// The git working copy that holds this repository.
    pub fn git(self) -> (r: crate::git::GitRepository)
        ensures
            r.path@ == self.dir@,
    {
        crate::git::GitRepository { path: self.dir }
    }
}

/// Lookups that probe `dir/<name>` on demand.
pub struct LazyPackages {
    pub dir: PkgPath,
}

impl LazyPackages {
    /// The reference that a lookup of `name` gives when its directory exists:
    /// this is the one path the lookup probes.
    pub fn locate(&self, name: &str) -> (r: GetPackage)
        ensures
            r.dir@ == self.dir@.push(name@),
    {
        GetPackage { dir: self.dir.join(name) }
    }

    /// Looks `name` up, given whether `dir/<name>` exists on disk.
    pub fn get_package(&self, name: &str, present: bool) -> (r: Option<GetPackage>)
        ensures
            present ==> r is Some && r->0.dir@ == self.dir@.push(name@),
            !present ==> r is None,
    {
        if present {
            Some(self.locate(name))
        } else {
            None
        }
    }
}

/// The package directories of a repository, read once, with a cursor for
/// walking them in order.
pub struct LoadPackages {
    pub packages: Vec<PkgPath>,
    pub index: usize,
}

impl View for LoadPackages {
    type V = Seq<Seq<Seq<char>>>;

    open spec fn view(&self) -> Seq<Seq<Seq<char>>> {
        self.packages@.map_values(|p: PkgPath| p@)
    }
}

impl LoadPackages {
    fn begin(dir: &PkgPath, listing: &Vec<Entry>) -> (r: LoadPackages)
        ensures
            r.view() == package_dirs(dir@, listing@),
            r.index == 0,
    {
        let mut packages: Vec<PkgPath> = Vec::new();
        let mut i: usize = 0;
        while i < listing.len()
            invariant
                i <= listing@.len(),
                packages@.map_values(|p: PkgPath| p@) == package_dirs(dir@, listing@.take(i as int)),
            decreases listing@.len() - i,
        {
            let e = &listing[i];
            assert(listing@.take(i + 1).drop_last() =~= listing@.take(i as int));
            let hidden = e.name.as_str().unicode_len() > 0 && e.name.as_str().get_char(0) == '.';
            if e.is_dir && !hidden {
                let p = dir.join(e.name.as_str());
                let ghost before = packages@;
                packages.push(p);
                assert(packages@.map_values(|p: PkgPath| p@) =~= before.map_values(
                    |p: PkgPath| p@,
                ).push(p@));
            }
            i = i + 1;
        }
        assert(listing@.take(i as int) =~= listing@);
        LoadPackages { packages, index: 0 }
    }

    /// The first package directory named `name`.
    pub fn get_package(&self, name: &str) -> (r: Option<GetPackage>)
        ensures
            lookup(self.view(), name@) is None ==> r is None,
            lookup(self.view(), name@) is Some ==> r is Some && r->0.dir@ == lookup(
                self.view(),
                name@,
            )->0,
    {
        let mut i: usize = 0;
        assert(self.view().skip(0) =~= self.view());
        while i < self.packages.len()
            invariant
                i <= self.packages@.len(),
                lookup(self.view(), name@) == lookup(self.view().skip(i as int), name@),
            decreases self.packages@.len() - i,
        {
            let p = &self.packages[i];
            assert(self.view().skip(i as int)[0] == p@);
            assert(self.view().skip(i as int).drop_first() =~= self.view().skip(i + 1));
            match p.file_name() {
                Some(last) => {
                    if str_equals(name, last) {
                        return Some(GetPackage { dir: p.copy() });
                    }
                },
                None => {},
            }
            i = i + 1;
        }
        None
    }

    /// The package directory under the cursor, moving the cursor on.
    pub fn next(&mut self) -> (r: Option<GetPackage>)
        ensures
            final(self).packages@ == old(self).packages@,
            old(self).index < old(self).packages@.len() ==> r is Some && r->0.dir@
                == old(self).view()[old(self).index as int] && final(self).index == old(self).index
                + 1,
            old(self).index >= old(self).packages@.len() ==> r is None && final(self).index == old(
                self,
            ).index,
    {
        if self.index < self.packages.len() {
            let out = GetPackage { dir: self.packages[self.index].copy() };
            self.index = self.index + 1;
            Some(out)
        } else {
            None
        }
    }
}

/// A cursor into a package directory, narrowed to a version by `version`.
pub struct GetPackage {
    pub dir: PkgPath,
}

/// The name of the manifest file in a version directory.
pub const MANIFEST_FILE: &'static str = "package.toml";

impl GetPackage {
    /// The path that `version(v, ..)` probes.
    pub fn version_path(&self, version: &str) -> (r: PkgPath)
        ensures
            r@ == self.dir@.push(version@),
    {
        self.dir.join(version)
    }

    /// Moves the cursor into the subdirectory `version`, given whether it
    /// exists on disk; leaves the cursor where it was when it does not.
    pub fn version(&mut self, version: &str, present: bool) -> (r: bool)
        ensures
            r == present,
            present ==> final(self).dir@ == old(self).dir@.push(version@),
            !present ==> final(self).dir@ == old(self).dir@,
    {
        if present {
            self.dir = self.dir.join(version);
        }
        present
    }

    /// The path of the manifest at the cursor.
    pub fn manifest_path(&self) -> (r: PkgPath)
        ensures
            r@ == self.dir@.push(MANIFEST_FILE@),
    {
        self.dir.join(MANIFEST_FILE)
    }
}

} // verus!
