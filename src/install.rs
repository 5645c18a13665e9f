use vstd::prelude::*;

use crate::package::{Package, PackageType};
use crate::path::PkgPath;

verus! {

/// What a path turned out to be on disk.
#[derive(Clone, Copy, Debug, PartialEq, Eq, Structural)]
pub enum NodeKind {
    Missing,
    Directory,
    File,
}

/// Why an install was refused.
#[derive(Clone, Copy, Debug, PartialEq, Eq, Structural)]
pub enum InstallError {
    /// A directory the install needs exists, but is not a directory.
    NotADirectory,
}

/// Installs packages from one downloaded archive.
pub struct BasicJellyFishInstaller {
    pub input_file: PkgPath,
}

impl BasicJellyFishInstaller {
    /// An installer for the archive at `input`.
    pub fn new(input: PkgPath) -> (r: BasicJellyFishInstaller)
        ensures
            r.input_file@ == input@,
    {
        BasicJellyFishInstaller { input_file: input }
    }
}

/// Decides what to do with a directory the install needs: `Ok(true)` to
/// create it, `Ok(false)` when it is already there.
pub fn ensure_directory(kind: NodeKind) -> (r: Result<bool, InstallError>)
    ensures
        kind == NodeKind::Missing ==> r == Ok::<bool, InstallError>(true),
        kind == NodeKind::Directory ==> r == Ok::<bool, InstallError>(false),
        kind == NodeKind::File ==> r == Err::<bool, InstallError>(InstallError::NotADirectory),
{
    match kind {
        NodeKind::Missing => Ok(true),
        NodeKind::Directory => Ok(false),
        NodeKind::File => Err(InstallError::NotADirectory),
    }
}

/// What an install does around extracting the archive.
#[derive(Clone, Copy, Debug, PartialEq, Eq, Structural)]
pub struct InstallSteps {
    /// Create the output directory first.
    pub create_out: bool,
    /// Publish the package's binaries afterwards.
    pub publish: bool,
}

/// Decides an install into an output directory of the given kind: the
/// directory is created when missing and refused when it is a file; the
/// binaries are published only when `link` is set.
pub fn install_to(out_kind: NodeKind, link: bool) -> (r: Result<InstallSteps, InstallError>)
    ensures
        out_kind == NodeKind::File ==> r == Err::<InstallSteps, InstallError>(
            InstallError::NotADirectory,
        ),
        out_kind != NodeKind::File ==> r == Ok::<InstallSteps, InstallError>(
            InstallSteps { create_out: out_kind == NodeKind::Missing, publish: link },
        ),
{
    match ensure_directory(out_kind) {
        Ok(create_out) => Ok(InstallSteps { create_out, publish: link }),
        Err(e) => Err(e),
    }
}

/// Decides whether binaries are published, given what the package's `bin/`
/// and the publish directory are: `Ok(None)` when the package has no `bin/`;
/// otherwise whether to create the publish directory first.
pub fn prepare_links(bin_kind: NodeKind, bin_path_kind: NodeKind) -> (r: Result<
    Option<bool>,
    InstallError,
>)
    ensures
        bin_kind == NodeKind::Missing ==> r == Ok::<Option<bool>, InstallError>(None),
        bin_kind == NodeKind::File ==> r == Err::<Option<bool>, InstallError>(
            InstallError::NotADirectory,
        ),
        bin_kind == NodeKind::Directory && bin_path_kind == NodeKind::File ==> r == Err::<
            Option<bool>,
            InstallError,
        >(InstallError::NotADirectory),
        bin_kind == NodeKind::Directory && bin_path_kind != NodeKind::File ==> r == Ok::<
            Option<bool>,
            InstallError,
        >(Some(bin_path_kind == NodeKind::Missing)),
{
    match bin_kind {
        NodeKind::Missing => Ok(None),
        NodeKind::File => Err(InstallError::NotADirectory),
        NodeKind::Directory => match ensure_directory(bin_path_kind) {
            Ok(create) => Ok(Some(create)),
            Err(e) => Err(e),
        },
    }
}

/// An entry of an extracted package's `bin/` directory, with whether a link
/// of the same name is already published.
pub struct BinEntry {
    pub name: String,
    pub is_dir: bool,
    pub link_exists: bool,
}

/// One filesystem change in publishing binaries.
pub enum LinkStep {
    /// Remove the published link at this path.
    Remove(PkgPath),
    /// Publish a link at `link` to `target`, a directory link when `dir`.
    Link { target: PkgPath, link: PkgPath, dir: bool },
}

/// A publishing step, as plain values.
pub enum LinkModel {
    Remove(Seq<Seq<char>>),
    Link(Seq<Seq<char>>, Seq<Seq<char>>, bool),
}

impl View for LinkStep {
    type V = LinkModel;

    open spec fn view(&self) -> LinkModel {
        match self {
            LinkStep::Remove(p) => LinkModel::Remove(p@),
            LinkStep::Link { target, link, dir } => LinkModel::Link(target@, link@, *dir),
        }
    }
}

/// The directory of a package's binaries: `out/bin`.
pub fn bin_dir(out: &PkgPath) -> (r: PkgPath)
    ensures
        r@ == out@.push("bin"@),
{
    out.join("bin")
}

/// The published links: link path to target and whether it is a directory link.
pub type LinkTable = Map<Seq<Seq<char>>, (Seq<Seq<char>>, bool)>;

/// The link that publishes `name`: `bin_path/name`.
pub open spec fn link_of(bin_path: Seq<Seq<char>>, name: Seq<char>) -> Seq<Seq<char>> {
    bin_path.push(name)
}

/// The target that the link of `name` points at: `out/bin/name`.
pub open spec fn target_of(out: Seq<Seq<char>>, name: Seq<char>) -> Seq<Seq<char>> {
    out.push("bin"@).push(name)
}

/// The steps that publish one entry: remove a link of the same name, if
/// there is one, then link.
pub open spec fn entry_steps(out: Seq<Seq<char>>, bin_path: Seq<Seq<char>>, e: BinEntry) -> Seq<
    LinkModel,
> {
    let link = LinkModel::Link(target_of(out, e.name@), link_of(bin_path, e.name@), e.is_dir);
    if e.link_exists {
        seq![LinkModel::Remove(link_of(bin_path, e.name@)), link]
    } else {
        seq![link]
    }
}

/// The steps that publish all entries, in order.
pub open spec fn link_steps(out: Seq<Seq<char>>, bin_path: Seq<Seq<char>>, entries: Seq<BinEntry>) -> Seq<
    LinkModel,
>
    decreases entries.len(),
{
    if entries.len() == 0 {
        Seq::empty()
    } else {
        link_steps(out, bin_path, entries.drop_last()) + entry_steps(out, bin_path, entries.last())
    }
}

/// Plans the publishing of an extracted package's binaries into `bin_path`.
pub fn link_to(out: &PkgPath, bin_path: &PkgPath, entries: &Vec<BinEntry>) -> (r: Vec<LinkStep>)
    ensures
        r@.map_values(|s: LinkStep| s@) == link_steps(out@, bin_path@, entries@),
{
    let bin = bin_dir(out);
    let mut steps: Vec<LinkStep> = Vec::new();
    let mut i: usize = 0;
    while i < entries.len()
        invariant
            i <= entries@.len(),
            bin@ == out@.push("bin"@),
            steps@.map_values(|s: LinkStep| s@) == link_steps(out@, bin_path@, entries@.take(i as int)),
        decreases entries@.len() - i,
    {
        let e = &entries[i];
        assert(entries@.take(i + 1).drop_last() =~= entries@.take(i as int));
        let ghost before = steps@.map_values(|s: LinkStep| s@);
        if e.link_exists {
            steps.push(LinkStep::Remove(bin_path.join(e.name.as_str())));
        }
        steps.push(
            LinkStep::Link {
                target: bin.join(e.name.as_str()),
                link: bin_path.join(e.name.as_str()),
                dir: e.is_dir,
            },
        );
        assert(steps@.map_values(|s: LinkStep| s@) =~= before + entry_steps(
            out@,
            bin_path@,
            entries@[i as int],
        ));
        i = i + 1;
    }
    assert(entries@.take(i as int) =~= entries@);
    steps
}

/// The links after one step.
pub open spec fn apply_step(t: LinkTable, s: LinkModel) -> LinkTable {
    match s {
        LinkModel::Remove(l) => t.remove(l),
        LinkModel::Link(target, l, dir) => t.insert(l, (target, dir)),
    }
}

/// The links after a sequence of steps.
pub open spec fn apply_steps(t: LinkTable, steps: Seq<LinkModel>) -> LinkTable
    decreases steps.len(),
{
    if steps.len() == 0 {
        t
    } else {
        apply_step(apply_steps(t, steps.drop_last()), steps.last())
    }
}

/// The links once every entry is published: each entry's link points at its
/// target, a later entry of the same name winning; other links are kept.
pub open spec fn published(
    t: LinkTable,
    out: Seq<Seq<char>>,
    bin_path: Seq<Seq<char>>,
    entries: Seq<BinEntry>,
) -> LinkTable
    decreases entries.len(),
{
    if entries.len() == 0 {
        t
    } else {
        let e = entries.last();
        published(t, out, bin_path, entries.drop_last()).insert(
            link_of(bin_path, e.name@),
            (target_of(out, e.name@), e.is_dir),
        )
    }
}

/// Two listings of the same `bin/` entries, which may differ in which links
/// were found published.
pub open spec fn same_entries(a: Seq<BinEntry>, b: Seq<BinEntry>) -> bool {
    &&& a.len() == b.len()
    &&& forall|i: int| 0 <= i < a.len() ==> a[i].name@ == b[i].name@ && a[i].is_dir == b[i].is_dir
}

proof fn lemma_apply_concat(t: LinkTable, a: Seq<LinkModel>, b: Seq<LinkModel>)
    ensures
        apply_steps(t, a + b) == apply_steps(apply_steps(t, a), b),
    decreases b.len(),
{
    if b.len() == 0 {
        assert(a + b =~= a);
    } else {
        assert((a + b).drop_last() =~= a + b.drop_last());
        lemma_apply_concat(t, a, b.drop_last());
    }
}

proof fn lemma_steps_publish(
    t: LinkTable,
    out: Seq<Seq<char>>,
    bin_path: Seq<Seq<char>>,
    entries: Seq<BinEntry>,
)
    ensures
        apply_steps(t, link_steps(out, bin_path, entries)) == published(t, out, bin_path, entries),
    decreases entries.len(),
{
    if entries.len() > 0 {
        let rest = entries.drop_last();
        let e = entries.last();
        lemma_steps_publish(t, out, bin_path, rest);
        let before = link_steps(out, bin_path, rest);
        let es = entry_steps(out, bin_path, e);
        lemma_apply_concat(t, before, es);
        let mid = apply_steps(t, before);
        let l = link_of(bin_path, e.name@);
        let v = (target_of(out, e.name@), e.is_dir);
        let lk = LinkModel::Link(target_of(out, e.name@), l, e.is_dir);
        let empty = Seq::<LinkModel>::empty();
        assert(apply_steps(mid, empty) == mid);
        if e.link_exists {
            let r = seq![LinkModel::Remove(l)];
            assert(r.drop_last() =~= empty);
            assert(apply_steps(mid, r) == mid.remove(l));
            assert(es.drop_last() =~= r);
            assert(apply_steps(mid, es) == mid.remove(l).insert(l, v));
            assert(mid.remove(l).insert(l, v) =~= mid.insert(l, v));
        } else {
            assert(es.drop_last() =~= empty);
            assert(apply_steps(mid, es) == mid.insert(l, v));
        }
    }
}

proof fn lemma_published_same_entries(
    t: LinkTable,
    out: Seq<Seq<char>>,
    bin_path: Seq<Seq<char>>,
    a: Seq<BinEntry>,
    b: Seq<BinEntry>,
)
    requires
        same_entries(a, b),
    ensures
        published(t, out, bin_path, a) == published(t, out, bin_path, b),
    decreases a.len(),
{
    if a.len() > 0 {
        lemma_published_same_entries(t, out, bin_path, a.drop_last(), b.drop_last());
    }
}

proof fn lemma_published_overrides(
    t: LinkTable,
    out: Seq<Seq<char>>,
    bin_path: Seq<Seq<char>>,
    entries: Seq<BinEntry>,
    k: Seq<Seq<char>>,
    v: (Seq<Seq<char>>, bool),
)
    ensures
        published(t.insert(k, v), out, bin_path, entries).insert(k, v) == published(
            t,
            out,
            bin_path,
            entries,
        ).insert(k, v),
    decreases entries.len(),
{
    if entries.len() == 0 {
        assert(t.insert(k, v).insert(k, v) =~= t.insert(k, v));
    } else {
        let rest = entries.drop_last();
        let e = entries.last();
        let ke = link_of(bin_path, e.name@);
        let ve = (target_of(out, e.name@), e.is_dir);
        lemma_published_overrides(t, out, bin_path, rest, k, v);
        let seeded = published(t.insert(k, v), out, bin_path, rest);
        let plain = published(t, out, bin_path, rest);
        if ke == k {
            assert(seeded.insert(ke, ve).insert(k, v) =~= seeded.insert(k, v));
            assert(plain.insert(ke, ve).insert(k, v) =~= plain.insert(k, v));
        } else {
            assert(seeded.insert(ke, ve).insert(k, v) =~= seeded.insert(k, v).insert(ke, ve));
            assert(plain.insert(ke, ve).insert(k, v) =~= plain.insert(k, v).insert(ke, ve));
        }
    }
}

proof fn lemma_published_twice(
    t: LinkTable,
    out: Seq<Seq<char>>,
    bin_path: Seq<Seq<char>>,
    entries: Seq<BinEntry>,
)
    ensures
        published(published(t, out, bin_path, entries), out, bin_path, entries) == published(
            t,
            out,
            bin_path,
            entries,
        ),
    decreases entries.len(),
{
    if entries.len() > 0 {
        let rest = entries.drop_last();
        let e = entries.last();
        let k = link_of(bin_path, e.name@);
        let v = (target_of(out, e.name@), e.is_dir);
        let once = published(t, out, bin_path, rest);
        lemma_published_overrides(once, out, bin_path, rest, k, v);
        lemma_published_twice(t, out, bin_path, rest);
    }
}

/// Publishing is idempotent: publishing the same `bin/` entries a second
/// time, whatever links that second listing finds, leaves the links as the
/// first time left them; and the first time leaves exactly the previous
/// links with each entry's link set to its target.
pub proof fn lemma_link_to_idempotent(
    t: LinkTable,
    out: Seq<Seq<char>>,
    bin_path: Seq<Seq<char>>,
    first: Seq<BinEntry>,
    second: Seq<BinEntry>,
)
    requires
        same_entries(first, second),
    ensures
        apply_steps(t, link_steps(out, bin_path, first)) == published(t, out, bin_path, first),
        apply_steps(
            apply_steps(t, link_steps(out, bin_path, first)),
            link_steps(out, bin_path, second),
        ) == apply_steps(t, link_steps(out, bin_path, first)),
{
    let once = published(t, out, bin_path, first);
    lemma_steps_publish(t, out, bin_path, first);
    lemma_steps_publish(once, out, bin_path, second);
    lemma_published_same_entries(once, out, bin_path, second, first);
    lemma_published_twice(t, out, bin_path, first);
}

/// Whether no two entries share a name, as in one directory listing.
pub open spec fn distinct_names(entries: Seq<BinEntry>) -> bool {
    forall|i: int, j: int|
        0 <= i < entries.len() && 0 <= j < entries.len() && i != j ==> entries[i].name@
            != entries[j].name@
}

/// After publishing the entries of one listing, each entry's link points at
/// that entry's target, and every other path keeps what it had.
pub proof fn lemma_published_links(
    t: LinkTable,
    out: Seq<Seq<char>>,
    bin_path: Seq<Seq<char>>,
    entries: Seq<BinEntry>,
)
    requires
        distinct_names(entries),
    ensures
        forall|i: int|
            0 <= i < entries.len() ==> #[trigger] published(t, out, bin_path, entries).contains_key(
                link_of(bin_path, entries[i].name@),
            ) && published(t, out, bin_path, entries)[link_of(bin_path, entries[i].name@)] == (
                target_of(out, entries[i].name@),
                entries[i].is_dir,
            ),
        forall|k: Seq<Seq<char>>|
            (forall|i: int| 0 <= i < entries.len() ==> k != link_of(bin_path, entries[i].name@))
                ==> (#[trigger] published(t, out, bin_path, entries).contains_key(k)
                == t.contains_key(k) && (t.contains_key(k) ==> published(
                t,
                out,
                bin_path,
                entries,
            )[k] == t[k])),
    decreases entries.len(),
{
    if entries.len() > 0 {
        let rest = entries.drop_last();
        let n = entries.len() - 1;
        assert(distinct_names(rest));
        lemma_published_links(t, out, bin_path, rest);
        let e = entries.last();
        let p = published(t, out, bin_path, rest);
        let k = link_of(bin_path, e.name@);
        assert forall|i: int| 0 <= i < entries.len() implies #[trigger] published(
            t,
            out,
            bin_path,
            entries,
        ).contains_key(link_of(bin_path, entries[i].name@)) && published(
            t,
            out,
            bin_path,
            entries,
        )[link_of(bin_path, entries[i].name@)] == (
            target_of(out, entries[i].name@),
            entries[i].is_dir,
        ) by {
            if i < n {
                assert(rest[i] == entries[i]);
                assert(entries[i].name@ != entries[n].name@);
                assert(link_of(bin_path, entries[i].name@)[bin_path.len() as int]
                    == entries[i].name@);
                assert(link_of(bin_path, entries[i].name@) != k);
            }
        }
        assert forall|k2: Seq<Seq<char>>|
            (forall|i: int| 0 <= i < entries.len() ==> k2 != link_of(bin_path, entries[i].name@))
                implies (#[trigger] published(t, out, bin_path, entries).contains_key(k2)
            == t.contains_key(k2) && (t.contains_key(k2) ==> published(
            t,
            out,
            bin_path,
            entries,
        )[k2] == t[k2])) by {
            assert(k2 != link_of(bin_path, entries[n].name@));
            assert forall|i: int| 0 <= i < rest.len() implies k2 != link_of(
                bin_path,
                rest[i].name@,
            ) by {
                assert(rest[i] == entries[i]);
            }
        }
    }
}

/// What installing a downloaded package does, in order.
pub enum InstallAction {
    /// Run the downloaded file itself.
    Run(PkgPath),
    /// Unpack the archive into `out` and publish its binaries into `bin`.
    Unpack { archive: PkgPath, out: PkgPath, bin: PkgPath },
    /// Write the resolved manifest to this path, as the record of what was installed.
    WriteManifest(PkgPath),
    /// Run the external build-graph step on this descriptor.
    RunBuild(PkgPath),
}

/// An install action, as plain values.
pub enum InstallModel {
    Run(Seq<Seq<char>>),
    Unpack(Seq<Seq<char>>, Seq<Seq<char>>, Seq<Seq<char>>),
    WriteManifest(Seq<Seq<char>>),
    RunBuild(Seq<Seq<char>>),
}

impl View for InstallAction {
    type V = InstallModel;

    open spec fn view(&self) -> InstallModel {
        match self {
            InstallAction::Run(p) => InstallModel::Run(p@),
            InstallAction::Unpack { archive, out, bin } => InstallModel::Unpack(
                archive@,
                out@,
                bin@,
            ),
            InstallAction::WriteManifest(p) => InstallModel::WriteManifest(p@),
            InstallAction::RunBuild(p) => InstallModel::RunBuild(p@),
        }
    }
}

/// The name of the build descriptor that the build-graph step reads.
pub const BUILD_FILE: &'static str = "build.rope";

/// What installing `package` does, once its file is downloaded to
/// `download`: a bare executable is run; an archive is unpacked into
/// `installed_root/<name>` with its binaries published in `bin`, and the
/// manifest is written beside it; a build-graph package then has its build
/// step run.
pub open spec fn install_plan(
    package: crate::package::PackageModel,
    download: Seq<Seq<char>>,
    installed_root: Seq<Seq<char>>,
    bin: Seq<Seq<char>>,
) -> Seq<InstallModel> {
    let out = installed_root.push(package.name);
    let unpack = seq![
        InstallModel::Unpack(download, out, bin),
        InstallModel::WriteManifest(out.push(crate::packages::MANIFEST_FILE@)),
    ];
    match package.type_ {
        PackageType::Executable => seq![InstallModel::Run(download)],
        PackageType::JellyFish => unpack,
        PackageType::Wharf => unpack.push(InstallModel::RunBuild(out.push(BUILD_FILE@))),
    }
}

/// The actions that install `package` from its downloaded file.
pub fn install_actions(
    package: &Package,
    download: &PkgPath,
    installed_root: &PkgPath,
    bin: &PkgPath,
) -> (r: Vec<InstallAction>)
    ensures
        r@.map_values(|a: InstallAction| a@) == install_plan(
            package@,
            download@,
            installed_root@,
            bin@,
        ),
{
    let mut r: Vec<InstallAction> = Vec::new();
    match package.install.type_ {
        PackageType::Executable => {
            r.push(InstallAction::Run(download.copy()));
        },
        _ => {
            let out = installed_root.join(package.name.as_str());
            r.push(InstallAction::Unpack { archive: download.copy(), out: out.copy(), bin: bin.copy() });
            r.push(InstallAction::WriteManifest(out.join(crate::packages::MANIFEST_FILE)));
            if package.install.type_ == PackageType::Wharf {
                r.push(InstallAction::RunBuild(out.join(BUILD_FILE)));
            }
        },
    }
    assert(r@.map_values(|a: InstallAction| a@) =~= install_plan(
        package@,
        download@,
        installed_root@,
        bin@,
    ));
    r
}

/// Where a package's download is kept: `cache/<name>.jellyfish`.
pub fn download_path(cache_dir: &PkgPath, name: &String) -> (r: PkgPath)
    ensures
        r@ == cache_dir@.push(name@ + ".jellyfish"@),
{
    let file = crate::path::copy_string(name).concat(".jellyfish");
    cache_dir.join(file.as_str())
}

/// The version to install: the one asked for, or `LATEST`.
pub fn requested_version(version: Option<String>) -> (r: String)
    ensures
        version is Some ==> r@ == version->0@,
        version is None ==> r@ == crate::update::LATEST@,
{
    match version {
        Some(v) => v,
        None => crate::update::LATEST.to_owned(),
    }
}

} // verus!
