use vstd::prelude::*;

use crate::path::{copy_string, str_equals};

verus! {

/// The configured remotes of the package index, as `(name, url)` pairs.
pub struct Config {
    pub git_repo_urls: Vec<(String, String)>,
}

/// A remote as plain values.
pub type RemoteModel = (Seq<char>, Seq<char>);

/// The remotes of `rs` whose name is not `name`, in order.
pub open spec fn remotes_without(rs: Seq<RemoteModel>, name: Seq<char>) -> Seq<RemoteModel>
    decreases rs.len(),
{
    if rs.len() == 0 {
        Seq::empty()
    } else if rs.last().0 == name {
        remotes_without(rs.drop_last(), name)
    } else {
        remotes_without(rs.drop_last(), name).push(rs.last())
    }
}

impl View for Config {
    type V = Seq<RemoteModel>;

    open spec fn view(&self) -> Seq<RemoteModel> {
        self.git_repo_urls@.map_values(|p: (String, String)| (p.0@, p.1@))
    }
}

impl Default for Config {
    fn default() -> (r: Config)
        ensures
            r@ == Seq::<RemoteModel>::empty(),
    {
        let r = Config { git_repo_urls: Vec::new() };
        assert(r@ =~= Seq::<RemoteModel>::empty());
        r
    }
}

impl Config {
    /// Whether a remote of this name is configured.
    pub fn has_remote(&self, name: &str) -> (r: bool)
        ensures
            r == exists|i: int| 0 <= i < self@.len() && #[trigger] self@[i].0 == name@,
    {
        let mut i: usize = 0;
        while i < self.git_repo_urls.len()
            invariant
                i <= self@.len(),
                forall|j: int| 0 <= j < i ==> #[trigger] self@[j].0 != name@,
            decreases self@.len() - i,
        {
            if str_equals(name, &self.git_repo_urls[i].0) {
                assert(self@[i as int].0 == name@);
                return true;
            }
            i = i + 1;
        }
        false
    }

    /// Appends a remote. The result tells whether one of that name was
    /// already configured; the new one is added either way, after it.
    pub fn add_remote(&mut self, name: String, url: String) -> (r: bool)
        ensures
            r == exists|i: int| 0 <= i < old(self)@.len() && #[trigger] old(self)@[i].0 == name@,
            final(self)@ == old(self)@.push((name@, url@)),
    {
        let existed = self.has_remote(name.as_str());
        let ghost before = self@;
        self.git_repo_urls.push((name, url));
        assert(self@ =~= before.push((name@, url@)));
        existed
    }

    /// The configuration with every remote of this name taken out.
    pub fn without_remote(&self, name: &str) -> (r: Config)
        ensures
            r@ == remotes_without(self@, name@),
    {
        let mut kept: Vec<(String, String)> = Vec::new();
        let mut i: usize = 0;
        while i < self.git_repo_urls.len()
            invariant
                i <= self@.len(),
                kept@.map_values(|p: (String, String)| (p.0@, p.1@)) == remotes_without(
                    self@.take(i as int),
                    name@,
                ),
            decreases self@.len() - i,
        {
            assert(self@.take(i + 1).drop_last() =~= self@.take(i as int));
            let entry = &self.git_repo_urls[i];
            if !str_equals(name, &entry.0) {
                let ghost before = kept@.map_values(|p: (String, String)| (p.0@, p.1@));
                kept.push((copy_string(&entry.0), copy_string(&entry.1)));
                assert(kept@.map_values(|p: (String, String)| (p.0@, p.1@)) =~= before.push(
                    self@[i as int],
                ));
            }
            i = i + 1;
        }
        assert(self@.take(i as int) =~= self@);
        Config { git_repo_urls: kept }
    }
}

} // verus!
