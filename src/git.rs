use vstd::prelude::*;

use crate::config::{Config, RemoteModel};
use crate::path::{copy_string, PkgPath};

verus! {

/// The git working copy that holds the package index.
pub struct GitRepository {
    pub path: PkgPath,
}

/// One git operation on the index's working copy.
pub enum GitStep {
    RemoveRemote(String),
    AddRemote(String, String),
    /// Pull the main branch of this remote.
    Pull(String),
}

/// A git operation, as plain values.
pub enum GitModel {
    RemoveRemote(Seq<char>),
    AddRemote(Seq<char>, Seq<char>),
    Pull(Seq<char>),
}

impl View for GitStep {
    type V = GitModel;

    open spec fn view(&self) -> GitModel {
        match self {
            GitStep::RemoveRemote(n) => GitModel::RemoveRemote(n@),
            GitStep::AddRemote(n, u) => GitModel::AddRemote(n@, u@),
            GitStep::Pull(n) => GitModel::Pull(n@),
        }
    }
}

/// Removing each of the existing remotes, in order.
pub open spec fn removals(existing: Seq<Seq<char>>) -> Seq<GitModel>
    decreases existing.len(),
{
    if existing.len() == 0 {
        Seq::empty()
    } else {
        removals(existing.drop_last()).push(GitModel::RemoveRemote(existing.last()))
    }
}

/// Adding then pulling each configured remote, in order.
pub open spec fn additions(configured: Seq<RemoteModel>) -> Seq<GitModel>
    decreases configured.len(),
{
    if configured.len() == 0 {
        Seq::empty()
    } else {
        let (n, u) = configured.last();
        additions(configured.drop_last()).push(GitModel::AddRemote(n, u)).push(GitModel::Pull(n))
    }
}

/// The operations that bring the working copy's remotes in line with the
/// configuration: every existing remote is removed, then each configured
/// remote is added and pulled.
pub fn sync_remotes(existing: &Vec<String>, config: &Config) -> (r: Vec<GitStep>)
    ensures
        r@.map_values(|s: GitStep| s@) == removals(existing@.map_values(|s: String| s@))
            + additions(config@),
{
    let ghost ex = existing@.map_values(|s: String| s@);
    let mut steps: Vec<GitStep> = Vec::new();
    let mut i: usize = 0;
    assert(existing@.map_values(|s: String| s@).take(0) =~= Seq::<Seq<char>>::empty());
    while i < existing.len()
        invariant
            i <= existing@.len(),
            ex == existing@.map_values(|s: String| s@),
            steps@.map_values(|s: GitStep| s@) == removals(ex.take(i as int)),
        decreases existing@.len() - i,
    {
        assert(ex.take(i + 1).drop_last() =~= ex.take(i as int));
        let ghost before = steps@.map_values(|s: GitStep| s@);
        steps.push(GitStep::RemoveRemote(copy_string(&existing[i])));
        assert(steps@.map_values(|s: GitStep| s@) =~= before.push(
            GitModel::RemoveRemote(ex[i as int]),
        ));
        i = i + 1;
    }
    assert(ex.take(i as int) =~= ex);
    let ghost removed = steps@.map_values(|s: GitStep| s@);
    let mut j: usize = 0;
    assert(config@.take(0) =~= Seq::<RemoteModel>::empty());
    assert(removed + additions(Seq::<RemoteModel>::empty()) =~= removed);
    while j < config.git_repo_urls.len()
        invariant
            j <= config@.len(),
            steps@.map_values(|s: GitStep| s@) == removed + additions(config@.take(j as int)),
        decreases config@.len() - j,
    {
        assert(config@.take(j + 1).drop_last() =~= config@.take(j as int));
        let (name, url) = &config.git_repo_urls[j];
        let ghost before = steps@.map_values(|s: GitStep| s@);
        steps.push(GitStep::AddRemote(copy_string(name), copy_string(url)));
        steps.push(GitStep::Pull(copy_string(name)));
        assert(steps@.map_values(|s: GitStep| s@) =~= before.push(
            GitModel::AddRemote(config@[j as int].0, config@[j as int].1),
        ).push(GitModel::Pull(config@[j as int].0)));
        j = j + 1;
    }
    assert(config@.take(j as int) =~= config@);
    steps
}

/// Whether `c` is ASCII whitespace: space, tab, line feed, form feed or
/// carriage return.
pub open spec fn is_ascii_space(c: char) -> bool {
    c == ' ' || c == '\t' || c == '\n' || c == '\x0C' || c == '\r'
}

/// The lines of a text, split at each line feed; the last one is what
/// follows the last line feed.
pub open spec fn split_lines(s: Seq<char>) -> Seq<Seq<char>>
    decreases s.len(),
{
    if s.len() == 0 {
        seq![Seq::empty()]
    } else {
        let ls = split_lines(s.drop_last());
        if s.last() == '\n' {
            ls.push(Seq::empty())
        } else {
            ls.update(ls.len() - 1, ls.last().push(s.last()))
        }
    }
}

/// The first whitespace-delimited word of a line, and whether whitespace
/// follows it (so that later characters cannot extend it).
pub open spec fn first_word(l: Seq<char>) -> (Seq<char>, bool)
    decreases l.len(),
{
    if l.len() == 0 {
        (Seq::empty(), false)
    } else {
        let (w, closed) = first_word(l.drop_last());
        let c = l.last();
        if closed {
            (w, true)
        } else if is_ascii_space(c) {
            (w, w.len() > 0)
        } else {
            (w.push(c), false)
        }
    }
}

/// The remote names listed by lines: the first word of each line that has
/// one, leaving out a name equal to the one just before it.
pub open spec fn names_of(lines: Seq<Seq<char>>) -> Seq<Seq<char>>
    decreases lines.len(),
{
    if lines.len() == 0 {
        Seq::empty()
    } else {
        let prev = names_of(lines.drop_last());
        let w = first_word(lines.last()).0;
        if w.len() == 0 || (prev.len() > 0 && prev.last() == w) {
            prev
        } else {
            prev.push(w)
        }
    }
}

proof fn lemma_split_lines_nonempty(s: Seq<char>)
    ensures
        split_lines(s).len() >= 1,
    decreases s.len(),
{
    if s.len() > 0 {
        lemma_split_lines_nonempty(s.drop_last());
    }
}

/// Reads the remote names out of what `git remote --verbose` printed: one
/// name per line, at its start, each remote listed once for fetch and once
/// for push.
pub fn parse_remotes(output: &str) -> (r: Vec<String>)
    ensures
        r@.map_values(|s: String| s@) == names_of(split_lines(output@)),
{
    let n = output.unicode_len();
    let mut names: Vec<String> = Vec::new();
    let mut i: usize = 0;
    let mut start: usize = 0;
    let mut end: usize = 0;
    let mut closed = false;
    assert(output@.take(0) =~= Seq::<char>::empty());
    assert(split_lines(Seq::<char>::empty()).drop_last() =~= Seq::<Seq<char>>::empty());
    assert(output@.subrange(0, 0) =~= Seq::<char>::empty());
    while i < n
        invariant
            n == output@.len(),
            i <= n,
            start <= end <= i,
            names@.map_values(|s: String| s@) == names_of(split_lines(output@.take(i as int)).drop_last()),
            first_word(split_lines(output@.take(i as int)).last()) == (output@.subrange(start as int, end as int), closed),
            !closed ==> end == i,
        decreases n - i,
    {
        let c = output.get_char(i);
        assert(output@[i as int] == c);
        let ghost pre = output@.take(i as int);
        let ghost ls = split_lines(pre);
        proof {
            lemma_split_lines_nonempty(pre);
            assert(output@.take(i + 1).drop_last() =~= pre);
            assert(output@.take(i + 1).last() == c);
        }
        if c == '\n' {
            let ghost w = output@.subrange(start as int, end as int);
            assert(split_lines(output@.take(i + 1)) == ls.push(Seq::<char>::empty()));
            assert(ls.push(Seq::<char>::empty()).drop_last() =~= ls);
            assert(ls.drop_last().push(ls.last()) =~= ls);
            if end > start {
                let word = output.substring_char(start, end).to_owned();
                let len = names.len();
                let dup = len > 0 && names[len - 1].eq(&word);
                if !dup {
                    let ghost before = names@.map_values(|s: String| s@);
                    names.push(word);
                    assert(names@.map_values(|s: String| s@) =~= before.push(w));
                }
            }
            start = i + 1;
            end = i + 1;
            closed = false;
            assert(output@.subrange(start as int, end as int) =~= Seq::<char>::empty());
        } else {
            let ghost ls2 = split_lines(output@.take(i + 1));
            assert(ls2 == ls.update(ls.len() - 1, ls.last().push(c)));
            assert(ls2.drop_last() =~= ls.drop_last());
            assert(ls2.last() == ls.last().push(c));
            assert(ls.last().push(c).drop_last() =~= ls.last());
            let space = c == ' ' || c == '\t' || c == '\x0C' || c == '\r';
            if closed {
            } else if space {
                if end > start {
                    closed = true;
                } else {
                    start = i + 1;
                    end = i + 1;
                    assert(output@.subrange(start as int, end as int) =~= Seq::<char>::empty());
                }
            } else {
                assert(output@.subrange(start as int, end + 1) =~= output@.subrange(
                    start as int,
                    end as int,
                ).push(c));
                end = i + 1;
            }
        }
        i = i + 1;
    }
    proof {
        assert(output@.take(n as int) =~= output@);
        lemma_split_lines_nonempty(output@);
    }
    let ghost ls = split_lines(output@);
    let ghost w = output@.subrange(start as int, end as int);
    assert(ls.drop_last().push(ls.last()) =~= ls);
    if end > start {
        let word = output.substring_char(start, end).to_owned();
        let len = names.len();
        let dup = len > 0 && names[len - 1].eq(&word);
        if !dup {
            let ghost before = names@.map_values(|s: String| s@);
            names.push(word);
            assert(names@.map_values(|s: String| s@) =~= before.push(w));
        }
    }
    names
}

} // verus!
