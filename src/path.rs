use vstd::prelude::*;

verus! {

/// A filesystem path, held as the sequence of its components.
///
/// Joining a name onto a path appends one component; the last component is
/// the entry's own name.
#[derive(Debug)]
pub struct PkgPath {
    pub parts: Vec<String>,
}

impl View for PkgPath {
    type V = Seq<Seq<char>>;

    open spec fn view(&self) -> Seq<Seq<char>> {
        self.parts@.map_values(|s: String| s@)
    }
}

/// Copies a string, keeping its characters.
pub fn copy_string(s: &String) -> (r: String)
    ensures
        r@ == s@,
{
    s.as_str().to_owned()
}

/// Whether a string slice and a string hold the same characters.
pub fn str_equals(a: &str, b: &String) -> (r: bool)
    ensures
        r == (a@ == b@),
{
    let owned = a.to_owned();
    owned.eq(b)
}

impl PkgPath {
    /// The path made of the given components, in order.
    pub fn new(parts: Vec<String>) -> (r: PkgPath)
        ensures
            r.parts@ == parts@,
    {
        PkgPath { parts }
    }

    /// A copy of this path.
    pub fn copy(&self) -> (r: PkgPath)
        ensures
            r@ == self@,
    {
        let mut parts: Vec<String> = Vec::new();
        let mut i: usize = 0;
        while i < self.parts.len()
            invariant
                i <= self.parts@.len(),
                parts@.len() == i,
                parts@.map_values(|s: String| s@) == self@.take(i as int),
            decreases self.parts@.len() - i,
        {
            let c = copy_string(&self.parts[i]);
            let ghost before = parts@;
            parts.push(c);
            assert(parts@ == before.push(c));
            assert forall|j: int| 0 <= j < i + 1 implies #[trigger] parts@[j]@ == self.parts@[j]@ by {
                if j < i {
                    assert(before.map_values(|s: String| s@)[j] == self@.take(i as int)[j]);
                }
            }
            i = i + 1;
            assert(parts@.map_values(|s: String| s@) =~= self@.take(i as int));
        }
        assert(self@.take(i as int) =~= self@);
        PkgPath { parts }
    }

    /// This path with `name` appended as one more component.
    pub fn join(&self, name: &str) -> (r: PkgPath)
        ensures
            r@ == self@.push(name@),
    {
        let mut r = self.copy();
        r.parts.push(name.to_owned());
        assert(r@ =~= self@.push(name@));
        r
    }

    /// The last component, if the path has any.
    pub fn file_name(&self) -> (r: Option<&String>)
        ensures
            self@.len() == 0 ==> r is None,
            self@.len() > 0 ==> r is Some && r->0@ == self@.last(),
    {
        if self.parts.len() == 0 {
            None
        } else {
            Some(&self.parts[self.parts.len() - 1])
        }
    }

    /// Whether two paths have the same components.
    pub fn same_as(&self, other: &PkgPath) -> (r: bool)
        ensures
            r == (self@ == other@),
    {
        if self.parts.len() != other.parts.len() {
            assert(self@.len() != other@.len());
            return false;
        }
        let mut i: usize = 0;
        while i < self.parts.len()
            invariant
                i <= self.parts@.len(),
                self.parts@.len() == other.parts@.len(),
                forall|j: int| 0 <= j < i ==> self@[j] == other@[j],
            decreases self.parts@.len() - i,
        {
            if !self.parts[i].eq(&other.parts[i]) {
                assert(self@[i as int] != other@[i as int]);
                return false;
            }
            i = i + 1;
        }
        assert(self@ =~= other@);
        true
    }
}

} // verus!
