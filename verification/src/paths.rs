//! Paths as plain values: a path is the sequence of its components, a
//! component is a string without separators.  The walker in the surrounding
//! binary turns real filesystem paths into this form and back.

use vstd::prelude::*;

verus! {

/// A relative filesystem path, stored as its components in order.
#[derive(Debug)]
pub struct FilePath {
    pub segments: Vec<String>,
}

impl View for FilePath {
    type V = Seq<Seq<char>>;

    open spec fn view(&self) -> Seq<Seq<char>> {
        Seq::new(self.segments@.len(), |i: int| self.segments@[i]@)
    }
}

/// Index of the last `.` in a file name, or -1 if there is none.
pub open spec fn last_dot(name: Seq<char>) -> int
    decreases name.len(),
{
    if name.len() == 0 {
        -1
    } else if name[name.len() - 1] == '.' {
        name.len() - 1
    } else {
        last_dot(name.drop_last())
    }
}

/// The extension of a file name: what follows the last `.`, provided that dot
/// is not the leading character.  A name without such a dot has the empty
/// extension.
pub open spec fn extension_of(name: Seq<char>) -> Seq<char> {
    if last_dot(name) >= 1 {
        name.subrange(last_dot(name) + 1, name.len() as int)
    } else {
        Seq::empty()
    }
}

/// The file name with its extension replaced by the markup extension; a name
/// without an extension gets the markup extension appended.
pub open spec fn forced_markup_of(name: Seq<char>) -> Seq<char> {
    if last_dot(name) >= 1 {
        name.subrange(0, last_dot(name)) + ".html"@
    } else {
        name + ".html"@
    }
}

/// A path's components joined by `/`.
pub open spec fn joined(segs: Seq<Seq<char>>) -> Seq<char>
    decreases segs.len(),
{
    if segs.len() == 0 {
        Seq::empty()
    } else if segs.len() == 1 {
        segs[0]
    } else {
        joined(segs.drop_last()) + "/"@ + segs.last()
    }
}

proof fn lemma_last_dot_at(s: Seq<char>, k: int)
    requires
        0 <= k < s.len(),
        s[k] == '.',
        forall|j: int| k < j < s.len() ==> s[j] != '.',
    ensures
        last_dot(s) == k,
    decreases s.len(),
{
    if k == s.len() - 1 {
    } else {
        lemma_last_dot_at(s.drop_last(), k);
    }
}

proof fn lemma_last_dot_none(s: Seq<char>)
    requires
        forall|j: int| 0 <= j < s.len() ==> s[j] != '.',
    ensures
        last_dot(s) == -1,
    decreases s.len(),
{
    if s.len() > 0 {
        lemma_last_dot_none(s.drop_last());
    }
}

/// Index of the last `.` of a name, as the walker's dispatch needs it.
pub fn find_last_dot(name: &str) -> (r: Option<usize>)
    ensures
        match r {
            Some(i) => i < name@.len() && last_dot(name@) == i,
            None => last_dot(name@) == -1,
        },
{
    let n: usize = name.unicode_len();
    let mut i: usize = n;
    while i > 0
        invariant
            i <= n,
            n == name@.len(),
            forall|j: int| i <= j < n ==> name@[j] != '.',
        decreases i,
    {
        i = i - 1;
        if name.get_char(i) == '.' {
            proof {
                lemma_last_dot_at(name@, i as int);
            }
            return Some(i);
        }
    }
    proof {
        lemma_last_dot_none(name@);
    }
    None
}

/// The extension of a file name, as a fresh string.
pub fn extension(name: &str) -> (r: String)
    ensures
        r@ == extension_of(name@),
{
    let n: usize = name.unicode_len();
    match find_last_dot(name) {
        Some(d) if d >= 1 => name.substring_char(d + 1, n).to_owned(),
        _ => String::new(),
    }
}

/// The file name with its extension replaced by the markup extension.
pub fn force_markup_name(name: &str) -> (r: String)
    ensures
        r@ == forced_markup_of(name@),
{
    let n: usize = name.unicode_len();
    match find_last_dot(name) {
        Some(d) if d >= 1 => name.substring_char(0, d).to_owned().concat(".html"),
        _ => name.to_owned().concat(".html"),
    }
}

impl FilePath {
    /// A path with no components.
    pub fn empty() -> (r: FilePath)
        ensures
            r@ == Seq::<Seq<char>>::empty(),
    {
        let r = FilePath { segments: Vec::new() };
        proof {
            assert(r@ =~= Seq::<Seq<char>>::empty());
        }
        r
    }

    /// A deep copy.
    pub fn duplicate(&self) -> (r: FilePath)
        ensures
            r@ == self@,
    {
        let mut segs: Vec<String> = Vec::new();
        let mut i: usize = 0;
        while i < self.segments.len()
            invariant
                i <= self.segments.len(),
                segs@.len() == i,
                forall|j: int| 0 <= j < i ==> (#[trigger] segs@[j])@ == self@[j],
            decreases self.segments.len() - i,
        {
            segs.push(self.segments[i].clone());
            i = i + 1;
        }
        let r = FilePath { segments: segs };
        proof {
            assert(r@ =~= self@);
        }
        r
    }

    /// The first `len` components.
    pub fn truncated(&self, len: usize) -> (r: FilePath)
        requires
            len <= self.segments.len(),
        ensures
            r@ == self@.take(len as int),
    {
        let mut segs: Vec<String> = Vec::new();
        let mut i: usize = 0;
        while i < len
            invariant
                i <= len <= self.segments.len(),
                segs@.len() == i,
                forall|j: int| 0 <= j < i ==> (#[trigger] segs@[j])@ == self@[j],
            decreases len - i,
        {
            segs.push(self.segments[i].clone());
            i = i + 1;
        }
        let r = FilePath { segments: segs };
        proof {
            assert(r@ =~= self@.take(len as int));
        }
        r
    }

    /// The last component, if any.
    pub fn file_name(&self) -> (r: Option<&String>)
        ensures
            match r {
                Some(s) => self@.len() > 0 && s@ == self@.last(),
                None => self@.len() == 0,
            },
    {
        if self.segments.len() > 0 {
            Some(&self.segments[self.segments.len() - 1])
        } else {
            None
        }
    }

    /// The path without its last component; the empty path stays empty.
    pub fn parent(&self) -> (r: FilePath)
        ensures
            self@.len() > 0 ==> r@ == self@.drop_last(),
            self@.len() == 0 ==> r@ == self@,
    {
        let mut r = self.duplicate();
        if r.segments.len() > 0 {
            r.segments.pop();
            proof {
                assert(r@ =~= self@.drop_last());
            }
        }
        r
    }

    /// Appends one component.
    pub fn push(&mut self, seg: String)
        ensures
            final(self)@ == old(self)@.push(seg@),
    {
        self.segments.push(seg);
        proof {
            assert(final(self)@ =~= old(self)@.push(seg@));
        }
    }

    /// Whether `prefix` is a leading run of this path's components.
    pub fn starts_with(&self, prefix: &FilePath) -> (r: bool)
        ensures
            r == prefix@.is_prefix_of(self@),
    {
        if prefix.segments.len() > self.segments.len() {
            proof {
                assert(!prefix@.is_prefix_of(self@));
            }
            return false;
        }
        let mut i: usize = 0;
        while i < prefix.segments.len()
            invariant
                i <= prefix.segments.len() <= self.segments.len(),
                forall|j: int| 0 <= j < i ==> prefix@[j] == self@[j],
            decreases prefix.segments.len() - i,
        {
            if !(self.segments[i] == prefix.segments[i]) {
                proof {
                    assert(prefix@[i as int] != self@[i as int]);
                    assert(self@.subrange(0, prefix@.len() as int)[i as int] == self@[
                        i as int
                    ]);
                    assert(!prefix@.is_prefix_of(self@));
                }
                return false;
            }
            i = i + 1;
        }
        proof {
            assert(prefix@ =~= self@.subrange(0, prefix@.len() as int));
        }
        true
    }

    /// Whether the two paths have the same components.
    pub fn same_as(&self, other: &FilePath) -> (r: bool)
        ensures
            r == (self@ == other@),
    {
        if self.segments.len() != other.segments.len() {
            proof {
                assert(self@.len() != other@.len());
            }
            return false;
        }
        let mut i: usize = 0;
        while i < self.segments.len()
            invariant
                i <= self.segments.len(),
                self.segments.len() == other.segments.len(),
                forall|j: int| 0 <= j < i ==> self@[j] == other@[j],
            decreases self.segments.len() - i,
        {
            if !(self.segments[i] == other.segments[i]) {
                proof {
                    assert(self@[i as int] != other@[i as int]);
                }
                return false;
            }
            i = i + 1;
        }
        proof {
            assert(self@ =~= other@);
        }
        true
    }

    /// This path's components appended to `root`: the mirrored location of a
    /// relative path under another root.
    pub fn rebase_under(&self, root: &FilePath) -> (r: FilePath)
        ensures
            r@ == root@ + self@,
    {
        let mut r = root.duplicate();
        let mut i: usize = 0;
        while i < self.segments.len()
            invariant
                i <= self.segments.len(),
                r@ == root@ + self@.take(i as int),
            decreases self.segments.len() - i,
        {
            let ghost r0 = r@;
            r.segments.push(self.segments[i].clone());
            proof {
                let g = root@ + self@.take(i + 1);
                assert forall|j: int| 0 <= j < r@.len() implies r@[j] == g[j] by {
                    if j < r0.len() {
                        assert(r@[j] == r0[j]);
                        assert(r0[j] == (root@ + self@.take(i as int))[j]);
                    } else {
                        assert(r@[j] == self@[i as int]);
                    }
                }
                assert(r@ =~= root@ + self@.take(i + 1));
            }
            i = i + 1;
        }
        proof {
            assert(root@ + self@.take(self.segments.len() as int) =~= root@ + self@);
        }
        r
    }

    /// The components joined by `/`: the name under which the template engine
    /// addresses this path.
    pub fn to_name(&self) -> (r: String)
        ensures
            r@ == joined(self@),
    {
        let mut r = String::new();
        if self.segments.len() == 0 {
            proof {
                assert(r@ =~= joined(self@));
            }
            return r;
        }
        r = self.segments[0].clone();
        let mut i: usize = 1;
        while i < self.segments.len()
            invariant
                1 <= i <= self.segments.len(),
                self.segments.len() >= 1,
                r@ == joined(self@.take(i as int)),
            decreases self.segments.len() - i,
        {
            r.append("/");
            r.append(self.segments[i].as_str());
            proof {
                assert(self@.take(i + 1).drop_last() =~= self@.take(i as int));
                assert(r@ =~= joined(self@.take(i + 1)));
            }
            i = i + 1;
        }
        proof {
            assert(self@.take(self.segments.len() as int) =~= self@);
        }
        r
    }
}

} // verus!
