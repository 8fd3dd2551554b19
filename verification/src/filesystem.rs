//! Path values and the string operations on them. Paths use `/` as their
//! separator; backslashes are normalized away on construction. Checks that
//! touch the file system itself live outside this crate.

use vstd::prelude::*;

verus! {

/// What a path on disk points at.
#[derive(Debug, PartialEq, Eq, Structural, Clone, Copy)]
pub enum PathType {
    File,
    Directory,
    Invalid,
}

/// A file-system path, held as a normalized string.
#[derive(Debug, PartialEq, Eq, Clone)]
pub struct Path {
    path: String,
}

impl View for Path {
    type V = Seq<char>;

    closed spec fn view(&self) -> Seq<char> {
        self.path@
    }
}

/// A path string with every backslash replaced by the separator.
pub open spec fn spec_normalize(s: Seq<char>) -> Seq<char> {
    s.map_values(
        |c: char|
            if c == '\\' {
                '/'
            } else {
                c
            },
    )
}

/// Two paths joined: a separator goes between them unless the second
/// already starts with one.
pub open spec fn spec_add(a: Seq<char>, b: Seq<char>) -> Seq<char> {
    if b.len() > 0 && b[0] == '/' {
        a + b
    } else {
        a + "/"@ + b
    }
}

/// The part of a path after its last separator: the whole path when it has
/// none, empty when it ends in one.
pub open spec fn spec_basename(s: Seq<char>) -> Seq<char>
    decreases s.len(),
{
    if s.len() == 0 {
        Seq::empty()
    } else if s.last() == '/' {
        Seq::empty()
    } else {
        spec_basename(s.drop_last()).push(s.last())
    }
}

/// The basename is the path's suffix from the character after its last
/// separator on.
proof fn lemma_basename_is_suffix(s: Seq<char>, cut: int)
    requires
        0 <= cut <= s.len(),
        forall|j: int| cut <= j < s.len() ==> s[j] != '/',
        cut > 0 ==> s[cut - 1] == '/',
    ensures
        spec_basename(s) == s.skip(cut),
    decreases s.len(),
{
    if s.len() == 0 {
        assert(spec_basename(s) =~= s.skip(cut));
    } else if s.last() == '/' {
        assert(cut == s.len());
        assert(spec_basename(s) =~= s.skip(cut));
    } else if cut == s.len() {
        assert(s.last() != '/');
        assert(false) by {
            assert(s[cut - 1] == '/');
        }
    } else {
        lemma_basename_is_suffix(s.drop_last(), cut);
        assert(spec_basename(s) =~= s.skip(cut)) by {
            assert(s.drop_last().skip(cut) =~= s.skip(cut).drop_last());
        }
    }
}

/// Relies on String::push: appends one character to a string.
#[verifier::external_body]
pub(crate) fn string_push_char(s: &mut String, c: char)
    ensures
        final(s)@ == old(s)@.push(c),
{
    s.push(c);
}

impl Path {
    /// Builds a path from user text, replacing every backslash with the
    /// separator.
    pub fn new(user_path: &str) -> (p: Self)
        ensures
            p@ == spec_normalize(user_path@),
    {
        let n = user_path.unicode_len();
        let mut path = String::new();
        let mut i: usize = 0;
        let ghost f = |c: char|
            if c == '\\' {
                '/'
            } else {
                c
            };
        proof {
            assert(path@ =~= user_path@.take(0).map_values(f));
        }
        while i < n
            invariant
                n == user_path@.len(),
                i <= n,
                f == (|c: char|
                    if c == '\\' {
                        '/'
                    } else {
                        c
                    }),
                path@ == user_path@.take(i as int).map_values(f),
            decreases n - i,
        {
            let c = user_path.get_char(i);
            let mapped = if c == '\\' {
                '/'
            } else {
                c
            };
            string_push_char(&mut path, mapped);
            proof {
                assert(path@ =~= user_path@.take(i + 1).map_values(f));
            }
            i = i + 1;
        }
        proof {
            assert(user_path@.take(n as int) =~= user_path@);
        }
        Self { path }
    }

    /// The path as a string.
    pub fn to_string(&self) -> (r: String)
        ensures
            r@ == self@,
    {
        self.path.clone()
    }

    /// The character that separates path segments.
    pub fn split_char() -> (c: char)
        ensures
            c == '/',
    {
        '/'
    }

    /// Where the basename starts: the position after the last separator,
    /// or zero when the path has none.
    fn basename_start(&self) -> (cut: usize)
        ensures
            cut <= self@.len(),
            forall|j: int| cut <= j < self@.len() ==> self@[j] != '/',
            cut > 0 ==> self@[cut - 1] == '/',
    {
        let n = self.path.as_str().unicode_len();
        let mut i: usize = n;
        while i > 0
            invariant
                n == self@.len(),
                i <= n,
                forall|j: int| i <= j < n ==> self@[j] != '/',
            decreases i,
        {
            if self.path.as_str().get_char(i - 1) == '/' {
                return i;
            }
            i = i - 1;
        }
        0
    }

    /// The last segment of the path: everything after its final separator.
    pub fn basename(&self) -> (r: String)
        ensures
            r@ == spec_basename(self@),
    {
        let cut = self.basename_start();
        let n = self.path.as_str().unicode_len();
        proof {
            lemma_basename_is_suffix(self@, cut as int);
            assert(self@.subrange(cut as int, n as int) =~= self@.skip(cut as int));
        }
        self.path.as_str().substring_char(cut, n).to_owned()
    }

    /// The path with its last segment and the separator before it removed.
    /// A path without a separator is its own parent.
    pub fn parent_path(&self) -> (r: Self)
        ensures
            self@.contains('/') ==> {
                exists|cut: int|
                    {
                        &&& 0 < cut <= self@.len()
                        &&& #[trigger] self@[cut - 1] == '/'
                        &&& (forall|j: int| cut <= j < self@.len() ==> self@[j] != '/')
                        &&& r@ == self@.take(cut - 1)
                    }
            },
            !self@.contains('/') ==> r@ == self@,
    {
        let cut = self.basename_start();
        if cut == 0 {
            proof {
                if self@.contains('/') {
                    let j = choose|j: int| 0 <= j < self@.len() && #[trigger] self@[j] == '/';
                    assert(false);
                }
            }
            self.clone_path()
        } else {
            let r = Self { path: self.path.as_str().substring_char(0, cut - 1).to_owned() };
            proof {
                assert(self@[cut - 1int] == '/');
                assert(self@.contains('/'));
                assert(r@ =~= self@.take(cut - 1));
            }
            r
        }
    }

    /// A copy of this path.
    fn clone_path(&self) -> (r: Self)
        ensures
            r@ == self@,
    {
        Self { path: self.path.clone() }
    }

    /// This path with `extra` appended as a further segment: a separator
    /// goes between them unless `extra` already starts with one.
    pub fn add(&self, extra: &Self) -> (r: Self)
        ensures
            r@ == spec_add(self@, extra@),
    {
        let starts_with_sep = extra.path.as_str().unicode_len() > 0 && extra.path.as_str().get_char(
            0,
        ) == '/';

        if !starts_with_sep {
            Self { path: self.path.clone().concat("/").concat(extra.path.as_str()) }
        } else {
            Self { path: self.path.clone().concat(extra.path.as_str()) }
        }
    }

    /// This path with `extra` (normalized first) appended as a further
    /// segment.
    pub fn add_str(&self, extra: &str) -> (r: Self)
        ensures
            r@ == spec_add(self@, spec_normalize(extra@)),
    {
        self.add(&Path::new(extra))
    }
}

} // verus!
