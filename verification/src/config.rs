//! The policy: which external names the public interface of a library may
//! mention.

use vstd::prelude::*;
use crate::text::to_chars;

verus! {

/// Whether the text matches the pattern. In a pattern `*` stands for any run
/// of characters, the empty one too, `?` for any one character, and every
/// other character for itself.
pub open spec fn glob_matches(pattern: Seq<char>, text: Seq<char>) -> bool
    decreases pattern.len(), text.len(),
{
    if pattern.len() == 0 {
        text.len() == 0
    } else if pattern[0] == '*' {
        glob_matches(pattern.drop_first(), text) || (text.len() > 0 && glob_matches(
            pattern,
            text.drop_first(),
        ))
    } else if pattern[0] == '?' {
        text.len() > 0 && glob_matches(pattern.drop_first(), text.drop_first())
    } else {
        text.len() > 0 && text[0] == pattern[0] && glob_matches(
            pattern.drop_first(),
            text.drop_first(),
        )
    }
}

/// The number of characters of a qualified name that stand before its first
/// `::`, or its length if it holds none.
pub open spec fn crate_len(name: Seq<char>) -> nat
    decreases name.len(),
{
    if name.len() < 2 {
        name.len()
    } else if name[0] == ':' && name[1] == ':' {
        0
    } else {
        1 + crate_len(name.drop_first())
    }
}

/// The first segment of a qualified name: the library that the name belongs
/// to.
pub open spec fn crate_of(name: Seq<char>) -> Seq<char> {
    name.take(crate_len(name) as int)
}

fn crate_len_of(name: &Vec<char>) -> (n: usize)
    ensures
        n == crate_len(name@),
        n <= name.len(),
{
    let len = name.len();
    if len < 2 {
        return len;
    }
    let mut i: usize = 0;
    proof {
        assert(name@.skip(0) =~= name@);
    }
    while i + 1 < len && !(name[i] == ':' && name[i + 1] == ':')
        invariant
            len == name.len(),
            i + 1 <= len,
            crate_len(name@) == i + crate_len(name@.skip(i as int)),
        decreases len - i,
    {
        proof {
            assert(name@.skip(i as int).drop_first() =~= name@.skip(i + 1));
        }
        i = i + 1;
    }
    if i + 1 < len {
        i
    } else {
        len
    }
}

fn prefix_equals(name: &Vec<char>, n: usize, other: &Vec<char>) -> (b: bool)
    requires
        n <= name.len(),
    ensures
        b == (name@.take(n as int) == other@),
{
    if other.len() != n {
        return false;
    }
    let mut i: usize = 0;
    while i < n
        invariant
            i <= n <= name.len(),
            other.len() == n,
            forall|j: int| 0 <= j < i ==> name@[j] == other@[j],
        decreases n - i,
    {
        if name[i] != other[i] {
            proof {
                assert(name@.take(n as int)[i as int] != other@[i as int]);
            }
            return false;
        }
        i = i + 1;
    }
    proof {
        assert(name@.take(n as int) =~= other@);
    }
    true
}

proof fn lemma_glob_step(pattern: Seq<char>, text: Seq<char>, i: int, j: int)
    requires
        0 <= i < pattern.len(),
        0 <= j <= text.len(),
    ensures
        glob_matches(pattern.skip(i), text.skip(j)) == (if pattern[i] == '*' {
            glob_matches(pattern.skip(i + 1), text.skip(j)) || (j < text.len() && glob_matches(
                pattern.skip(i),
                text.skip(j + 1),
            ))
        } else if pattern[i] == '?' {
            j < text.len() && glob_matches(pattern.skip(i + 1), text.skip(j + 1))
        } else {
            j < text.len() && text[j] == pattern[i] && glob_matches(
                pattern.skip(i + 1),
                text.skip(j + 1),
            )
        }),
{
    assert(pattern.skip(i).drop_first() =~= pattern.skip(i + 1));
    if j < text.len() {
        assert(text.skip(j).drop_first() =~= text.skip(j + 1));
    }
}

/// Whether the text matches the pattern.
pub fn matches_glob(pattern: &Vec<char>, text: &Vec<char>) -> (b: bool)
    ensures
        b == glob_matches(pattern@, text@),
{
    let n = text.len();
    let m = pattern.len();
    // With i characters of the pattern left to go, row[j] says whether the
    // rest of the pattern matches the text from j on, and tail says so for
    // the empty rest of the text.
    let mut row: Vec<bool> = Vec::new();
    let mut tail = true;
    let mut j: usize = 0;
    while j < n
        invariant
            j <= n,
            n == text.len(),
            m == pattern.len(),
            row.len() == j,
            forall|k: int|
                0 <= k < j ==> row@[k] == glob_matches(pattern@.skip(m as int), text@.skip(k)),
        decreases n - j,
    {
        row.push(false);
        j = j + 1;
    }
    let mut i: usize = m;
    while i > 0
        invariant
            i <= m,
            n == text.len(),
            m == pattern.len(),
            row.len() == n,
            forall|k: int|
                0 <= k < n ==> row@[k] == glob_matches(pattern@.skip(i as int), text@.skip(k)),
            tail == glob_matches(pattern@.skip(i as int), text@.skip(n as int)),
        decreases i,
    {
        i = i - 1;
        let p = pattern[i];
        let ghost above = row@;
        proof {
            lemma_glob_step(pattern@, text@, i as int, n as int);
        }
        let new_tail = p == '*' && tail;
        // The old and the new entry of the position after the current one.
        let mut old_next = tail;
        let mut new_next = new_tail;
        let mut j: usize = n;
        while j > 0
            invariant
                j <= n,
                i < m,
                n == text.len(),
                m == pattern.len(),
                p == pattern@[i as int],
                row.len() == n,
                above.len() == n,
                forall|k: int|
                    0 <= k < n ==> above[k] == glob_matches(pattern@.skip(i + 1), text@.skip(k)),
                forall|k: int| 0 <= k < j ==> row@[k] == above[k],
                forall|k: int|
                    j <= k < n ==> row@[k] == glob_matches(pattern@.skip(i as int), text@.skip(k)),
                old_next == glob_matches(pattern@.skip(i + 1), text@.skip(j as int)),
                new_next == glob_matches(pattern@.skip(i as int), text@.skip(j as int)),
            decreases j,
        {
            j = j - 1;
            proof {
                lemma_glob_step(pattern@, text@, i as int, j as int);
            }
            let old_here = row[j];
            proof {
                assert(old_here == above[j as int]);
                assert(above[j as int] == glob_matches(pattern@.skip(i + 1), text@.skip(j as int)));
            }
            let value = if p == '*' {
                old_here || new_next
            } else if p == '?' {
                old_next
            } else {
                text[j] == p && old_next
            };
            row.set(j, value);
            old_next = old_here;
            new_next = value;
        }
        tail = new_tail;
    }
    proof {
        assert(pattern@.skip(0) =~= pattern@);
        assert(text@.skip(0) =~= text@);
    }
    if n == 0 {
        tail
    } else {
        row[0]
    }
}

/// The policy of a library: which external names its public interface may
/// mention.
#[derive(Debug, PartialEq, Eq)]
pub struct Config {
    /// Whether names of `alloc` are allowed.
    pub allow_alloc: bool,
    /// Whether names of `core` are allowed.
    pub allow_core: bool,
    /// Whether names of `std` are allowed.
    pub allow_std: bool,
    /// Patterns of the names that are allowed besides, see [`glob_matches`].
    pub allowed_external_types: Vec<String>,
}

impl Config {
    /// Whether one of the first `n` patterns matches the name.
    pub open spec fn listed(&self, name: Seq<char>, n: int) -> bool {
        exists|i: int|
            0 <= i < n && i < self.allowed_external_types@.len() && glob_matches(
                #[trigger] self.allowed_external_types@[i]@,
                name,
            )
    }

    /// Whether the library `root` may mention `name` in its public
    /// interface: a name of the library itself always, a name of `alloc`,
    /// `core` or `std` as the policy says for each, any other name if a
    /// pattern of the allow-list matches it.
    pub open spec fn allows(&self, root: Seq<char>, name: Seq<char>) -> bool {
        let owner = crate_of(name);
        if owner == root {
            true
        } else if owner == seq!['a', 'l', 'l', 'o', 'c'] {
            self.allow_alloc
        } else if owner == seq!['c', 'o', 'r', 'e'] {
            self.allow_core
        } else if owner == seq!['s', 't', 'd'] {
            self.allow_std
        } else {
            self.listed(name, self.allowed_external_types@.len() as int)
        }
    }

    /// Whether the library `root_crate_name` may mention `name` in its public
    /// interface.
    pub fn allows_type(&self, root_crate_name: &str, name: &str) -> (b: bool)
        ensures
            b == self.allows(root_crate_name@, name@),
    {
        let text = to_chars(name);
        let n = crate_len_of(&text);
        let root = to_chars(root_crate_name);
        if prefix_equals(&text, n, &root) {
            return true;
        }
        proof {
            reveal_strlit("alloc");
            reveal_strlit("core");
            reveal_strlit("std");
            assert("alloc"@ =~= seq!['a', 'l', 'l', 'o', 'c']);
            assert("core"@ =~= seq!['c', 'o', 'r', 'e']);
            assert("std"@ =~= seq!['s', 't', 'd']);
        }
        if prefix_equals(&text, n, &to_chars("alloc")) {
            return self.allow_alloc;
        }
        if prefix_equals(&text, n, &to_chars("core")) {
            return self.allow_core;
        }
        if prefix_equals(&text, n, &to_chars("std")) {
            return self.allow_std;
        }
        let mut i: usize = 0;
        while i < self.allowed_external_types.len()
            invariant
                i <= self.allowed_external_types.len(),
                text@ == name@,
                !self.listed(name@, i as int),
                self.allows(root_crate_name@, name@) == self.listed(
                    name@,
                    self.allowed_external_types@.len() as int,
                ),
            decreases self.allowed_external_types.len() - i,
        {
            let pattern = to_chars(self.allowed_external_types[i].as_str());
            if matches_glob(&pattern, &text) {
                proof {
                    assert(glob_matches(self.allowed_external_types@[i as int]@, name@));
                    assert(self.listed(name@, self.allowed_external_types@.len() as int));
                }
                return true;
            }
            i = i + 1;
        }
        false
    }
}

impl Default for Config {
    /// The policy that allows the names of `alloc`, `core` and `std` and no
    /// others.
    fn default() -> (c: Self)
        ensures
            c.allow_alloc,
            c.allow_core,
            c.allow_std,
            c.allowed_external_types@.len() == 0,
    {
        Config {
            allow_alloc: true,
            allow_core: true,
            allow_std: true,
            allowed_external_types: Vec::new(),
        }
    }
}

} // verus!
