//! Path strings and the few facts the transaction needs about them.
//!
//! Paths are plain strings.  The model is deliberately small: a path is a
//! sequence of characters, joining appends a separator and a name, and the
//! directory part of a path is everything before its last separator.

use vstd::prelude::*;
use vstd::string::StrSliceExecFns;
use vstd::string::StringExecFns;

verus! {

/// The path `dir`, a separator, and `name`.
pub open spec fn joined(dir: Seq<char>, name: Seq<char>) -> Seq<char> {
    dir + seq!['/'] + name
}

/// Whether the path contains a separator at all.
pub open spec fn has_separator(s: Seq<char>) -> bool {
    exists|i: int| 0 <= i < s.len() && s[i] == '/'
}

/// Index of the last separator in the path; -1 when there is none.
pub open spec fn last_separator(s: Seq<char>) -> int
    decreases s.len(),
{
    if s.len() == 0 {
        -1
    } else if s[s.len() - 1] == '/' {
        s.len() - 1
    } else {
        last_separator(s.drop_last())
    }
}

/// The prefix of the path before its last separator.
pub open spec fn parent_of(s: Seq<char>) -> Seq<char> {
    s.subrange(0, last_separator(s))
}

pub proof fn lemma_last_separator(s: Seq<char>)
    ensures
        -1 <= last_separator(s) < s.len(),
        last_separator(s) >= 0 ==> s[last_separator(s)] == '/',
        has_separator(s) <==> last_separator(s) >= 0,
        forall|k: int| last_separator(s) < k < s.len() ==> s[k] != '/',
    decreases s.len(),
{
    if s.len() == 0 {
        assert(!has_separator(s));
    } else if s[s.len() - 1] == '/' {
        assert(has_separator(s));
    } else {
        lemma_last_separator(s.drop_last());
        let t = s.drop_last();
        assert(forall|k: int| 0 <= k < t.len() ==> t[k] == s[k]);
        if has_separator(s) {
            let i = choose|i: int| 0 <= i < s.len() && s[i] == '/';
            assert(i < s.len() - 1);
            assert(t[i] == '/');
            assert(has_separator(t));
        }
        if has_separator(t) {
            let i = choose|i: int| 0 <= i < t.len() && t[i] == '/';
            assert(s[i] == '/');
            assert(has_separator(s));
        }
    }
}

/// If the character at `i` is a separator and no later character is one,
/// then `i` is the index of the last separator.
pub proof fn lemma_last_separator_unique(s: Seq<char>, i: int)
    requires
        0 <= i < s.len(),
        s[i] == '/',
        forall|k: int| i < k < s.len() ==> s[k] != '/',
    ensures
        last_separator(s) == i,
{
    lemma_last_separator(s);
    assert(has_separator(s));
    let l = last_separator(s);
    if l < i {
        assert(s[i] != '/');
        assert(false);
    }
    if l > i {
        assert(s[l] != '/');
        assert(false);
    }
}

/// Appending the same name to two directories gives equal paths only for
/// equal directories.
pub proof fn lemma_joined_injective_dir(a: Seq<char>, b: Seq<char>, name: Seq<char>)
    requires
        joined(a, name) == joined(b, name),
    ensures
        a == b,
{
    assert(joined(a, name).len() == a.len() + 1 + name.len());
    assert(joined(b, name).len() == b.len() + 1 + name.len());
    assert(a.len() == b.len());
    assert forall|i: int| 0 <= i < a.len() implies a[i] == b[i] by {
        assert(joined(a, name)[i] == a[i]);
        assert(joined(b, name)[i] == b[i]);
    }
    assert(a =~= b);
}

/// Two joined paths whose names end in different characters are distinct.
pub proof fn lemma_joined_last_char(a: Seq<char>, n1: Seq<char>, b: Seq<char>, n2: Seq<char>)
    requires
        n1.len() > 0,
        n2.len() > 0,
        n1[n1.len() - 1] != n2[n2.len() - 1],
    ensures
        joined(a, n1) != joined(b, n2),
{
    let p1 = joined(a, n1);
    let p2 = joined(b, n2);
    assert(p1[p1.len() - 1] == n1[n1.len() - 1]);
    assert(p2[p2.len() - 1] == n2[n2.len() - 1]);
    if p1 == p2 {
        assert(p1[p1.len() - 1] == p2[p2.len() - 1]);
        assert(false);
    }
}

/// Joining the same directory with names of different lengths gives
/// distinct paths.
pub proof fn lemma_joined_len(a: Seq<char>, n1: Seq<char>, b: Seq<char>, n2: Seq<char>)
    requires
        a.len() + n1.len() != b.len() + n2.len(),
    ensures
        joined(a, n1) != joined(b, n2),
{
    assert(joined(a, n1).len() == a.len() + 1 + n1.len());
    assert(joined(b, n2).len() == b.len() + 1 + n2.len());
}

/// `dir`, a separator, and `name` concatenated into one path.
pub fn join_path(dir: &str, name: &str) -> (r: String)
    ensures
        r@ == joined(dir@, name@),
{
    let mut s: String = dir.to_owned();
    s.append("/");
    s.append(name);
    proof {
        reveal_strlit("/");
        assert(s@ =~= joined(dir@, name@));
    }
    s
}

/// Directory part of a path: everything before the last separator.
/// A path without any separator has no directory part.
pub fn parent_dir(path: &str) -> (r: Option<String>)
    ensures
        match r {
            Option::Some(d) => has_separator(path@) && d@ == parent_of(path@),
            Option::None => !has_separator(path@),
        },
{
    let n = path.unicode_len();
    let mut i: usize = n;
    loop
        invariant
            i <= n,
            n == path@.len(),
            forall|k: int| i <= k < n ==> path@[k] != '/',
        decreases i,
    {
        if i == 0 {
            proof {
                lemma_last_separator(path@);
            }
            return Option::None;
        }
        i = i - 1;
        if path.get_char(i) == '/' {
            let d = path.substring_char(0, i).to_owned();
            proof {
                lemma_last_separator_unique(path@, i as int);
            }
            return Option::Some(d);
        }
    }
}

} // verus!
