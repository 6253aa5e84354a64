//! Small verified string helpers and the std string operations the library
//! relies on.

use vstd::prelude::*;
use vstd::string::*;

verus! {

/// Character-wise equality of two strings.
pub fn str_equal(a: &str, b: &str) -> (r: bool)
    ensures
        r == (a@ == b@),
{
    let n = a.unicode_len();
    if n != b.unicode_len() {
        return false;
    }
    let mut i: usize = 0;
    while i < n
        invariant
            n == a@.len(),
            n == b@.len(),
            i <= n,
            forall|k: int| 0 <= k < i ==> a@[k] == b@[k],
        decreases n - i,
    {
        if a.get_char(i) != b.get_char(i) {
            return false;
        }
        i = i + 1;
    }
    assert(a@ =~= b@);
    true
}

/// Everything after the last `'/'` of a path (all of it if it holds none).
pub open spec fn last_component(s: Seq<char>) -> Seq<char>
    decreases s.len(),
{
    if s.len() == 0 {
        s
    } else if s.last() == '/' {
        Seq::empty()
    } else {
        last_component(s.drop_last()).push(s.last())
    }
}

proof fn lemma_last_component_step(s: Seq<char>, i: int)
    requires
        0 < i <= s.len(),
        s[i - 1] != '/',
    ensures
        last_component(s.subrange(0, i)) == last_component(s.subrange(0, i - 1)).push(s[i - 1]),
{
    assert(s.subrange(0, i).drop_last() =~= s.subrange(0, i - 1));
}

/// The base name of a directory path: the text after its last `'/'`.
pub fn base_name(path: &str) -> (r: String)
    ensures
        r@ == last_component(path@),
{
    let n = path.unicode_len();
    let mut i: usize = n;
    proof {
        assert(path@.subrange(0, n as int) =~= path@);
        assert(last_component(path@) + path@.subrange(n as int, n as int) =~= last_component(path@));
    }
    while i > 0 && path.get_char(i - 1) != '/'
        invariant
            n == path@.len(),
            i <= n,
            last_component(path@) == last_component(path@.subrange(0, i as int)) + path@.subrange(
                i as int,
                n as int,
            ),
        decreases i,
    {
        proof {
            lemma_last_component_step(path@, i as int);
            assert(path@.subrange(i - 1, n as int) =~= seq![path@[i - 1]] + path@.subrange(
                i as int,
                n as int,
            ));
            assert(last_component(path@.subrange(0, i as int)) + path@.subrange(i as int, n as int)
                =~= last_component(path@.subrange(0, i - 1)) + path@.subrange(i - 1, n as int));
        }
        i = i - 1;
    }
    proof {
        if i == 0 {
            assert(path@.subrange(0, 0) =~= Seq::<char>::empty());
        } else {
            assert(path@.subrange(0, i as int).last() == '/');
        }
        assert(path@.subrange(i as int, n as int) =~= path@.subrange(i as int, n as int));
    }
    let tail = path.substring_char(i, n);
    proof {
        assert(last_component(path@) =~= tail@);
    }
    String::from_str(tail)
}

/// `q` occurs in `t` as a contiguous run of characters.
pub open spec fn contains_text(t: Seq<char>, q: Seq<char>) -> bool {
    exists|i: int| 0 <= i && i + q.len() <= t.len() && #[trigger] t.subrange(i, i + q.len()) == q
}

/// Whether `q` occurs in `t` as a contiguous run of characters.
pub fn text_contains(t: &str, q: &str) -> (r: bool)
    ensures
        r == contains_text(t@, q@),
{
    let n = t.unicode_len();
    let m = q.unicode_len();
    if m > n {
        proof {
            assert forall|i: int| 0 <= i && i + m <= n implies #[trigger] t@.subrange(i, i + m) != q@ by {
            }
        }
        return false;
    }
    let mut i: usize = 0;
    while i <= n - m
        invariant
            n == t@.len(),
            m == q@.len(),
            m <= n,
            i <= n - m + 1,
            forall|k: int| 0 <= k < i ==> #[trigger] t@.subrange(k, k + m) != q@,
        decreases n - m + 1 - i,
    {
        let mut j: usize = 0;
        while j < m && t.get_char(i + j) == q.get_char(j)
            invariant
                n == t@.len(),
                m == q@.len(),
                i + m <= n,
                j <= m,
                forall|k: int| 0 <= k < j ==> t@[i + k] == q@[k],
            decreases m - j,
        {
            j = j + 1;
        }
        if j == m {
            assert(t@.subrange(i as int, i + m) =~= q@);
            return true;
        }
        assert(t@.subrange(i as int, i + m)[j as int] != q@[j as int]);
        i = i + 1;
    }
    proof {
        assert forall|k: int| 0 <= k && k + m <= n implies #[trigger] t@.subrange(k, k + m) != q@ by {
            assert(k < i);
        }
    }
    false
}

/// Upper-case form of a string, as std defines it for full Unicode.
pub uninterp spec fn upper_of(s: Seq<char>) -> Seq<char>;

/// Relies on `str::to_uppercase`: the result depends on the characters alone.
#[verifier::external_body]
pub(crate) fn to_upper(s: &str) -> (r: String)
    ensures
        r@ == upper_of(s@),
{
    s.to_uppercase()
}

/// Lower-case form of a string, as std defines it for full Unicode.
pub uninterp spec fn lower_of(s: Seq<char>) -> Seq<char>;

/// Relies on `str::to_lowercase`: the result depends on the characters alone.
#[verifier::external_body]
pub(crate) fn to_lower(s: &str) -> (r: String)
    ensures
        r@ == lower_of(s@),
        s@.len() == 0 ==> r@.len() == 0,
{
    s.to_lowercase()
}

/// Relies on `String::push`: appends one character.
#[verifier::external_body]
pub(crate) fn push_char(s: &mut String, c: char)
    ensures
        final(s)@ == old(s)@.push(c),
{
    s.push(c)
}

/// Relies on `String::pop`: removes and returns the last character, if any.
#[verifier::external_body]
pub(crate) fn pop_char(s: &mut String) -> (r: Option<char>)
    ensures
        old(s)@.len() == 0 ==> r.is_none() && final(s)@ == old(s)@,
        old(s)@.len() > 0 ==> r == Some(old(s)@.last()) && final(s)@ == old(s)@.drop_last(),
{
    s.pop()
}

} // verus!
