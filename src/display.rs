//! Text shaping for the project list: fixed-width columns and the home
//! directory shown as `~`.

use vstd::prelude::*;
use vstd::string::*;
use crate::text::push_char;
use unicode_width::{UnicodeWidthChar, UnicodeWidthStr};

verus! {

/// Display width of a string in terminal columns.
pub uninterp spec fn str_width_of(s: Seq<char>) -> usize;

/// Display width of a character in terminal columns; none for control
/// characters.
pub uninterp spec fn char_width_of(c: char) -> Option<usize>;

/// Relies on `unicode_width::UnicodeWidthStr::width`: the columns a string
/// takes, which depend on its characters alone.
#[verifier::external_body]
fn str_width(s: &str) -> (r: usize)
    ensures
        r == str_width_of(s@),
{
    s.width()
}

/// Relies on `unicode_width::UnicodeWidthChar::width`: the columns a
/// character takes, `None` for control characters.
#[verifier::external_body]
fn char_width(c: char) -> (r: Option<usize>)
    ensures
        r == char_width_of(c),
{
    UnicodeWidthChar::width(c)
}

/// The columns a character is counted for while truncating: its width, or
/// one for a control character.
pub open spec fn counted_width(c: char) -> int {
    match char_width_of(c) {
        Some(w) => w as int,
        None => 1,
    }
}

/// The longest prefix of `s` that, after `used` columns, still leaves room
/// for `...` within `max` columns.
pub open spec fn kept_prefix(s: Seq<char>, used: int, max: int) -> Seq<char>
    decreases s.len(),
{
    if s.len() == 0 {
        s
    } else if used + counted_width(s[0]) + 3 > max {
        Seq::empty()
    } else {
        seq![s[0]] + kept_prefix(s.drop_first(), used + counted_width(s[0]), max)
    }
}

/// `s` followed by spaces up to `w` characters.
pub open spec fn padded(s: Seq<char>, w: int) -> Seq<char> {
    if s.len() >= w {
        s
    } else {
        s + Seq::new((w - s.len()) as nat, |i: int| ' ')
    }
}

/// A cell of `max` columns: the text padded if it fits, else as much of it
/// as leaves room for `...`, then `...`, padded.
pub open spec fn fitted(s: Seq<char>, max: int) -> Seq<char> {
    if str_width_of(s) <= max {
        padded(s, max)
    } else {
        padded(kept_prefix(s, 0, max) + "..."@, max)
    }
}

fn pad_to(s: &mut String, w: usize)
    ensures
        final(s)@ == padded(old(s)@, w as int),
{
    let ghost start = s@;
    let mut len = s.unicode_len();
    if len >= w {
        return;
    }
    while len < w
        invariant
            start.len() <= len <= w,
            s@ == start + Seq::new((len - start.len()) as nat, |i: int| ' '),
        decreases w - len,
    {
        push_char(s, ' ');
        assert(s@ =~= start + Seq::new((len + 1 - start.len()) as nat, |i: int| ' '));
        len = len + 1;
    }
}

/// Fits `s` into a cell of `max_width` columns.
pub fn truncate_str(s: &str, max_width: usize) -> (r: String)
    ensures
        r@ == fitted(s@, max_width as int),
{
    let width = str_width(s);
    if width <= max_width {
        let mut out = String::from_str(s);
        pad_to(&mut out, max_width);
        return out;
    }
    let n = s.unicode_len();
    let mut out = String::new();
    let mut current: usize = 0;
    let mut i: usize = 0;
    let mut full = false;
    let ghost m = max_width as int;
    proof {
        assert(s@.subrange(0, n as int) =~= s@);
        assert(out@ + kept_prefix(s@, 0, m) =~= kept_prefix(s@, 0, m));
    }
    while i < n && !full
        invariant
            n == s@.len(),
            m == max_width as int,
            i <= n,
            current <= max_width,
            out@.len() == i,
            full ==> out@ == kept_prefix(s@, 0, m),
            !full ==> kept_prefix(s@, 0, m) == out@ + kept_prefix(
                s@.subrange(i as int, n as int),
                current as int,
                m,
            ),
        decreases n - i + (if full { 0int } else { 1int }),
    {
        let c = s.get_char(i);
        let w = match char_width(c) {
            Some(w) => w,
            None => 1,
        };
        let ghost rest = s@.subrange(i as int, n as int);
        assert(rest.len() == n - i);
        assert(rest[0] == c);
        assert(counted_width(rest[0]) == w as int);
        if w > max_width - current || max_width - current - w < 3 {
            assert(kept_prefix(rest, current as int, m) =~= Seq::<char>::empty());
            assert(out@ + kept_prefix(rest, current as int, m) =~= out@);
            full = true;
        } else {
            proof {
                assert(rest.drop_first() =~= s@.subrange(i + 1, n as int));
                assert(kept_prefix(rest, current as int, m) == seq![c] + kept_prefix(
                    rest.drop_first(),
                    current + w,
                    m,
                ));
                assert(out@.push(c) + kept_prefix(s@.subrange(i + 1, n as int), current + w, m)
                    =~= out@ + (seq![c] + kept_prefix(rest.drop_first(), current + w, m)));
            }
            push_char(&mut out, c);
            current = current + w;
            i = i + 1;
        }
    }
    proof {
        if !full {
            assert(s@.subrange(n as int, n as int) =~= Seq::<char>::empty());
            assert(out@ + kept_prefix(Seq::<char>::empty(), current as int, m) =~= out@);
        }
        reveal_strlit("...");
    }
    out.append("...");
    pad_to(&mut out, max_width);
    out
}

/// `s` with every occurrence of `from` replaced by `to`.
pub uninterp spec fn replaced_all(s: Seq<char>, from: Seq<char>, to: Seq<char>) -> Seq<char>;

/// Relies on `str::replace`: the result depends on the three strings alone.
#[verifier::external_body]
fn replace_all(s: &str, from: &str, to: &str) -> (r: String)
    ensures
        r@ == replaced_all(s@, from@, to@),
{
    s.replace(from, to)
}

/// A path with the home directory written as `~`; unchanged when no home
/// directory is known (an empty `home`).
pub fn prettify_home(path: &str, home: &str) -> (r: String)
    ensures
        home@.len() == 0 ==> r@ == path@,
        home@.len() > 0 ==> r@ == replaced_all(path@, home@, "~"@),
{
    if home.unicode_len() == 0 {
        return String::from_str(path);
    }
    replace_all(path, home, "~")
}

} // verus!
