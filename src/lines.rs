//! The first line of a text.
use vstd::prelude::*;

verus! {

/// How many characters come before the first line feed of `s` (all of them
/// where there is none).
pub open spec fn line_end(s: Seq<char>) -> nat
    decreases s.len(),
{
    if s.len() == 0 {
        0
    } else if s[0] == '\n' {
        0
    } else {
        1 + line_end(s.drop_first())
    }
}

/// The first line of `s`, without its line ending (`\n` or `\r\n`); none for
/// an empty text.
pub open spec fn first_line(s: Seq<char>) -> Option<Seq<char>> {
    let e = line_end(s) as int;
    let l = s.take(e);
    if s.len() == 0 {
        None
    } else if e < s.len() && e > 0 && l.last() == '\r' {
        Some(l.drop_last())
    } else {
        Some(l)
    }
}

/// The last character of the first line of `text`, if that line exists and
/// is not empty.
pub fn last_char_of_first_line_propagation_operator(text: &str) -> (r: Option<char>)
    ensures
        r == (match first_line(text@) {
            Some(l) => if l.len() > 0 {
                Some(l.last())
            } else {
                None
            },
            None => None,
        }),
{
    let n = text.unicode_len();
    if n == 0 {
        return None;
    }
    let mut e: usize = 0;
    assert(text@.skip(0) =~= text@);
    while e < n && text.get_char(e) != '\n'
        invariant
            n == text@.len(),
            e <= n,
            forall|j: int| 0 <= j < e ==> text@[j] != '\n',
            line_end(text@) == e + line_end(text@.skip(e as int)),
        decreases n - e,
    {
        assert(text@.skip(e as int).drop_first() =~= text@.skip(e + 1));
        e = e + 1;
    }
    assert(line_end(text@.skip(e as int)) == 0);
    let mut stop = e;
    if e < n && e > 0 && text.get_char(e - 1) == '\r' {
        stop = e - 1;
    }
    if stop == 0 {
        None
    } else {
        Some(text.get_char(stop - 1))
    }
}

} // verus!
