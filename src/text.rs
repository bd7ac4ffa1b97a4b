//! Splitting text into whitespace-separated words, and capitalizing words.
use vstd::prelude::*;

verus! {

/// Whether a character has Unicode's `White_Space` property.
pub uninterp spec fn is_space(c: char) -> bool;

/// The upper-case mapping of a character (one or more characters).
pub uninterp spec fn upper_of(c: char) -> Seq<char>;

/// The lower-case mapping of a string.
pub uninterp spec fn lower_of(s: Seq<char>) -> Seq<char>;

/// Relies on `char::is_whitespace`: whether `c` has the `White_Space` property.
#[verifier::external_body]
pub(crate) fn space(c: char) -> (r: bool)
    ensures
        r == is_space(c),
{
    c.is_whitespace()
}

/// Relies on `char::to_uppercase`: the upper-case mapping of `c`, which is
/// documented to yield one or more characters.
#[verifier::external_body]
fn upper(c: char) -> (r: String)
    ensures
        r@ == upper_of(c),
        r@.len() >= 1,
{
    c.to_uppercase().to_string()
}

/// Relies on `str::to_lowercase`: the lower-case mapping of `s`, which
/// depends on the characters of `s` alone.
#[verifier::external_body]
pub(crate) fn lower(s: &str) -> (r: String)
    ensures
        r@ == lower_of(s@),
        s@.len() == 0 ==> r@.len() == 0,
{
    s.to_lowercase()
}

/// The words found so far in `s`, read left to right, and the word being read
/// when `s` ends.
pub open spec fn scan(s: Seq<char>) -> (Seq<Seq<char>>, Seq<char>)
    decreases s.len(),
{
    if s.len() == 0 {
        (Seq::empty(), Seq::empty())
    } else {
        let (done, cur) = scan(s.drop_last());
        let c = s.last();
        if is_space(c) {
            if cur.len() > 0 {
                (done.push(cur), Seq::empty())
            } else {
                (done, Seq::empty())
            }
        } else {
            (done, cur.push(c))
        }
    }
}

/// The maximal runs of non-whitespace characters of `s`, in order.
pub open spec fn words(s: Seq<char>) -> Seq<Seq<char>> {
    let (done, cur) = scan(s);
    if cur.len() > 0 {
        done.push(cur)
    } else {
        done
    }
}

/// The texts of a sequence of strings.
pub open spec fn texts(v: Seq<String>) -> Seq<Seq<char>> {
    v.map_values(|t: String| t@)
}

/// A word with its first character upper-cased and the rest lower-cased.
pub open spec fn capitalized(t: Seq<char>) -> Seq<char> {
    if t.len() == 0 {
        Seq::empty()
    } else {
        upper_of(t[0]) + lower_of(t.drop_first())
    }
}

/// Every word is non-empty.
pub proof fn lemma_words_nonempty(s: Seq<char>)
    ensures
        forall|k: int| 0 <= k < words(s).len() ==> #[trigger] words(s)[k].len() > 0,
{
    lemma_scan_nonempty(s);
}

proof fn lemma_scan_nonempty(s: Seq<char>)
    ensures
        forall|k: int| 0 <= k < scan(s).0.len() ==> #[trigger] scan(s).0[k].len() > 0,
    decreases s.len(),
{
    if s.len() > 0 {
        lemma_scan_nonempty(s.drop_last());
        let (done, cur) = scan(s.drop_last());
        assert forall|k: int| 0 <= k < scan(s).0.len() implies #[trigger] scan(s).0[k].len() > 0 by {
            if k < done.len() {
                assert(scan(s).0[k] == done[k]);
            }
        }
    }
}

fn push_word(out: &mut Vec<String>, s: &str, start: usize, end: usize)
    requires
        start < end <= s@.len(),
    ensures
        texts(final(out)@) == texts(old(out)@).push(s@.subrange(start as int, end as int)),
{
    let w = s.substring_char(start, end).to_string();
    out.push(w);
    assert(texts(final(out)@) =~= texts(old(out)@).push(s@.subrange(start as int, end as int)));
}

/// Splits `s` at whitespace into its words.
pub fn split_words(s: &str) -> (r: Vec<String>)
    ensures
        texts(r@) == words(s@),
{
    broadcast use vstd::string::group_string_axioms;

    let n = s.unicode_len();
    let mut out: Vec<String> = Vec::new();
    let mut start: usize = 0;
    let mut i: usize = 0;
    assert(s@.take(0) =~= Seq::<char>::empty());
    assert(texts(out@) =~= Seq::<Seq<char>>::empty());
    while i < n
        invariant
            n == s@.len(),
            start <= i <= n,
            scan(s@.take(i as int)).0 == texts(out@),
            scan(s@.take(i as int)).1 == s@.subrange(start as int, i as int),
        decreases n - i,
    {
        let c = s.get_char(i);
        assert(s@.take(i + 1).drop_last() =~= s@.take(i as int));
        if space(c) {
            if start < i {
                push_word(&mut out, s, start, i);
            }
            start = i + 1;
            assert(s@.subrange(start as int, start as int) =~= Seq::<char>::empty());
        } else {
            assert(s@.subrange(start as int, i + 1) =~= s@.subrange(start as int, i as int).push(
                c,
            ));
        }
        i = i + 1;
    }
    assert(s@.take(n as int) =~= s@);
    if start < n {
        push_word(&mut out, s, start, n);
    }
    out
}

/// Upper-cases the first character of `t` and lower-cases the rest.
pub fn capitalize(t: &str) -> (r: String)
    ensures
        r@ == capitalized(t@),
        t@.len() > 0 ==> r@.len() > 0,
{
    let n = t.unicode_len();
    if n == 0 {
        return String::new();
    }
    let mut r = upper(t.get_char(0));
    let rest = lower(t.substring_char(1, n));
    assert(t@.subrange(1, n as int) =~= t@.drop_first());
    r.append(rest.as_str());
    r
}

} // verus!
