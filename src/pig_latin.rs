//! Pig latin: each word loses its first consonant to its end, followed by
//! "ay"; a word that starts with a vowel gets "hay" instead.
use vstd::prelude::*;
use vstd::utf8::is_ascii_chars;

use crate::text::{lemma_words_nonempty, split_words, texts, words};

verus! {

/// A lower-case vowel.
pub open spec fn is_vowel(c: char) -> bool {
    c == 'a' || c == 'e' || c == 'i' || c == 'o' || c == 'u'
}

/// One non-empty word in pig latin: `apple` gives `apple-hay`, `first` gives
/// `irst-fay`.
pub open spec fn pig_word(w: Seq<char>) -> Seq<char> {
    if is_vowel(w[0]) {
        w + "-hay"@
    } else {
        w.drop_first() + "-"@ + seq![w[0]] + "ay"@
    }
}

/// The words in pig latin, each after one space.
pub open spec fn spaced(ws: Seq<Seq<char>>) -> Seq<char>
    decreases ws.len(),
{
    if ws.len() == 0 {
        Seq::empty()
    } else {
        spaced(ws.drop_last()) + seq![' '] + pig_word(ws.last())
    }
}

/// The text that a sentence gives: its words in pig latin, separated by single
/// spaces, or a message naming the sentence where a word is not ASCII.
pub open spec fn pig_latin(s: Seq<char>) -> Seq<char> {
    let ws = words(s);
    if exists|i: int| 0 <= i < ws.len() && !is_ascii_chars(#[trigger] ws[i]) {
        "invalid string: not ascii\ninput string: "@ + s
    } else {
        spaced(ws).drop_first()
    }
}

/// Turns a sentence of at least one word into pig latin.
pub fn string_to_pig_latin(sentence: &String) -> (r: String)
    requires
        words(sentence@).len() > 0,
    ensures
        r@ == pig_latin(sentence@),
{
    broadcast use vstd::string::group_string_axioms;

    let ws = split_words(sentence.as_str());
    let ghost w = words(sentence@);
    proof {
        lemma_words_nonempty(sentence@);
    }
    let mut out = String::new();
    let mut k: usize = 0;
    assert(w.take(0) =~= Seq::<Seq<char>>::empty());
    while k < ws.len()
        invariant
            texts(ws@) == w,
            w == words(sentence@),
            forall|i: int| 0 <= i < w.len() ==> #[trigger] w[i].len() > 0,
            k <= ws@.len(),
            out@ == spaced(w.take(k as int)),
            forall|i: int| 0 <= i < k ==> is_ascii_chars(#[trigger] w[i]),
        decreases ws@.len() - k,
    {
        let word = ws[k].as_str();
        assert(word@ == w[k as int]);
        if !word.is_ascii() {
            let mut e = String::from_str("invalid string: not ascii\ninput string: ");
            e.append(sentence.as_str());
            return e;
        }
        let n = word.unicode_len();
        let first = word.get_char(0);
        out.append(" ");
        if first == 'a' || first == 'e' || first == 'i' || first == 'o' || first == 'u' {
            out.append(word);
            out.append("-hay");
        } else {
            out.append(word.substring_char(1, n));
            out.append("-");
            out.append(word.substring_char(0, 1));
            out.append("ay");
            assert(word@.subrange(1, n as int) =~= word@.drop_first());
            assert(word@.subrange(0, 1) =~= seq![first]);
        }
        assert(w.take(k + 1).drop_last() =~= w.take(k as int));
        proof {
            reveal_strlit(" ");
        }
        assert(out@ =~= spaced(w.take(k + 1)));
        k = k + 1;
    }
    assert(w.take(k as int) =~= w);
    let len = out.as_str().unicode_len();
    assert(len > 0) by {
        reveal_strlit(" ");
        assert(spaced(w).len() >= 1);
    }
    let r = out.as_str().substring_char(1, len).to_string();
    assert(out@.subrange(1, len as int) =~= out@.drop_first());
    r
}

/// Turns a sentence into pig latin where it has a word; none for a blank
/// sentence.
pub fn pig_latin_of(sentence: &String) -> (r: Option<String>)
    ensures
        r is None <==> words(sentence@).len() == 0,
        r matches Some(t) ==> t@ == pig_latin(sentence@),
{
    let ws = split_words(sentence.as_str());
    assert(texts(ws@).len() == ws@.len());
    if ws.len() == 0 {
        None
    } else {
        Some(string_to_pig_latin(sentence))
    }
}

} // verus!
