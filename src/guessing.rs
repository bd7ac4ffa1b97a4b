//! The number guessing game.
use rand::Rng;
use vstd::prelude::*;

use crate::text::{is_space, space};

verus! {

/// A guess for the number game, always between 1 and 100.
pub struct Guess {
    value: i32,
}

impl Guess {
    #[verifier::type_invariant]
    spec fn inv(&self) -> bool {
        1 <= self.value <= 100
    }

    /// The number this guess holds.
    pub closed spec fn spec_value(&self) -> i32 {
        self.value
    }

    /// Makes a guess; the value must lie in `1..=100`.
    pub fn new(value: i32) -> (r: Guess)
        requires
            1 <= value <= 100,
        ensures
            r.spec_value() == value,
    {
        Guess { value }
    }

    /// Reads the guess back.
    pub fn value(&self) -> (r: i32)
        ensures
            r == self.spec_value(),
            1 <= r <= 100,
    {
        proof {
            use_type_invariant(self);
        }
        self.value
    }
}

/// Relies on `rand::thread_rng` and `Rng::gen_range`: a value drawn from the
/// non-empty range `1..=100`, which `gen_range` returns a member of.
#[verifier::external_body]
fn draw_secret() -> (r: u32)
    ensures
        1 <= r <= 100,
{
    rand::thread_rng().gen_range(1..=100)
}

/// `s` without its leading whitespace.
pub open spec fn trim_start(s: Seq<char>) -> Seq<char>
    decreases s.len(),
{
    if s.len() > 0 && is_space(s[0]) {
        trim_start(s.drop_first())
    } else {
        s
    }
}

/// `s` without its trailing whitespace.
pub open spec fn trim_end(s: Seq<char>) -> Seq<char>
    decreases s.len(),
{
    if s.len() > 0 && is_space(s.last()) {
        trim_end(s.drop_last())
    } else {
        s
    }
}

/// An ASCII decimal digit.
pub open spec fn is_digit(c: char) -> bool {
    '0' <= c <= '9'
}

/// The number that the decimal digits `d` write.
pub open spec fn digits_value(d: Seq<char>) -> int
    decreases d.len(),
{
    if d.len() == 0 {
        0
    } else {
        digits_value(d.drop_last()) * 10 + (d.last() as int - '0' as int)
    }
}

/// Every character of `d` is a decimal digit.
pub open spec fn all_digits(d: Seq<char>) -> bool {
    forall|i: int| 0 <= i < d.len() ==> is_digit(#[trigger] d[i])
}

/// `t` without a leading `+`.
pub open spec fn unsigned_part(t: Seq<char>) -> Seq<char> {
    if t.len() > 0 && t[0] == '+' {
        t.drop_first()
    } else {
        t
    }
}

/// The `u32` that `t` writes in decimal: digits, at least one, after an
/// optional `+`, with a value that fits.
pub open spec fn decimal_u32(t: Seq<char>) -> Option<u32> {
    let d = unsigned_part(t);
    if d.len() > 0 && all_digits(d) && digits_value(d) <= u32::MAX {
        Some(digits_value(d) as u32)
    } else {
        None
    }
}

/// What a typed guess says about the secret.
#[derive(Clone, Copy, Debug, PartialEq, Eq, Structural)]
pub enum Verdict {
    /// The line is not a number; the game goes on.
    NotANumber,
    TooSmall,
    TooBig,
    Win,
}

/// The verdict on a guess read as `g` when the secret is `secret`.
pub open spec fn verdict(g: Option<u32>, secret: u32) -> Verdict {
    match g {
        None => Verdict::NotANumber,
        Some(n) => if n < secret {
            Verdict::TooSmall
        } else if n > secret {
            Verdict::TooBig
        } else {
            Verdict::Win
        },
    }
}

proof fn lemma_digits_value_grows(d: Seq<char>, k: int)
    requires
        0 <= k <= d.len(),
        all_digits(d),
    ensures
        0 <= digits_value(d.take(k)) <= digits_value(d),
    decreases d.len(),
{
    if k < d.len() {
        let p = d.drop_last();
        assert(p.take(k) =~= d.take(k));
        assert(is_digit(d[d.len() - 1]));
        lemma_digits_value_grows(p, k);
        lemma_digits_value_grows(p, p.len() as int);
        assert(p.take(p.len() as int) =~= p);
    } else {
        assert(d.take(k) =~= d);
        if d.len() > 0 {
            let p = d.drop_last();
            assert(is_digit(d[d.len() - 1]));
            lemma_digits_value_grows(p, p.len() as int);
            assert(p.take(p.len() as int) =~= p);
        }
    }
}

/// Reads a guess from a line: the number it writes in decimal, once leading
/// and trailing whitespace are taken off.
pub fn read_guess(line: &str) -> (r: Option<u32>)
    ensures
        r == decimal_u32(trim_end(trim_start(line@))),
{
    let n = line.unicode_len();
    let ghost s = line@;
    let mut a: usize = 0;
    assert(s.skip(0) =~= s);
    while a < n && space(line.get_char(a))
        invariant
            n == s.len(),
            s == line@,
            a <= n,
            trim_start(s) == trim_start(s.skip(a as int)),
        decreases n - a,
    {
        assert(s.skip(a as int).drop_first() =~= s.skip(a + 1));
        a = a + 1;
    }
    assert(trim_start(s) == s.skip(a as int));
    let mut b: usize = n;
    assert(s.skip(a as int) =~= s.subrange(a as int, n as int));
    while b > a && space(line.get_char(b - 1))
        invariant
            n == s.len(),
            s == line@,
            a <= b <= n,
            trim_end(trim_start(s)) == trim_end(s.subrange(a as int, b as int)),
        decreases b - a,
    {
        assert(s.subrange(a as int, b as int).drop_last() =~= s.subrange(a as int, b - 1));
        b = b - 1;
    }
    let ghost t = s.subrange(a as int, b as int);
    assert(trim_end(trim_start(s)) == t);
    let mut p = a;
    if p < b && line.get_char(p) == '+' {
        p = p + 1;
    }
    let ghost d = s.subrange(p as int, b as int);
    assert(d =~= unsigned_part(t));
    if p == b {
        return None;
    }
    let mut acc: u64 = 0;
    let mut q = p;
    assert(d.take(0) =~= Seq::<char>::empty());
    while q < b
        invariant
            s == line@,
            n == s.len(),
            p <= q <= b <= n,
            d == s.subrange(p as int, b as int),
            d == unsigned_part(t),
            trim_end(trim_start(s)) == t,
            forall|i: int| 0 <= i < q - p ==> is_digit(#[trigger] d[i]),
            acc == digits_value(d.take(q - p)),
            acc <= u32::MAX,
        decreases b - q,
    {
        let c = line.get_char(q);
        assert(c == d[q - p]);
        if !('0' <= c && c <= '9') {
            assert(!is_digit(d[q - p]));
            assert(!all_digits(d));
            return None;
        }
        assert(d.take(q - p + 1).drop_last() =~= d.take(q - p));
        assert(d.take(q - p + 1).last() == c);
        acc = acc * 10 + (c as u64 - '0' as u64);
        assert(acc == digits_value(d.take(q - p + 1)));
        if acc > 4294967295 {
            proof {
                if all_digits(d) {
                    lemma_digits_value_grows(d, q - p + 1);
                }
            }
            return None;
        }
        q = q + 1;
    }
    assert(d.take(q - p) =~= d);
    Some(acc as u32)
}

/// A round of the game: a secret number between 1 and 100.
pub struct Game {
    secret: u32,
}

impl Game {
    #[verifier::type_invariant]
    spec fn inv(&self) -> bool {
        1 <= self.secret <= 100
    }

    /// The number to be guessed.
    pub closed spec fn spec_secret(&self) -> u32 {
        self.secret
    }

    /// Starts a round with a secret drawn at random.
    pub fn new() -> (g: Game)
        ensures
            1 <= g.spec_secret() <= 100,
    {
        Game { secret: draw_secret() }
    }

    /// Starts a round with the given secret.
    pub fn with_secret(secret: u32) -> (g: Game)
        requires
            1 <= secret <= 100,
        ensures
            g.spec_secret() == secret,
    {
        Game { secret }
    }

    /// The number to be guessed.
    pub fn secret(&self) -> (r: u32)
        ensures
            r == self.spec_secret(),
            1 <= r <= 100,
    {
        proof {
            use_type_invariant(self);
        }
        self.secret
    }

    /// Judges a typed guess against the secret.
    pub fn guess(&self, line: &str) -> (v: Verdict)
        ensures
            v == verdict(decimal_u32(trim_end(trim_start(line@))), self.spec_secret()),
    {
        match read_guess(line) {
            None => Verdict::NotANumber,
            Some(n) => if n < self.secret {
                Verdict::TooSmall
            } else if n > self.secret {
                Verdict::TooBig
            } else {
                Verdict::Win
            },
        }
    }
}

} // verus!
