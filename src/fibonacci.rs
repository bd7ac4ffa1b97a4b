//! The Fibonacci sequence.
use vstd::prelude::*;

verus! {

/// The `i`-th Fibonacci number, counting from `fib(0) == 0`.
pub open spec fn fib(i: nat) -> nat
    decreases i,
{
    if i == 0 {
        0
    } else if i == 1 {
        1
    } else {
        fib((i - 1) as nat) + fib((i - 2) as nat)
    }
}

/// How many numbers `fib_n(n)` returns: `n` of them, but at least two, and
/// one for `n == 0`.
pub open spec fn fib_count(n: int) -> nat {
    if n == 0 {
        1
    } else if n <= 2 {
        2
    } else {
        n as nat
    }
}

proof fn lemma_fib_monotonic(i: nat, j: nat)
    requires
        i <= j,
    ensures
        fib(i) <= fib(j),
    decreases j,
{
    if i < j {
        lemma_fib_monotonic(i, (j - 1) as nat);
    }
}

/// The largest Fibonacci number that fits in an `i32`.
proof fn lemma_fib_46()
    ensures
        fib(46) == 1836311903,
{
    assert(fib(0) == 0);
    assert(fib(1) == 1);
    assert(fib(2) == 1);
    assert(fib(3) == 2);
    assert(fib(4) == 3);
    assert(fib(5) == 5);
    assert(fib(6) == 8);
    assert(fib(7) == 13);
    assert(fib(8) == 21);
    assert(fib(9) == 34);
    assert(fib(10) == 55);
    assert(fib(11) == 89);
    assert(fib(12) == 144);
    assert(fib(13) == 233);
    assert(fib(14) == 377);
    assert(fib(15) == 610);
    assert(fib(16) == 987);
    assert(fib(17) == 1597);
    assert(fib(18) == 2584);
    assert(fib(19) == 4181);
    assert(fib(20) == 6765);
    assert(fib(21) == 10946);
    assert(fib(22) == 17711);
    assert(fib(23) == 28657);
    assert(fib(24) == 46368);
    assert(fib(25) == 75025);
    assert(fib(26) == 121393);
    assert(fib(27) == 196418);
    assert(fib(28) == 317811);
    assert(fib(29) == 514229);
    assert(fib(30) == 832040);
    assert(fib(31) == 1346269);
    assert(fib(32) == 2178309);
    assert(fib(33) == 3524578);
    assert(fib(34) == 5702887);
    assert(fib(35) == 9227465);
    assert(fib(36) == 14930352);
    assert(fib(37) == 24157817);
    assert(fib(38) == 39088169);
    assert(fib(39) == 63245986);
    assert(fib(40) == 102334155);
    assert(fib(41) == 165580141);
    assert(fib(42) == 267914296);
    assert(fib(43) == 433494437);
    assert(fib(44) == 701408733);
    assert(fib(45) == 1134903170);
    assert(fib(46) == 1836311903);
}

/// The Fibonacci numbers from `fib(0)` on, as many as `fib_count(n)` says:
/// `fib_n(5)` is `[0, 1, 1, 2, 3]`. The last one must fit in an `i32`.
pub fn fib_n(n: i32) -> (r: Vec<i32>)
    requires
        n <= 47,
    ensures
        r@.len() == fib_count(n as int),
        forall|i: int| 0 <= i < r@.len() ==> r@[i] as int == fib(i as nat),
{
    let mut fibs: Vec<i32> = Vec::new();
    fibs.push(0);
    if n == 0 {
        return fibs;
    }
    fibs.push(1);
    let mut k: i32 = 2;
    while k < n
        invariant
            2 <= k,
            k <= n || k == 2,
            n <= 47,
            fibs@.len() == k,
            forall|i: int| 0 <= i < fibs@.len() ==> fibs@[i] as int == fib(i as nat),
        decreases n - k,
    {
        proof {
            lemma_fib_46();
            lemma_fib_monotonic(k as nat, 46);
        }
        let next = fibs[fibs.len() - 1] + fibs[fibs.len() - 2];
        fibs.push(next);
        k = k + 1;
    }
    fibs
}

} // verus!
