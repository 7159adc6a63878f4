use vstd::prelude::*;

verus! {

/// The Fibonacci numbers: 0, 1, 1, 2, 3, 5, ...
pub open spec fn fib(i: nat) -> nat
    decreases i,
{
    if i == 0 {
        0
    } else if i == 1 {
        1
    } else {
        fib((i - 1) as nat) + fib((i - 2) as nat)
    }
}

/// The largest index whose Fibonacci number fits in a `u64`.
pub const LAST_FIB_U64: usize = 93;

proof fn lemma_fib_monotonic(i: nat, j: nat)
    requires
        i <= j,
    ensures
        fib(i) <= fib(j),
    decreases j - i,
{
    if i < j {
        lemma_fib_monotonic(i, (j - 1) as nat);
        if j >= 2 {
            assert(fib(j) == fib((j - 1) as nat) + fib((j - 2) as nat));
        }
    }
}

/// Ten steps at once: both numbers ten and eleven places on are sums of
/// the two at `n` and `n + 1`.
proof fn lemma_fib_jump(n: nat)
    ensures
        fib(n + 10) == 34 * fib(n) + 55 * fib(n + 1),
        fib(n + 11) == 55 * fib(n) + 89 * fib(n + 1),
{
    let a = fib(n);
    let b = fib(n + 1);
    assert(fib(n + 2) == a + b);
    assert(fib(n + 3) == a + 2 * b);
    assert(fib(n + 4) == 2 * a + 3 * b);
    assert(fib(n + 5) == 3 * a + 5 * b);
    assert(fib(n + 6) == 5 * a + 8 * b);
    assert(fib(n + 7) == 8 * a + 13 * b);
    assert(fib(n + 8) == 13 * a + 21 * b);
    assert(fib(n + 9) == 21 * a + 34 * b);
    assert(fib(n + 10) == 34 * a + 55 * b);
    assert(fib(n + 11) == 55 * a + 89 * b);
}

proof fn lemma_fib_fits()
    ensures
        fib(LAST_FIB_U64 as nat) <= u64::MAX,
{
    reveal_with_fuel(fib, 2);
    lemma_fib_jump(0);
    lemma_fib_jump(10);
    lemma_fib_jump(20);
    lemma_fib_jump(30);
    lemma_fib_jump(40);
    lemma_fib_jump(50);
    lemma_fib_jump(60);
    lemma_fib_jump(70);
    lemma_fib_jump(80);
    lemma_fib_jump(82);
}

/// The first `n` Fibonacci numbers. Past `LAST_FIB_U64 + 1` of them the
/// next one no longer fits in a `u64`.
pub fn fibonacci(n: usize) -> (r: Vec<u64>)
    requires
        n <= LAST_FIB_U64 + 1,
    ensures
        r@.len() == n,
        forall|i: int| 0 <= i < n ==> r@[i] == fib(i as nat),
{
    if n == 0 {
        return Vec::new();
    }
    if n == 1 {
        return vec![0];
    }
    let mut seq: Vec<u64> = vec![0, 1];
    proof {
        reveal_with_fuel(fib, 2);
        lemma_fib_fits();
    }
    let mut i: usize = 2;
    while i < n
        invariant
            2 <= i <= n <= LAST_FIB_U64 + 1,
            seq@.len() == i,
            forall|j: int| 0 <= j < i ==> seq@[j] == fib(j as nat),
            fib(LAST_FIB_U64 as nat) <= u64::MAX,
        decreases n - i,
    {
        proof {
            lemma_fib_monotonic(i as nat, LAST_FIB_U64 as nat);
            assert(fib(i as nat) == fib((i - 1) as nat) + fib((i - 2) as nat));
        }
        let next = seq[i - 1] + seq[i - 2];
        seq.push(next);
        i = i + 1;
    }
    seq
}

/// The largest item, or `None` for an empty slice.
pub fn find_max(items: &[i64]) -> (r: Option<i64>)
    ensures
        items@.len() == 0 ==> r is None,
        items@.len() > 0 ==> (r matches Some(m) && items@.contains(m)
            && forall|i: int| 0 <= i < items@.len() ==> items@[i] <= m),
{
    if items.len() == 0 {
        return None;
    }
    let mut best = items[0];
    let ghost mut at: int = 0;
    let mut i: usize = 1;
    while i < items.len()
        invariant
            1 <= i <= items@.len(),
            0 <= at < i,
            items@[at] == best,
            forall|j: int| 0 <= j < i ==> items@[j] <= best,
        decreases items@.len() - i,
    {
        if items[i] > best {
            best = items[i];
            proof {
                at = i as int;
            }
        }
        i = i + 1;
    }
    Some(best)
}

} // verus!
