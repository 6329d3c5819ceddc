use vstd::prelude::*;

verus! {

/// The new top of a window of `length` cells along one axis so that `cursor`
/// is visible: unchanged when the cursor already shows, otherwise the
/// smallest move that brings it to the near edge. A window of length zero
/// follows the cursor as if it were one cell long.
pub open spec fn follow(prev_top: int, cursor: int, length: int) -> int {
    let len = if length <= 0 { 1 } else { length };
    if cursor < prev_top {
        cursor
    } else if prev_top + len <= cursor {
        cursor + 1 - len
    } else {
        prev_top
    }
}

/// Cursor-follow along one axis.
pub fn next_scroll_top(prev_top: u64, cursor: u64, length: u64) -> (r: u64)
    ensures
        r as int == follow(prev_top as int, cursor as int, length as int),
        length > 0 ==> r <= cursor && cursor <= r + length - 1,
        length > 0 && prev_top <= cursor && cursor <= prev_top + length - 1 ==> r == prev_top,
{
    let len: u64 = if length == 0 { 1 } else { length };
    if cursor < prev_top {
        cursor
    } else if len <= cursor - prev_top {
        cursor - len + 1
    } else {
        prev_top
    }
}

/// Number of decimal digits of `n` (`0` has one digit).
pub open spec fn digit_count(n: nat) -> nat
    decreases n,
{
    if n < 10 {
        1
    } else {
        1 + digit_count(n / 10)
    }
}

/// `10` to the power `k`.
pub open spec fn pow10(k: nat) -> nat
    decreases k,
{
    if k == 0 {
        1
    } else {
        10 * pow10((k - 1) as nat)
    }
}

/// A number below `10^k` has at most `k` digits.
pub proof fn lemma_digit_count_bound(n: nat, k: nat)
    requires
        k >= 1,
        n < pow10(k),
    ensures
        digit_count(n) <= k,
    decreases k,
{
    if n >= 10 {
        assert(k >= 2) by {
            if k == 1 {
                reveal_with_fuel(pow10, 2);
            }
        }
        assert(n / 10 < pow10((k - 1) as nat)) by (nonlinear_arith)
            requires
                n < pow10(k),
                pow10(k) == 10 * pow10((k - 1) as nat),
        ;
        lemma_digit_count_bound(n / 10, (k - 1) as nat);
    }
}

/// Decimal digit count of `n`.
pub fn num_digits(n: usize) -> (r: u8)
    ensures
        r as nat == digit_count(n as nat),
{
    proof {
        reveal_with_fuel(pow10, 21);
        assert(pow10(20) == 100000000000000000000nat);
        lemma_digit_count_bound(n as nat, 20);
    }
    let mut m: usize = n;
    let mut count: u8 = 1;
    while m >= 10
        invariant
            count as nat + digit_count(m as nat) == digit_count(n as nat) + 1,
            1 <= count,
            digit_count(n as nat) <= 20,
        decreases m,
    {
        m = m / 10;
        count = count + 1;
    }
    count
}

} // verus!
