//! Decimal rendering of unsigned integers, used wherever the library builds
//! a message or a cache key that carries a number.

use vstd::prelude::*;

verus! {

/// The digit character for `d` (meaningful for `0 <= d < 10`).
pub open spec fn spec_digit_char(d: int) -> char {
    ((48 + d) as u32) as char
}

/// The decimal digits of `n`, most significant first, with no leading zeros
/// (a single `'0'` for zero).
pub open spec fn spec_decimal(n: nat) -> Seq<char>
    decreases n,
{
    if n < 10 {
        seq![spec_digit_char(n as int)]
    } else {
        spec_decimal(n / 10).push(spec_digit_char((n % 10) as int))
    }
}

fn digit_char(d: u64) -> (c: char)
    requires
        d < 10,
    ensures
        c == spec_digit_char(d as int),
{
    (48 + d as u32) as u8 as char
}

/// The decimal rendering of `n`, exactly as `format!("{}", n)` writes it.
pub fn u64_to_string(n: u64) -> (s: String)
    ensures
        s@ == spec_decimal(n as nat),
{
    let mut acc: Vec<char> = Vec::new();
    let mut rest: u64 = n;
    let c0: char = digit_char(rest % 10);
    acc.insert(0, c0);
    proof {
        assert(acc@ =~= spec_decimal((rest % 10) as nat));
    }
    rest = rest / 10;
    while rest > 0
        invariant
            rest > 0 ==> spec_decimal(n as nat) == spec_decimal(rest as nat) + acc@,
            rest == 0 ==> spec_decimal(n as nat) == acc@,
        decreases rest,
    {
        let d: u64 = rest % 10;
        let next: u64 = rest / 10;
        let ghost prev = acc@;
        acc.insert(0, digit_char(d));
        proof {
            assert(acc@ =~= seq![spec_digit_char(d as int)] + prev);
            if next > 0 {
                assert(spec_decimal(rest as nat) == spec_decimal(next as nat).push(
                    spec_digit_char(d as int),
                ));
                assert(spec_decimal(next as nat) + acc@ =~= spec_decimal(rest as nat) + prev);
            } else {
                assert(spec_decimal(rest as nat) =~= seq![spec_digit_char(d as int)]);
                assert(acc@ =~= spec_decimal(rest as nat) + prev);
            }
        }
        rest = next;
    }
    crate::chars::chars_to_string(&acc)
}

/// The decimal rendering of a `usize`.
pub fn usize_to_string(n: usize) -> (s: String)
    ensures
        s@ == spec_decimal(n as nat),
{
    u64_to_string(n as u64)
}

/// The decimal rendering of a `u32`.
pub fn u32_to_string(n: u32) -> (s: String)
    ensures
        s@ == spec_decimal(n as nat),
{
    u64_to_string(n as u64)
}

} // verus!
