//! Unsigned variable-length integers: seven bits a byte, the lowest first, with the top bit set
//! on every byte but the last.

use vstd::prelude::*;

verus! {

/// How many values a `u64` has. A longer number is read modulo this.
pub open spec fn u64_range() -> nat {
    0x1_0000_0000_0000_0000
}

/// The shortest encoding of a number.
pub open spec fn varint_bytes(n: nat) -> Seq<u8>
    decreases n,
{
    if n < 128 {
        seq![n as u8]
    } else {
        seq![(n % 128 + 128) as u8] + varint_bytes(n / 128)
    }
}

/// The number that a sequence of seven-bit digits stands for; the top bits do not count.
pub open spec fn varint_value(s: Seq<u8>) -> nat
    decreases s.len(),
{
    if s.len() == 0 {
        0
    } else {
        (s[0] % 128) as nat + 128 * varint_value(s.skip(1))
    }
}

/// Whether a whole sequence is one encoded number: at most ten bytes, the top bit set on every
/// byte but the last, and no final zero byte that could have been left out.
pub open spec fn is_varint(s: Seq<u8>) -> bool {
    &&& 1 <= s.len() <= 10
    &&& forall|i: int| 0 <= i < s.len() - 1 ==> s[i] >= 128
    &&& s[s.len() - 1] < 128
    &&& s.len() > 1 ==> s[s.len() - 1] != 0
}

/// Whether the first `n` bytes of `s` are one encoded number.
pub open spec fn varint_ends_at(s: Seq<u8>, n: int) -> bool {
    0 <= n <= s.len() && is_varint(s.take(n))
}

/// Takes one encoded number off the front of `s`: the number and the bytes behind it, or nothing
/// where `s` does not begin with one.
pub open spec fn read_varint(s: Seq<u8>) -> Option<(u64, Seq<u8>)> {
    if exists|n: int| varint_ends_at(s, n) {
        let n = choose|n: int| varint_ends_at(s, n);
        Some(((varint_value(s.take(n)) % u64_range()) as u64, s.skip(n)))
    } else {
        None
    }
}

/// The end of the first number is where the first byte without a top bit stands.
proof fn lemma_varint_end_unique(s: Seq<u8>, a: int, b: int)
    requires
        varint_ends_at(s, a),
        varint_ends_at(s, b),
    ensures
        a == b,
{
    if a < b {
        assert(s.take(a)[a - 1] < 128);
        assert(s.take(b)[a - 1] >= 128);
    } else if b < a {
        assert(s.take(b)[b - 1] < 128);
        assert(s.take(a)[b - 1] >= 128);
    }
}

/// An encoded number in front of other bytes is read as that number, without the bits that a `u64`
/// has no room for, and leaves the other bytes.
pub proof fn lemma_read_varint_number(number: Seq<u8>, rest: Seq<u8>)
    requires
        is_varint(number),
    ensures
        read_varint(number + rest) == Some(
            ((varint_value(number) % 0x1_0000_0000_0000_0000) as u64, rest),
        ),
{
    let s = number + rest;
    let end = number.len() as int;
    assert(s.take(end) =~= number);
    assert(s.skip(end) =~= rest);
    assert(varint_ends_at(s, end));
    lemma_varint_end_unique(s, end, choose|k: int| varint_ends_at(s, k));
}

/// Where the first byte without a top bit stands decides whether there is a number: it is one of
/// the first ten, and not a zero behind other bytes. Without such a byte there is none.
pub proof fn lemma_read_varint_exists(s: Seq<u8>, last: int)
    requires
        0 <= last <= s.len(),
        forall|i: int| 0 <= i < last ==> #[trigger] s[i] >= 128,
        last < s.len() ==> s[last] < 128,
    ensures
        read_varint(s) is Some <==> last < s.len() && last < 10 && (last == 0 || s[last] != 0),
        read_varint(s) matches Some((_, rest)) ==> rest == s.skip(last + 1),
{
    if exists|n: int| varint_ends_at(s, n) {
        let n = choose|n: int| varint_ends_at(s, n);
        assert(s.take(n)[n - 1] == s[n - 1]);
        assert(n - 1 >= last);
        if last < n - 1 {
            assert(s.take(n)[last] >= 128);
        }
    } else if last < s.len() && last < 10 && (last == 0 || s[last] != 0) {
        assert(varint_ends_at(s, last + 1));
    }
}

/// Each byte more adds its seven bits above those of the bytes before it.
pub proof fn lemma_varint_value_push(s: Seq<u8>, b: u8)
    ensures
        varint_value(Seq::<u8>::empty()) == 0,
        varint_value(s.push(b)) == varint_value(s) + vstd::arithmetic::power::pow(128, s.len()) * (b
            % 128),
    decreases s.len(),
{
    reveal(vstd::arithmetic::power::pow);
    if s.len() == 0 {
        assert(s.push(b).skip(1) =~= Seq::<u8>::empty());
        assert(vstd::arithmetic::power::pow(128, 0) == 1);
    } else {
        let rest = s.skip(1);
        assert(s.push(b).skip(1) =~= rest.push(b));
        lemma_varint_value_push(rest, b);
        let unit = vstd::arithmetic::power::pow(128, rest.len());
        let bits = (b % 128) as int;
        assert(vstd::arithmetic::power::pow(128, s.len()) == 128 * unit);
        assert(128 * (unit * bits) == (128 * unit) * bits) by (nonlinear_arith);
    }
}

/// An encoding is a string of continued bytes with a last byte that is neither continued nor,
/// except for the number zero, empty; it gives its number back.
pub proof fn lemma_varint_bytes(n: nat)
    ensures
        varint_bytes(n).len() >= 1,
        forall|i: int| 0 <= i < varint_bytes(n).len() - 1 ==> varint_bytes(n)[i] >= 128,
        varint_bytes(n)[varint_bytes(n).len() - 1] < 128,
        n > 0 ==> varint_bytes(n)[varint_bytes(n).len() - 1] != 0,
        n >= 128 <==> varint_bytes(n).len() > 1,
        varint_value(varint_bytes(n)) == n,
    decreases n,
{
    let s = varint_bytes(n);
    if n < 128 {
        assert(s.skip(1).len() == 0);
        assert(varint_value(s.skip(1)) == 0);
    } else {
        let tail = varint_bytes(n / 128);
        lemma_varint_bytes(n / 128);
        assert(s.skip(1) =~= tail);
        assert forall|i: int| 0 <= i < s.len() - 1 implies s[i] >= 128 by {
            if i > 0 {
                assert(s[i] == tail[i - 1]);
            }
        }
        assert(s[s.len() - 1] == tail[tail.len() - 1]);
        let first = (n % 128 + 128) as u8;
        assert(s[0] == first);
        assert(first % 128 == n % 128);
    }
}

/// A number below `128^k` takes at most `k` bytes, for the sizes that a `u64` can reach.
proof fn lemma_varint_length(n: nat, bound: nat, k: nat)
    requires
        n < bound,
        bound == vstd::arithmetic::power::pow(128, k),
        k >= 1,
    ensures
        varint_bytes(n).len() <= k,
    decreases k,
{
    reveal(vstd::arithmetic::power::pow);
    if n >= 128 {
        if k == 1 {
            assert(vstd::arithmetic::power::pow(128, 0) == 1);
            assert(false);
        } else {
            let smaller = vstd::arithmetic::power::pow(128, (k - 1) as nat) as nat;
            vstd::arithmetic::power::lemma_pow_positive(128, (k - 1) as nat);
            assert(bound == 128 * smaller);
            assert(n / 128 < smaller) by (nonlinear_arith)
                requires
                    n < 128 * smaller,
            ;
            lemma_varint_length(n / 128, smaller, (k - 1) as nat);
        }
    }
}

/// Reading what was written gives the number back and leaves what was behind it.
pub proof fn lemma_varint_round_trip(n: u64, rest: Seq<u8>)
    ensures
        read_varint(varint_bytes(n as nat) + rest) == Some((n, rest)),
{
    let bytes = varint_bytes(n as nat);
    let s = bytes + rest;
    let end = bytes.len() as int;
    lemma_varint_bytes(n as nat);
    assert(vstd::arithmetic::power::pow(128, 10) == 0x40_0000_0000_0000_0000) by {
        reveal_with_fuel(vstd::arithmetic::power::pow, 11);
    }
    lemma_varint_length(n as nat, 0x40_0000_0000_0000_0000, 10);
    assert(s.take(end) =~= bytes);
    assert(s.skip(end) =~= rest);
    assert(varint_ends_at(s, end));
    let found = choose|k: int| varint_ends_at(s, k);
    lemma_varint_end_unique(s, end, found);
}

} // verus!
