//! Decimal amounts: parsing base-unit values and rendering them with 18 decimals.
use vstd::prelude::*;
use vstd::string::*;
use vstd::utf8::encode_utf8;
use crate::digest::u256_decimal;
use crate::text::{be_value, decimal_digit, decimal_text, padded_decimal};

verus! {

/// Base units per whole coin.
pub const WEI_PER_ETH: u128 = 1_000_000_000_000_000_000;

/// Whether a byte is an ASCII decimal digit.
pub open spec fn is_digit(c: u8) -> bool {
    48 <= c <= 57
}

/// The value of a sequence of decimal digit bytes.
pub open spec fn digits_value(b: Seq<u8>) -> nat
    decreases b.len(),
{
    if b.len() == 0 {
        0
    } else {
        digits_value(b.drop_last()) * 10 + (b.last() - 48) as nat
    }
}

/// The digits of an unsigned integer text, after an optional leading `+`.
pub open spec fn unsigned_body(b: Seq<u8>) -> Seq<u8> {
    if b.len() > 0 && b[0] == 43 { b.drop_first() } else { b }
}

/// Whether a text reads as an unsigned integer (std's rule for `u128`).
pub open spec fn is_unsigned_text(b: Seq<u8>) -> bool {
    let d = unsigned_body(b);
    d.len() > 0 && forall|i: int| 0 <= i < d.len() ==> is_digit(#[trigger] d[i])
}

/// The base-unit value a text stands for: its number when it reads as one that
/// fits in 128 bits, otherwise nothing.
pub open spec fn wei_value(s: Seq<char>) -> Option<nat> {
    let b = encode_utf8(s);
    if is_unsigned_text(b) && digits_value(unsigned_body(b)) <= u128::MAX {
        Some(digits_value(unsigned_body(b)))
    } else {
        None
    }
}

/// The fixed 18-decimal display form of a base-unit amount.
pub open spec fn eth_text(wei: nat) -> Seq<char> {
    decimal_text(wei / WEI_PER_ETH as nat) + seq!['.'] + padded_decimal(wei % WEI_PER_ETH as nat, 18)
}

proof fn lemma_digits_value_monotone(b: Seq<u8>, i: int, j: int)
    requires
        0 <= i <= j <= b.len(),
        forall|k: int| 0 <= k < b.len() ==> is_digit(#[trigger] b[k]),
    ensures
        digits_value(b.subrange(0, i)) <= digits_value(b.subrange(0, j)),
    decreases j - i,
{
    if i < j {
        lemma_digits_value_monotone(b, i, j - 1);
        assert(b.subrange(0, j).drop_last() == b.subrange(0, j - 1));
    }
}

/// Parses an unsigned decimal text into a base-unit value.
pub fn parse_wei(s: &str) -> (r: Option<u128>)
    ensures
        wei_value(s@) == (match r { Some(v) => Some(v as nat), None => None::<nat> }),
{
    let b = s.as_bytes();
    let ghost bs = b@;
    assert(bs == encode_utf8(s@));
    let mut start: usize = 0;
    if b.len() > 0 && b[0] == 43 {
        start = 1;
    }
    let ghost body = unsigned_body(bs);
    assert(body == bs.subrange(start as int, bs.len() as int));
    if start >= b.len() {
        return None;
    }
    let mut acc: u128 = 0;
    let mut i: usize = start;
    while i < b.len()
        invariant
            start <= i <= b@.len(),
            b@ == bs,
            body == bs.subrange(start as int, bs.len() as int),
            body == unsigned_body(bs),
            bs == encode_utf8(s@),
            forall|k: int| 0 <= k < i - start ==> is_digit(#[trigger] body[k]),
            acc as nat == digits_value(body.subrange(0, i - start)),
        decreases b@.len() - i,
    {
        let c = b[i];
        if c < 48 || c > 57 {
            assert(body[i - start] == c);
            assert(!is_digit(body[i - start]));
            return None;
        }
        proof {
            assert(body.subrange(0, i + 1 - start).drop_last() == body.subrange(0, i - start));
            assert(body[i - start] == c);
        }
        let d: u128 = (c - 48) as u128;
        if acc > (u128::MAX - d) / 10 {
            proof {
                assert(forall|k: int| 0 <= k < i + 1 - start ==> is_digit(#[trigger] body[k]));
                assert(digits_value(body.subrange(0, i + 1 - start)) > u128::MAX) by (nonlinear_arith)
                    requires
                        acc > (u128::MAX - d) / 10,
                        digits_value(body.subrange(0, i + 1 - start)) == acc * 10 + d,
                        d <= 9,
                ;
                let n = i + 1 - start;
                let m = bs.len() - start;
                if is_unsigned_text(bs) {
                    assert(body.len() == m);
                    assert(forall|k: int| 0 <= k < body.len() ==> is_digit(#[trigger] body[k]));
                    lemma_digits_value_monotone(body, n, m);
                    assert(body.subrange(0, m) == body);
                }
            }
            return None;
        }
        acc = acc * 10 + d;
        i = i + 1;
    }
    proof {
        assert(body.subrange(0, bs.len() - start) == body);
    }
    Some(acc)
}

/// The text of one decimal digit.
fn digit_str(d: u128) -> (r: &'static str)
    requires
        d < 10,
    ensures
        r@ == seq![decimal_digit(d as int)],
{
    proof {
        reveal_strlit("0");
        reveal_strlit("1");
        reveal_strlit("2");
        reveal_strlit("3");
        reveal_strlit("4");
        reveal_strlit("5");
        reveal_strlit("6");
        reveal_strlit("7");
        reveal_strlit("8");
        reveal_strlit("9");
    }
    if d == 0 { "0" } else if d == 1 { "1" } else if d == 2 { "2" } else if d == 3 { "3" }
    else if d == 4 { "4" } else if d == 5 { "5" } else if d == 6 { "6" } else if d == 7 { "7" }
    else if d == 8 { "8" } else { "9" }
}

/// The decimal notation of an integer.
pub fn decimal_string(n: u128) -> (r: String)
    ensures
        r@ == decimal_text(n as nat),
{
    let mut rest: u128 = n / 10;
    let mut out: String = digit_str(n % 10).to_owned();
    while rest > 0
        invariant
            rest > 0 ==> decimal_text(n as nat) == decimal_text(rest as nat) + out@,
            rest == 0 ==> decimal_text(n as nat) == out@,
        decreases rest,
    {
        let head: String = digit_str(rest % 10).to_owned();
        proof {
            let r = rest as nat;
            if r >= 10 {
                assert(decimal_text(r) == decimal_text(r / 10).push(decimal_digit((r % 10) as int)));
                assert(decimal_text(r) + out@ == decimal_text(r / 10) + (head@ + out@));
            } else {
                assert(decimal_text(r) == head@);
            }
        }
        out = head.concat(out.as_str());
        rest = rest / 10;
    }
    out
}

/// The last `k` decimal digits of `n`, padded with leading zeros.
fn padded_string(n: u128, k: usize) -> (r: String)
    ensures
        r@ == padded_decimal(n as nat, k as nat),
{
    let mut rest: u128 = n;
    let mut left: usize = k;
    let mut out: String = String::new();
    while left > 0
        invariant
            padded_decimal(n as nat, k as nat) == padded_decimal(rest as nat, left as nat) + out@,
        decreases left,
    {
        let head: String = digit_str(rest % 10).to_owned();
        proof {
            let r = rest as nat;
            let l = left as nat;
            assert(padded_decimal(r, l) == padded_decimal(r / 10, (l - 1) as nat).push(decimal_digit((r % 10) as int)));
            assert(padded_decimal(r, l) + out@ == padded_decimal(r / 10, (l - 1) as nat) + (head@ + out@));
        }
        out = head.concat(out.as_str());
        rest = rest / 10;
        left = left - 1;
    }
    assert(padded_decimal(rest as nat, 0) + out@ == out@);
    out
}

/// The fixed 18-decimal display form of a base-unit amount.
pub fn format_eth(wei: u128) -> (r: String)
    ensures
        r@ == eth_text(wei as nat),
{
    let whole = decimal_string(wei / WEI_PER_ETH);
    let frac = padded_string(wei % WEI_PER_ETH, 18);
    proof {
        reveal_strlit(".");
    }
    let with_point = whole.concat(".");
    with_point.concat(frac.as_str())
}

/// The whole coins of a 32-byte big-endian amount, again as 32 big-endian
/// bytes, and the base units left over.
fn split_coins(word: &[u8]) -> (r: (Vec<u8>, u128))
    requires
        word@.len() == 32,
    ensures
        r.0@.len() == 32,
        be_value(r.0@) == be_value(word@) / WEI_PER_ETH as nat,
        r.1 as nat == be_value(word@) % WEI_PER_ETH as nat,
{
    let mut q: Vec<u8> = Vec::new();
    let mut rem: u128 = 0;
    let mut i: usize = 0;
    assert(word@.subrange(0, 0) =~= Seq::<u8>::empty());
    assert(q@ =~= Seq::<u8>::empty());
    while i < 32
        invariant
            i <= 32,
            word@.len() == 32,
            q@.len() == i,
            rem < WEI_PER_ETH,
            be_value(word@.subrange(0, i as int)) == be_value(q@) * WEI_PER_ETH as nat + rem as nat,
        decreases 32 - i,
    {
        let byte = word[i];
        let cur: u128 = rem * 256 + byte as u128;
        let digit: u128 = cur / WEI_PER_ETH;
        let next: u128 = cur % WEI_PER_ETH;
        proof {
            let d = WEI_PER_ETH as int;
            assert(cur < 256 * d) by (nonlinear_arith)
                requires
                    cur == rem * 256 + byte,
                    rem < d,
                    byte < 256,
            ;
            assert(digit < 256) by (nonlinear_arith)
                requires
                    digit as int == cur as int / d,
                    cur < 256 * d,
                    d > 0,
            ;
        }
        let ghost old_q = q@;
        q.push(digit as u8);
        proof {
            let d = WEI_PER_ETH as int;
            let pre = word@.subrange(0, i as int);
            let post = word@.subrange(0, i + 1);
            assert(post.drop_last() == pre);
            assert(q@.drop_last() == old_q);
            assert(be_value(post) == be_value(pre) * 256 + byte as nat);
            assert(be_value(q@) == be_value(old_q) * 256 + digit as nat);
            assert(cur == digit * d + next) by (nonlinear_arith)
                requires
                    digit as int == cur as int / d,
                    next as int == cur as int % d,
                    d > 0,
            ;
            let bq = be_value(old_q) as int;
            assert((bq * d + rem) * 256 + byte == (bq * 256 + digit) * d + next) by (nonlinear_arith)
                requires
                    cur == digit * d + next,
                    cur == rem * 256 + byte,
            ;
        }
        rem = next;
        i = i + 1;
    }
    proof {
        assert(word@.subrange(0, 32) == word@);
        vstd::arithmetic::div_mod::lemma_fundamental_div_mod_converse(
            be_value(word@) as int,
            WEI_PER_ETH as int,
            be_value(q@) as int,
            rem as int,
        );
    }
    (q, rem)
}

/// The fixed 18-decimal display form of a 32-byte big-endian amount.
pub fn format_eth_word(word: &[u8]) -> (r: String)
    requires
        word@.len() == 32,
    ensures
        r@ == eth_text(be_value(word@)),
{
    let (coins, rest) = split_coins(word);
    let whole = u256_decimal(coins.as_slice());
    let frac = padded_string(rest, 18);
    proof {
        reveal_strlit(".");
    }
    let with_point = whole.concat(".");
    with_point.concat(frac.as_str())
}

} // verus!
