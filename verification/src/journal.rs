//! The persisted form of the sign-in failure journal.
//!
//! The journal is stored per user as a small JSON object whose field
//! names are part of the compatibility surface.  Rendering and parsing
//! are written out here against a byte-level grammar, and reading back
//! what was written is proved to restore the journal.

use vstd::prelude::*;
use crate::errors::{IncorrectCredentialsCount, SignInFailure, journal_wf};

verus! {

/// The bytes of `{"retry_count":`.
pub open spec fn lit_head() -> Seq<u8> {
    seq![0x7bu8, 0x22u8, 0x72u8, 0x65u8, 0x74u8, 0x72u8, 0x79u8, 0x5fu8, 0x63u8, 0x6fu8, 0x75u8, 0x6eu8, 0x74u8, 0x22u8, 0x3au8]
}

/// The bytes of `,"error":`.
pub open spec fn lit_error() -> Seq<u8> {
    seq![0x2cu8, 0x22u8, 0x65u8, 0x72u8, 0x72u8, 0x6fu8, 0x72u8, 0x22u8, 0x3au8]
}

/// The bytes of `,"previous_password_hash":`.
pub open spec fn lit_hash() -> Seq<u8> {
    seq![0x2cu8, 0x22u8, 0x70u8, 0x72u8, 0x65u8, 0x76u8, 0x69u8, 0x6fu8, 0x75u8, 0x73u8, 0x5fu8, 0x70u8, 0x61u8, 0x73u8, 0x73u8, 0x77u8, 0x6fu8, 0x72u8, 0x64u8, 0x5fu8, 0x68u8, 0x61u8, 0x73u8, 0x68u8, 0x22u8, 0x3au8]
}

/// The bytes of `}`.
pub open spec fn lit_close() -> Seq<u8> {
    seq![0x7du8]
}

/// The bytes of `null`.
pub open spec fn lit_null() -> Seq<u8> {
    seq![0x6eu8, 0x75u8, 0x6cu8, 0x6cu8]
}

/// The bytes of `"TooManyTries"`.
pub open spec fn lit_too_many() -> Seq<u8> {
    seq![0x22u8, 0x54u8, 0x6fu8, 0x6fu8, 0x4du8, 0x61u8, 0x6eu8, 0x79u8, 0x54u8, 0x72u8, 0x69u8, 0x65u8, 0x73u8, 0x22u8]
}

/// The bytes of `"IncorrectCredentials"`.
pub open spec fn lit_incorrect() -> Seq<u8> {
    seq![0x22u8, 0x49u8, 0x6eu8, 0x63u8, 0x6fu8, 0x72u8, 0x72u8, 0x65u8, 0x63u8, 0x74u8, 0x43u8, 0x72u8, 0x65u8, 0x64u8, 0x65u8, 0x6eu8, 0x74u8, 0x69u8, 0x61u8, 0x6cu8, 0x73u8, 0x22u8]
}

/// The bytes of `"WebcomDown"`.
pub open spec fn lit_webcom_down() -> Seq<u8> {
    seq![0x22u8, 0x57u8, 0x65u8, 0x62u8, 0x63u8, 0x6fu8, 0x6du8, 0x44u8, 0x6fu8, 0x77u8, 0x6eu8, 0x22u8]
}

/// The bytes of `"Unknown"`.
pub open spec fn lit_unknown() -> Seq<u8> {
    seq![0x22u8, 0x55u8, 0x6eu8, 0x6bu8, 0x6eu8, 0x6fu8, 0x77u8, 0x6eu8, 0x22u8]
}

/// The bytes of `{"Other":"`.
pub open spec fn lit_other_open() -> Seq<u8> {
    seq![0x7bu8, 0x22u8, 0x4fu8, 0x74u8, 0x68u8, 0x65u8, 0x72u8, 0x22u8, 0x3au8, 0x22u8]
}

/// The bytes of `"}`.
pub open spec fn lit_other_close() -> Seq<u8> {
    seq![0x22u8, 0x7du8]
}

fn lit_head_bytes() -> (v: Vec<u8>)
    ensures
        v@ =~= lit_head(),
{
    let mut v: Vec<u8> = Vec::new();
    v.push(0x7b);
    v.push(0x22);
    v.push(0x72);
    v.push(0x65);
    v.push(0x74);
    v.push(0x72);
    v.push(0x79);
    v.push(0x5f);
    v.push(0x63);
    v.push(0x6f);
    v.push(0x75);
    v.push(0x6e);
    v.push(0x74);
    v.push(0x22);
    v.push(0x3a);
    v
}

fn lit_error_bytes() -> (v: Vec<u8>)
    ensures
        v@ =~= lit_error(),
{
    let mut v: Vec<u8> = Vec::new();
    v.push(0x2c);
    v.push(0x22);
    v.push(0x65);
    v.push(0x72);
    v.push(0x72);
    v.push(0x6f);
    v.push(0x72);
    v.push(0x22);
    v.push(0x3a);
    v
}

fn lit_hash_bytes() -> (v: Vec<u8>)
    ensures
        v@ =~= lit_hash(),
{
    let mut v: Vec<u8> = Vec::new();
    v.push(0x2c);
    v.push(0x22);
    v.push(0x70);
    v.push(0x72);
    v.push(0x65);
    v.push(0x76);
    v.push(0x69);
    v.push(0x6f);
    v.push(0x75);
    v.push(0x73);
    v.push(0x5f);
    v.push(0x70);
    v.push(0x61);
    v.push(0x73);
    v.push(0x73);
    v.push(0x77);
    v.push(0x6f);
    v.push(0x72);
    v.push(0x64);
    v.push(0x5f);
    v.push(0x68);
    v.push(0x61);
    v.push(0x73);
    v.push(0x68);
    v.push(0x22);
    v.push(0x3a);
    v
}

fn lit_close_bytes() -> (v: Vec<u8>)
    ensures
        v@ =~= lit_close(),
{
    let mut v: Vec<u8> = Vec::new();
    v.push(0x7d);
    v
}

fn lit_null_bytes() -> (v: Vec<u8>)
    ensures
        v@ =~= lit_null(),
{
    let mut v: Vec<u8> = Vec::new();
    v.push(0x6e);
    v.push(0x75);
    v.push(0x6c);
    v.push(0x6c);
    v
}

fn lit_too_many_bytes() -> (v: Vec<u8>)
    ensures
        v@ =~= lit_too_many(),
{
    let mut v: Vec<u8> = Vec::new();
    v.push(0x22);
    v.push(0x54);
    v.push(0x6f);
    v.push(0x6f);
    v.push(0x4d);
    v.push(0x61);
    v.push(0x6e);
    v.push(0x79);
    v.push(0x54);
    v.push(0x72);
    v.push(0x69);
    v.push(0x65);
    v.push(0x73);
    v.push(0x22);
    v
}

fn lit_incorrect_bytes() -> (v: Vec<u8>)
    ensures
        v@ =~= lit_incorrect(),
{
    let mut v: Vec<u8> = Vec::new();
    v.push(0x22);
    v.push(0x49);
    v.push(0x6e);
    v.push(0x63);
    v.push(0x6f);
    v.push(0x72);
    v.push(0x72);
    v.push(0x65);
    v.push(0x63);
    v.push(0x74);
    v.push(0x43);
    v.push(0x72);
    v.push(0x65);
    v.push(0x64);
    v.push(0x65);
    v.push(0x6e);
    v.push(0x74);
    v.push(0x69);
    v.push(0x61);
    v.push(0x6c);
    v.push(0x73);
    v.push(0x22);
    v
}

fn lit_webcom_down_bytes() -> (v: Vec<u8>)
    ensures
        v@ =~= lit_webcom_down(),
{
    let mut v: Vec<u8> = Vec::new();
    v.push(0x22);
    v.push(0x57);
    v.push(0x65);
    v.push(0x62);
    v.push(0x63);
    v.push(0x6f);
    v.push(0x6d);
    v.push(0x44);
    v.push(0x6f);
    v.push(0x77);
    v.push(0x6e);
    v.push(0x22);
    v
}

fn lit_unknown_bytes() -> (v: Vec<u8>)
    ensures
        v@ =~= lit_unknown(),
{
    let mut v: Vec<u8> = Vec::new();
    v.push(0x22);
    v.push(0x55);
    v.push(0x6e);
    v.push(0x6b);
    v.push(0x6e);
    v.push(0x6f);
    v.push(0x77);
    v.push(0x6e);
    v.push(0x22);
    v
}

fn lit_other_open_bytes() -> (v: Vec<u8>)
    ensures
        v@ =~= lit_other_open(),
{
    let mut v: Vec<u8> = Vec::new();
    v.push(0x7b);
    v.push(0x22);
    v.push(0x4f);
    v.push(0x74);
    v.push(0x68);
    v.push(0x65);
    v.push(0x72);
    v.push(0x22);
    v.push(0x3a);
    v.push(0x22);
    v
}

fn lit_other_close_bytes() -> (v: Vec<u8>)
    ensures
        v@ =~= lit_other_close(),
{
    let mut v: Vec<u8> = Vec::new();
    v.push(0x22);
    v.push(0x7d);
    v
}
/// Ten to the `n`th.
pub open spec fn spec_pow10(n: nat) -> int
    decreases n,
{
    if n == 0 {
        1
    } else {
        10 * spec_pow10((n - 1) as nat)
    }
}

pub proof fn lemma_pow10_pos(n: nat)
    ensures
        spec_pow10(n) >= 1,
    decreases n,
{
    if n > 0 {
        lemma_pow10_pos((n - 1) as nat);
    }
}

/// An ASCII decimal digit.
pub open spec fn spec_is_digit(b: u8) -> bool {
    0x30 <= b <= 0x39
}

/// The decimal digits of a value, most significant first.
pub open spec fn spec_digits(v: nat) -> Seq<u8>
    decreases v,
{
    if v < 10 {
        seq![(0x30 + v) as u8]
    } else {
        spec_digits(v / 10) + seq![(0x30 + v % 10) as u8]
    }
}

/// The value a digit string denotes.
pub open spec fn spec_digits_value(ds: Seq<u8>) -> int
    decreases ds.len(),
{
    if ds.len() == 0 {
        0
    } else {
        (ds[0] - 0x30) * spec_pow10((ds.len() - 1) as nat) + spec_digits_value(ds.drop_first())
    }
}

pub proof fn lemma_digits_shape(v: nat)
    ensures
        spec_digits(v).len() >= 1,
        forall|i: int| 0 <= i < spec_digits(v).len() ==> spec_is_digit(#[trigger] spec_digits(v)[i]),
    decreases v,
{
    if v >= 10 {
        lemma_digits_shape(v / 10);
        assert forall|i: int| 0 <= i < spec_digits(v).len() implies spec_is_digit(
            #[trigger] spec_digits(v)[i],
        ) by {
            if i < spec_digits(v / 10).len() {
                assert(spec_digits(v)[i] == spec_digits(v / 10)[i]);
            }
        }
    }
}

pub proof fn lemma_value_nonneg(ds: Seq<u8>)
    requires
        forall|i: int| 0 <= i < ds.len() ==> spec_is_digit(#[trigger] ds[i]),
    ensures
        spec_digits_value(ds) >= 0,
    decreases ds.len(),
{
    if ds.len() > 0 {
        assert forall|i: int| 0 <= i < ds.drop_first().len() implies spec_is_digit(
            #[trigger] ds.drop_first()[i],
        ) by {
            assert(ds.drop_first()[i] == ds[i + 1]);
        }
        lemma_value_nonneg(ds.drop_first());
        lemma_pow10_pos((ds.len() - 1) as nat);
        assert((ds[0] - 0x30) * spec_pow10((ds.len() - 1) as nat) >= 0) by (nonlinear_arith)
            requires
                ds[0] - 0x30 >= 0,
                spec_pow10((ds.len() - 1) as nat) >= 1,
        ;
    }
}

pub proof fn lemma_value_push(ds: Seq<u8>, d: u8)
    ensures
        spec_digits_value(ds.push(d)) == spec_digits_value(ds) * 10 + (d - 0x30),
    decreases ds.len(),
{
    assert(spec_digits_value(Seq::<u8>::empty()) == 0);
    assert(spec_pow10(0nat) == 1);
    if ds.len() == 0 {
        assert(ds.push(d)[0] == d);
        assert(ds.push(d).drop_first() =~= Seq::<u8>::empty());
        assert(spec_digits_value(ds.push(d)) == (d - 0x30) * 1 + 0);
        assert(spec_digits_value(ds) == 0);
    } else {
        assert(ds.push(d)[0] == ds[0]);
        assert(ds.push(d).drop_first() =~= ds.drop_first().push(d));
        lemma_value_push(ds.drop_first(), d);
        assert(spec_digits_value(ds.push(d)) == (ds[0] - 0x30) * spec_pow10(ds.len() as nat)
            + spec_digits_value(ds.drop_first().push(d)));
        let p = spec_pow10((ds.len() - 1) as nat);
        assert(spec_pow10(ds.len() as nat) == 10 * p);
        assert((ds[0] - 0x30) * (10 * p) + (spec_digits_value(ds.drop_first()) * 10 + (d - 0x30))
            == ((ds[0] - 0x30) * p + spec_digits_value(ds.drop_first())) * 10 + (d - 0x30))
            by (nonlinear_arith);
    }
}

pub proof fn lemma_digits_value(v: nat)
    ensures
        spec_digits_value(spec_digits(v)) == v,
    decreases v,
{
    assert(spec_digits_value(Seq::<u8>::empty()) == 0);
    assert(spec_pow10(0nat) == 1);
    if v < 10 {
        assert(spec_digits(v).drop_first() =~= Seq::<u8>::empty());
        assert(spec_digits(v)[0] == (0x30 + v) as u8);
        assert(spec_digits_value(spec_digits(v)) == ((0x30 + v) as u8 - 0x30) * 1 + 0);
    } else {
        lemma_digits_value(v / 10);
        assert(spec_digits(v) =~= spec_digits(v / 10).push((0x30 + v % 10) as u8));
        lemma_value_push(spec_digits(v / 10), (0x30 + v % 10) as u8);
        assert(spec_digits_value(spec_digits(v)) == (v / 10) * 10 + (((0x30 + v % 10) as u8)
            - 0x30));
    }
}

/// One checked step of the decimal parse: consume digits, folding them
/// into the accumulator, refusing to overflow.
pub open spec fn spec_parse_number(s: Seq<u8>, i: int, acc: int) -> Option<(int, int)>
    decreases s.len() - i,
{
    if 0 <= i < s.len() && spec_is_digit(s[i]) {
        let d = s[i] - 0x30;
        if acc > (0xFFFF_FFFF_FFFF_FFFF - d) / 10 {
            None
        } else {
            spec_parse_number(s, i + 1, acc * 10 + d)
        }
    } else {
        Some((acc, i))
    }
}

/// A decimal number at this position: at least one digit, greedily
/// consumed, refused on overflow.
pub open spec fn spec_parse_u64(s: Seq<u8>, at: int) -> Option<(int, int)> {
    if 0 <= at < s.len() && spec_is_digit(s[at]) {
        spec_parse_number(s, at, 0)
    } else {
        None
    }
}

fn parse_number(input: &Vec<u8>, i: usize, acc: u64) -> (r: Option<(u64, usize)>)
    requires
        i <= input@.len(),
    ensures
        match r {
            Some(p) => spec_parse_number(input@, i as int, acc as int) == Some(
                (p.0 as int, p.1 as int),
            ) && p.1 <= input@.len(),
            None => spec_parse_number(input@, i as int, acc as int) is None,
        },
    decreases input@.len() - i,
{
    if i < input.len() && 0x30 <= input[i] && input[i] <= 0x39 {
        let d: u64 = (input[i] - 0x30) as u64;
        if acc > (0xFFFF_FFFF_FFFF_FFFFu64 - d) / 10 {
            None
        } else {
            proof {
                assert(acc * 10 + d <= 0xFFFF_FFFF_FFFF_FFFF) by (nonlinear_arith)
                    requires
                        0 <= acc <= (0xFFFF_FFFF_FFFF_FFFF - d) / 10,
                        0 <= d <= 9,
                ;
            }
            parse_number(input, i + 1, acc * 10 + d)
        }
    } else {
        Some((acc, i))
    }
}

fn parse_u64_at(input: &Vec<u8>, at: usize) -> (r: Option<(u64, usize)>)
    requires
        at <= input@.len(),
    ensures
        match r {
            Some(p) => spec_parse_u64(input@, at as int) == Some((p.0 as int, p.1 as int)) && p.1
                <= input@.len(),
            None => spec_parse_u64(input@, at as int) is None,
        },
{
    if at < input.len() && 0x30 <= input[at] && input[at] <= 0x39 {
        parse_number(input, at, 0)
    } else {
        None
    }
}

/// Greedy checked parsing reads off exactly a rendered digit string when
/// nothing digit-like follows it.
pub proof fn lemma_parse_number_digits(s: Seq<u8>, at: int, n: int, acc: int)
    requires
        0 <= at,
        0 <= n,
        at + n <= s.len(),
        0 <= acc,
        forall|k: int| at <= k < at + n ==> spec_is_digit(#[trigger] s[k]),
        at + n == s.len() || !spec_is_digit(s[at + n]),
        acc * spec_pow10(n as nat) + spec_digits_value(s.subrange(at, at + n))
            <= 0xFFFF_FFFF_FFFF_FFFF,
    ensures
        spec_parse_number(s, at, acc) == Some(
            (acc * spec_pow10(n as nat) + spec_digits_value(s.subrange(at, at + n)), at + n),
        ),
    decreases n,
{
    let sub = s.subrange(at, at + n);
    assert forall|i: int| 0 <= i < sub.len() implies spec_is_digit(#[trigger] sub[i]) by {
        assert(sub[i] == s[at + i]);
    }
    lemma_value_nonneg(sub);
    if n == 0 {
        assert(sub =~= Seq::<u8>::empty());
    } else {
        let d = s[at] - 0x30;
        let p = spec_pow10((n - 1) as nat);
        let sub2 = s.subrange(at + 1, at + n);
        assert(sub.drop_first() =~= sub2);
        assert(sub[0] == s[at]);
        lemma_pow10_pos((n - 1) as nat);
        assert forall|i: int| 0 <= i < sub2.len() implies spec_is_digit(#[trigger] sub2[i]) by {
            assert(sub2[i] == s[at + 1 + i]);
        }
        lemma_value_nonneg(sub2);
        assert(spec_pow10(n as nat) == 10 * p);
        assert(acc * (10 * p) + (d * p + spec_digits_value(sub2)) == (acc * 10 + d) * p
            + spec_digits_value(sub2)) by (nonlinear_arith);
        assert(acc * 10 + d <= (acc * 10 + d) * p + spec_digits_value(sub2)) by (nonlinear_arith)
            requires
                p >= 1,
                acc >= 0,
                0 <= d <= 9,
                spec_digits_value(sub2) >= 0,
        ;
        assert(!(acc > (0xFFFF_FFFF_FFFF_FFFF - d) / 10)) by (nonlinear_arith)
            requires
                acc * 10 + d <= 0xFFFF_FFFF_FFFF_FFFF,
                0 <= d <= 9,
                acc >= 0,
        ;
        lemma_parse_number_digits(s, at + 1, n - 1, acc * 10 + d);
    }
}

/// A rendered number surrounded by non-digits parses back to its value.
pub proof fn lemma_parse_u64_digits(s: Seq<u8>, at: int, v: nat)
    requires
        0 <= at,
        v <= 0xFFFF_FFFF_FFFF_FFFF,
        at + spec_digits(v).len() <= s.len(),
        s.subrange(at, at + spec_digits(v).len()) == spec_digits(v),
        at + spec_digits(v).len() == s.len() || !spec_is_digit(s[at + spec_digits(v).len()]),
    ensures
        spec_parse_u64(s, at) == Some((v as int, at + spec_digits(v).len())),
{
    let n = spec_digits(v).len() as int;
    lemma_digits_shape(v);
    lemma_digits_value(v);
    assert forall|k: int| at <= k < at + n implies spec_is_digit(#[trigger] s[k]) by {
        assert(s[k] == spec_digits(v)[k - at]);
    }
    assert(s[at] == spec_digits(v)[0]);
    lemma_parse_number_digits(s, at, n, 0);
    assert(0 * spec_pow10(n as nat) == 0) by (nonlinear_arith);
}

/// Where the literal stands at this position, the position after it.
pub open spec fn spec_match_lit(s: Seq<u8>, at: int, lit: Seq<u8>) -> Option<int> {
    if 0 <= at && at + lit.len() <= s.len() && s.subrange(at, at + lit.len()) == lit {
        Some(at + lit.len())
    } else {
        None
    }
}

fn match_lit(input: &Vec<u8>, at: usize, lit: &Vec<u8>) -> (r: Option<usize>)
    requires
        at <= input@.len(),
    ensures
        match r {
            Some(next) => spec_match_lit(input@, at as int, lit@) == Some(next as int) && next == at
                + lit@.len() && next <= input@.len(),
            None => spec_match_lit(input@, at as int, lit@) is None,
        },
{
    if lit.len() > input.len() - at {
        proof {
            assert(spec_match_lit(input@, at as int, lit@) is None);
        }
        return None;
    }
    let mut i: usize = 0;
    while i < lit.len()
        invariant
            i <= lit@.len(),
            at + lit@.len() <= input@.len(),
            input@.len() <= usize::MAX,
            forall|j: int| 0 <= j < i ==> input@[at + j] == lit@[j],
        decreases lit@.len() - i,
    {
        proof {
            assert(at + i < input@.len());
        }
        if input[at + i] != lit[i] {
            proof {
                if input@.subrange(at as int, at as int + lit@.len()) == lit@ {
                    assert(input@.subrange(at as int, at as int + lit@.len())[i as int] == input@[
                        at + i
                    ]);
                }
            }
            return None;
        }
        i = i + 1;
    }
    proof {
        assert(input@.subrange(at as int, at as int + lit@.len()) =~= lit@);
    }
    Some(at + lit.len())
}

/// The hexadecimal digit for a value below sixteen, lower case.
pub open spec fn spec_hex_digit(d: u8) -> u8 {
    if d < 10 {
        (0x30 + d) as u8
    } else {
        (0x57 + d) as u8
    }
}

/// The value a hexadecimal digit denotes.
pub open spec fn spec_hex_val(b: u8) -> Option<u8> {
    if 0x30 <= b <= 0x39 {
        Some((b - 0x30) as u8)
    } else if 0x61 <= b <= 0x66 {
        Some((b - 0x57) as u8)
    } else if 0x41 <= b <= 0x46 {
        Some((b - 0x37) as u8)
    } else {
        None
    }
}

fn hex_val(b: u8) -> (r: Option<u8>)
    ensures
        r == spec_hex_val(b),
{
    if 0x30 <= b && b <= 0x39 {
        Some(b - 0x30)
    } else if 0x61 <= b && b <= 0x66 {
        Some(b - 0x57)
    } else if 0x41 <= b && b <= 0x46 {
        Some(b - 0x37)
    } else {
        None
    }
}

/// How one byte of a string value is written: quote and backslash are
/// escaped, the named control characters take their short escapes, other
/// control bytes the four-digit form, and everything else stands as is.
pub open spec fn spec_escape_byte(b: u8) -> Seq<u8> {
    if b == 0x22 {
        seq![0x5cu8, 0x22u8]
    } else if b == 0x5c {
        seq![0x5cu8, 0x5cu8]
    } else if b == 0x08 {
        seq![0x5cu8, 0x62u8]
    } else if b == 0x09 {
        seq![0x5cu8, 0x74u8]
    } else if b == 0x0a {
        seq![0x5cu8, 0x6eu8]
    } else if b == 0x0c {
        seq![0x5cu8, 0x66u8]
    } else if b == 0x0d {
        seq![0x5cu8, 0x72u8]
    } else if b < 0x20 {
        seq![0x5cu8, 0x75u8, 0x30u8, 0x30u8, spec_hex_digit(b / 16), spec_hex_digit(b % 16)]
    } else {
        seq![b]
    }
}

/// How a whole string value is written between its quotes.
pub open spec fn spec_escape(s: Seq<u8>) -> Seq<u8>
    decreases s.len(),
{
    if s.len() == 0 {
        Seq::<u8>::empty()
    } else {
        spec_escape_byte(s[0]) + spec_escape(s.drop_first())
    }
}

pub proof fn lemma_escape_push(s: Seq<u8>, x: u8)
    ensures
        spec_escape(s.push(x)) == spec_escape(s) + spec_escape_byte(x),
    decreases s.len(),
{
    if s.len() == 0 {
        assert(s.push(x)[0] == x);
        assert(s.push(x).drop_first() =~= Seq::<u8>::empty());
        assert(spec_escape(Seq::<u8>::empty()) =~= Seq::<u8>::empty());
        assert(spec_escape(s.push(x)) == spec_escape_byte(x) + spec_escape(
            s.push(x).drop_first(),
        ));
        assert(spec_escape_byte(x) + Seq::<u8>::empty() =~= spec_escape_byte(x));
        assert(spec_escape(s) =~= Seq::<u8>::empty());
        assert(spec_escape(s) + spec_escape_byte(x) =~= spec_escape_byte(x));
    } else {
        assert(s.push(x)[0] == s[0]);
        assert(s.push(x).drop_first() =~= s.drop_first().push(x));
        lemma_escape_push(s.drop_first(), x);
        assert(spec_escape_byte(s[0]) + (spec_escape(s.drop_first()) + spec_escape_byte(x)) =~= (
        spec_escape_byte(s[0]) + spec_escape(s.drop_first())) + spec_escape_byte(x));
    }
}

fn escape_bytes(s: &[u8]) -> (out: Vec<u8>)
    ensures
        out@ == spec_escape(s@),
{
    let mut out: Vec<u8> = Vec::new();
    let mut i: usize = 0;
    proof {
        assert(s@.take(0) =~= Seq::<u8>::empty());
    }
    while i < s.len()
        invariant
            i <= s@.len(),
            out@ == spec_escape(s@.take(i as int)),
        decreases s@.len() - i,
    {
        proof {
            assert(s@.take(i as int + 1) =~= s@.take(i as int).push(s@[i as int]));
            lemma_escape_push(s@.take(i as int), s@[i as int]);
        }
        let b = s[i];
        if b == 0x22 {
            out.push(0x5c);
            out.push(0x22);
        } else if b == 0x5c {
            out.push(0x5c);
            out.push(0x5c);
        } else if b == 0x08 {
            out.push(0x5c);
            out.push(0x62);
        } else if b == 0x09 {
            out.push(0x5c);
            out.push(0x74);
        } else if b == 0x0a {
            out.push(0x5c);
            out.push(0x6e);
        } else if b == 0x0c {
            out.push(0x5c);
            out.push(0x66);
        } else if b == 0x0d {
            out.push(0x5c);
            out.push(0x72);
        } else if b < 0x20 {
            out.push(0x5c);
            out.push(0x75);
            out.push(0x30);
            out.push(0x30);
            let hi = b / 16;
            let lo = b % 16;
            out.push(if hi < 10 { 0x30 + hi } else { 0x57 + hi });
            out.push(if lo < 10 { 0x30 + lo } else { 0x57 + lo });
        } else {
            out.push(b);
        }
        proof {
            assert(out@ =~= spec_escape(s@.take(i as int + 1)));
        }
        i = i + 1;
    }
    proof {
        assert(s@.take(s@.len() as int) =~= s@);
    }
    out
}

/// Read a string value up to and including its closing quote, undoing
/// the escapes; refused on a stray control byte, a bad escape, or a
/// missing quote.
pub open spec fn spec_unescape(s: Seq<u8>, at: int) -> Option<(Seq<u8>, int)>
    decreases s.len() - at,
{
    if !(0 <= at < s.len()) {
        None
    } else if s[at] == 0x22 {
        Some((Seq::<u8>::empty(), at + 1))
    } else if s[at] == 0x5c {
        if at + 1 >= s.len() {
            None
        } else {
            let e = s[at + 1];
            if e == 0x22 || e == 0x5c || e == 0x62 || e == 0x74 || e == 0x6e || e == 0x66 || e
                == 0x72 {
                let decoded: u8 = if e == 0x22 {
                    0x22
                } else if e == 0x5c {
                    0x5c
                } else if e == 0x62 {
                    0x08
                } else if e == 0x74 {
                    0x09
                } else if e == 0x6e {
                    0x0a
                } else if e == 0x66 {
                    0x0c
                } else {
                    0x0d
                };
                match spec_unescape(s, at + 2) {
                    Some(p) => Some((seq![decoded] + p.0, p.1)),
                    None => None,
                }
            } else if e == 0x75 {
                if at + 6 > s.len() {
                    None
                } else if s[at + 2] != 0x30 || s[at + 3] != 0x30 {
                    None
                } else {
                    match (spec_hex_val(s[at + 4]), spec_hex_val(s[at + 5])) {
                        (Some(hi), Some(lo)) => match spec_unescape(s, at + 6) {
                            Some(p) => Some((seq![(hi * 16 + lo) as u8] + p.0, p.1)),
                            None => None,
                        },
                        _ => None,
                    }
                }
            } else {
                None
            }
        }
    } else if s[at] < 0x20 {
        None
    } else {
        match spec_unescape(s, at + 1) {
            Some(p) => Some((seq![s[at]] + p.0, p.1)),
            None => None,
        }
    }
}

fn unescape_at(input: &Vec<u8>, at: usize) -> (r: Option<(Vec<u8>, usize)>)
    requires
        at <= input@.len(),
    ensures
        match r {
            Some(p) => spec_unescape(input@, at as int) == Some((p.0@, p.1 as int)) && p.1
                <= input@.len(),
            None => spec_unescape(input@, at as int) is None,
        },
    decreases input@.len() - at,
{
    if at == input.len() {
        return None;
    }
    let b = input[at];
    if b == 0x22 {
        return Some((Vec::new(), at + 1));
    }
    if b == 0x5c {
        if at + 1 >= input.len() {
            return None;
        }
        let e = input[at + 1];
        if e == 0x22 || e == 0x5c || e == 0x62 || e == 0x74 || e == 0x6e || e == 0x66 || e == 0x72 {
            let decoded: u8 = if e == 0x22 {
                0x22
            } else if e == 0x5c {
                0x5c
            } else if e == 0x62 {
                0x08
            } else if e == 0x74 {
                0x09
            } else if e == 0x6e {
                0x0a
            } else if e == 0x66 {
                0x0c
            } else {
                0x0d
            };
            match unescape_at(input, at + 2) {
                Some(p) => {
                    let (tail, end) = p;
                    let mut out = tail;
                    out.insert(0, decoded);
                    Some((out, end))
                },
                None => None,
            }
        } else if e == 0x75 {
            if input.len() - at < 6 {
                return None;
            }
            if input[at + 2] != 0x30 || input[at + 3] != 0x30 {
                return None;
            }
            let h1 = hex_val(input[at + 4]);
            let h2 = hex_val(input[at + 5]);
            match (h1, h2) {
                (Some(hi), Some(lo)) => {
                    match unescape_at(input, at + 6) {
                        Some(p) => {
                            let (tail, end) = p;
                            let mut out = tail;
                            out.insert(0, hi * 16 + lo);
                            Some((out, end))
                        },
                        None => None,
                    }
                },
                _ => None,
            }
        } else {
            None
        }
    } else if b < 0x20 {
        None
    } else {
        match unescape_at(input, at + 1) {
            Some(p) => {
                let (tail, end) = p;
                let mut out = tail;
                out.insert(0, b);
                Some((out, end))
            },
            None => None,
        }
    }
}

/// Undoing the escapes reads back exactly the escaped bytes, up to the
/// closing quote that follows them.
pub proof fn lemma_unescape_escape(s: Seq<u8>, p: Seq<u8>, at: int)
    requires
        0 <= at <= s.len(),
        spec_escape(p).len() + 1 <= s.len() - at,
        s.subrange(at, at + spec_escape(p).len() + 1) == spec_escape(p) + seq![0x22u8],
    ensures
        spec_unescape(s, at) == Some((p, at + spec_escape(p).len() + 1)),
    decreases p.len(),
{
    let esc = spec_escape(p);
    let whole = esc + seq![0x22u8];
    assert forall|i: int| 0 <= i < whole.len() implies s[at + i] == whole[i] by {
        assert(s.subrange(at, at + esc.len() + 1)[i] == s[at + i]);
    }
    if p.len() == 0 {
        assert(esc =~= Seq::<u8>::empty());
        assert(s[at + 0] == whole[0]);
        assert(whole[0] == 0x22);
        assert(s[at] == 0x22);
    } else {
        let x = p[0];
        let eb = spec_escape_byte(x);
        let esc2 = spec_escape(p.drop_first());
        assert(esc == eb + esc2);
        assert forall|i: int| 0 <= i < eb.len() implies s[at + i] == eb[i] by {
            assert(whole[i] == (eb + esc2)[i]);
        }
        let at2 = at + eb.len();
        assert(s.subrange(at2, at2 + esc2.len() + 1) =~= esc2 + seq![0x22u8]) by {
            assert forall|i: int| 0 <= i < esc2.len() + 1 implies s.subrange(
                at2,
                at2 + esc2.len() + 1,
            )[i] == (esc2 + seq![0x22u8])[i] by {
                assert(s.subrange(at2, at2 + esc2.len() + 1)[i] == s[at2 + i]);
                assert(s[at2 + i] == whole[eb.len() + i]);
            }
        }
        lemma_unescape_escape(s, p.drop_first(), at2);
        if x == 0x22 || x == 0x5c || x == 0x08 || x == 0x09 || x == 0x0a || x == 0x0c || x
            == 0x0d {
            assert(s[at + 0] == eb[0]);
            assert(s[at] == 0x5c);
            assert(s[at + 1] == eb[1]);
            assert(seq![x] + p.drop_first() =~= p);
        } else if x < 0x20 {
            assert(s[at + 0] == eb[0]);
            assert(s[at + 1] == eb[1]);
            assert(s[at + 2] == eb[2]);
            assert(s[at + 3] == eb[3]);
            assert(s[at + 4] == eb[4]);
            assert(s[at + 5] == eb[5]);
            assert(s[at] == 0x5c);
            assert(s[at + 1] == 0x75);
            assert(s[at + 2] == 0x30);
            assert(s[at + 3] == 0x30);
            assert(s[at + 4] == spec_hex_digit(x / 16));
            assert(s[at + 5] == spec_hex_digit(x % 16));
            assert(spec_hex_val(spec_hex_digit(x / 16)) == Some(x / 16));
            assert(spec_hex_val(spec_hex_digit(x % 16)) == Some(x % 16));
            assert(((x / 16) * 16 + x % 16) as u8 == x);
            assert(seq![x] + p.drop_first() =~= p);
        } else {
            assert(s[at + 0] == eb[0]);
            assert(eb[0] == x);
            assert(x != 0x22 && x != 0x5c && x >= 0x20);
            assert(seq![x] + p.drop_first() =~= p);
        }
    }
}
/// An error variant as read back from the file, its message still bytes.
pub enum ParsedFailure {
    TooManyTries,
    IncorrectCredentials,
    WebcomDown,
    Other(Seq<u8>),
    Unknown,
}

/// A journal as read back from the file, before its message bytes are
/// turned into text.
pub struct ParsedJournal {
    pub retry_count: int,
    pub error: Option<ParsedFailure>,
    pub previous_password_hash: Option<int>,
}

/// How the error field is written.
pub open spec fn spec_render_error(e: Option<SignInFailure>) -> Seq<u8> {
    match e {
        None => lit_null(),
        Some(SignInFailure::TooManyTries) => lit_too_many(),
        Some(SignInFailure::IncorrectCredentials) => lit_incorrect(),
        Some(SignInFailure::WebcomDown) => lit_webcom_down(),
        Some(SignInFailure::Unknown) => lit_unknown(),
        Some(SignInFailure::Other(s)) => lit_other_open() + spec_escape(
            vstd::utf8::encode_utf8(s@),
        ) + lit_other_close(),
    }
}

/// How the whole journal is written.
pub open spec fn spec_render_journal(j: IncorrectCredentialsCount) -> Seq<u8> {
    lit_head() + spec_digits(j.retry_count as nat) + lit_error() + spec_render_error(j.error)
        + lit_hash() + (match j.previous_password_hash {
        None => lit_null(),
        Some(h) => spec_digits(h as nat),
    }) + lit_close()
}

/// Read the error field.
pub open spec fn spec_parse_error(s: Seq<u8>, at: int) -> Option<(Option<ParsedFailure>, int)> {
    match spec_match_lit(s, at, lit_null()) {
        Some(nx) => Some((None, nx)),
        None => match spec_match_lit(s, at, lit_too_many()) {
            Some(nx) => Some((Some(ParsedFailure::TooManyTries), nx)),
            None => match spec_match_lit(s, at, lit_incorrect()) {
                Some(nx) => Some((Some(ParsedFailure::IncorrectCredentials), nx)),
                None => match spec_match_lit(s, at, lit_webcom_down()) {
                    Some(nx) => Some((Some(ParsedFailure::WebcomDown), nx)),
                    None => match spec_match_lit(s, at, lit_unknown()) {
                        Some(nx) => Some((Some(ParsedFailure::Unknown), nx)),
                        None => match spec_match_lit(s, at, lit_other_open()) {
                            Some(nx) => match spec_unescape(s, nx) {
                                Some(p) => match spec_match_lit(s, p.1, lit_close()) {
                                    Some(nx2) => Some((Some(ParsedFailure::Other(p.0)), nx2)),
                                    None => None,
                                },
                                None => None,
                            },
                            None => None,
                        },
                    },
                },
            },
        },
    }
}

/// Read the whole journal; the file must hold nothing else.
pub open spec fn spec_parse_journal(s: Seq<u8>) -> Option<ParsedJournal> {
    match spec_match_lit(s, 0, lit_head()) {
        None => None,
        Some(a1) => match spec_parse_u64(s, a1) {
            None => None,
            Some(rv) => if rv.0 > 0x7FFF_FFFF {
                None
            } else {
                match spec_match_lit(s, rv.1, lit_error()) {
                    None => None,
                    Some(a2) => match spec_parse_error(s, a2) {
                        None => None,
                        Some(er) => match spec_match_lit(s, er.1, lit_hash()) {
                            None => None,
                            Some(a3) => {
                                let hash_parsed: Option<(Option<int>, int)> = match spec_match_lit(
                                    s,
                                    a3,
                                    lit_null(),
                                ) {
                                    Some(nx) => Some((None, nx)),
                                    None => match spec_parse_u64(s, a3) {
                                        Some(hv) => Some((Some(hv.0), hv.1)),
                                        None => None,
                                    },
                                };
                                match hash_parsed {
                                    None => None,
                                    Some(hp) => match spec_match_lit(s, hp.1, lit_close()) {
                                        None => None,
                                        Some(a4) => if a4 == s.len() {
                                            Some(
                                                ParsedJournal {
                                                    retry_count: rv.0,
                                                    error: er.0,
                                                    previous_password_hash: hp.0,
                                                },
                                            )
                                        } else {
                                            None
                                        },
                                    },
                                }
                            },
                        },
                    },
                }
            },
        },
    }
}

/// What the error field of this journal reads back as.
pub open spec fn spec_parsed_error_of(e: Option<SignInFailure>) -> Option<ParsedFailure> {
    match e {
        None => None,
        Some(SignInFailure::TooManyTries) => Some(ParsedFailure::TooManyTries),
        Some(SignInFailure::IncorrectCredentials) => Some(ParsedFailure::IncorrectCredentials),
        Some(SignInFailure::WebcomDown) => Some(ParsedFailure::WebcomDown),
        Some(SignInFailure::Unknown) => Some(ParsedFailure::Unknown),
        Some(SignInFailure::Other(s)) => Some(ParsedFailure::Other(vstd::utf8::encode_utf8(s@))),
    }
}

/// What the file of this journal reads back as.
pub open spec fn spec_parsed_of(j: IncorrectCredentialsCount) -> ParsedJournal {
    ParsedJournal {
        retry_count: j.retry_count as int,
        error: spec_parsed_error_of(j.error),
        previous_password_hash: match j.previous_password_hash {
            None => None,
            Some(h) => Some(h as int),
        },
    }
}

/// A journal value corresponds to what was read from the file.
pub open spec fn parsed_matches(j: IncorrectCredentialsCount, p: ParsedJournal) -> bool {
    &&& j.retry_count as int == p.retry_count
    &&& (match (j.previous_password_hash, p.previous_password_hash) {
        (None, None) => true,
        (Some(a), Some(b)) => a as int == b,
        _ => false,
    })
    &&& (match (j.error, p.error) {
        (None, None) => true,
        (Some(SignInFailure::TooManyTries), Some(ParsedFailure::TooManyTries)) => true,
        (Some(SignInFailure::IncorrectCredentials), Some(ParsedFailure::IncorrectCredentials)) =>
            true,
        (Some(SignInFailure::WebcomDown), Some(ParsedFailure::WebcomDown)) => true,
        (Some(SignInFailure::Unknown), Some(ParsedFailure::Unknown)) => true,
        (Some(SignInFailure::Other(s)), Some(ParsedFailure::Other(bs))) => vstd::utf8::valid_utf8(
            bs,
        ) && s@ == vstd::utf8::decode_utf8(bs),
        _ => false,
    })
}

fn render_u64(v: u64) -> (out: Vec<u8>)
    ensures
        out@ == spec_digits(v as nat),
    decreases v,
{
    if v < 10 {
        let mut out: Vec<u8> = Vec::new();
        out.push(0x30 + (v as u8));
        proof {
            assert(out@ =~= spec_digits(v as nat));
        }
        out
    } else {
        let mut out = render_u64(v / 10);
        out.push(0x30 + ((v % 10) as u8));
        proof {
            assert(out@ =~= spec_digits((v / 10) as nat) + seq![(0x30 + (v as nat) % 10) as u8]);
        }
        out
    }
}

impl IncorrectCredentialsCount {
    /// Write the journal in its persisted form.
    pub fn render(&self) -> (out: Vec<u8>)
        requires
            journal_wf(*self),
        ensures
            out@ == spec_render_journal(*self),
    {
        let mut out = lit_head_bytes();
        let mut digits = render_u64(self.retry_count as u64);
        out.append(&mut digits);
        let mut sep = lit_error_bytes();
        out.append(&mut sep);
        match &self.error {
            None => {
                let mut piece = lit_null_bytes();
                out.append(&mut piece);
            },
            Some(SignInFailure::TooManyTries) => {
                let mut piece = lit_too_many_bytes();
                out.append(&mut piece);
            },
            Some(SignInFailure::IncorrectCredentials) => {
                let mut piece = lit_incorrect_bytes();
                out.append(&mut piece);
            },
            Some(SignInFailure::WebcomDown) => {
                let mut piece = lit_webcom_down_bytes();
                out.append(&mut piece);
            },
            Some(SignInFailure::Unknown) => {
                let mut piece = lit_unknown_bytes();
                out.append(&mut piece);
            },
            Some(SignInFailure::Other(s)) => {
                let mut piece = lit_other_open_bytes();
                out.append(&mut piece);
                let mut escaped = escape_bytes(s.as_str().as_bytes());
                out.append(&mut escaped);
                let mut close = lit_other_close_bytes();
                out.append(&mut close);
            },
        }
        let mut sep2 = lit_hash_bytes();
        out.append(&mut sep2);
        match self.previous_password_hash {
            None => {
                let mut piece = lit_null_bytes();
                out.append(&mut piece);
            },
            Some(h) => {
                let mut piece = render_u64(h);
                out.append(&mut piece);
            },
        }
        let mut close = lit_close_bytes();
        out.append(&mut close);
        out
    }

    /// Read a journal back from its persisted form.
    pub fn parse(bytes: &Vec<u8>) -> (r: Option<IncorrectCredentialsCount>)
        ensures
            spec_parse_journal(bytes@) is None ==> r is None,
            spec_parse_journal(bytes@) matches Some(p) ==> match r {
                Some(j) => parsed_matches(j, p) && journal_wf(j),
                None => p.error matches Some(ParsedFailure::Other(bs))
                    && !vstd::utf8::valid_utf8(bs),
            },
    {
        let head = lit_head_bytes();
        let a1 = match match_lit(bytes, 0, &head) {
            Some(a) => a,
            None => {
                return None;
            },
        };
        let (retry_u, a1b) = match parse_u64_at(bytes, a1) {
            Some(p) => p,
            None => {
                return None;
            },
        };
        if retry_u > 0x7FFF_FFFF {
            return None;
        }
        let sep = lit_error_bytes();
        let a2 = match match_lit(bytes, a1b, &sep) {
            Some(a) => a,
            None => {
                return None;
            },
        };
        let parsed_error = Self::parse_error_field(bytes, a2);
        let (error, utf8_failed, a3) = match parsed_error {
            Some(t) => t,
            None => {
                return None;
            },
        };
        let sep2 = lit_hash_bytes();
        let a4 = match match_lit(bytes, a3, &sep2) {
            Some(a) => a,
            None => {
                return None;
            },
        };
        let nul_lit = lit_null_bytes();
        let (hash, a5) = match match_lit(bytes, a4, &nul_lit) {
            Some(nx) => (None, nx),
            None => match parse_u64_at(bytes, a4) {
                Some(p) => (Some(p.0), p.1),
                None => {
                    return None;
                },
            },
        };
        let close = lit_close_bytes();
        let a6 = match match_lit(bytes, a5, &close) {
            Some(a) => a,
            None => {
                return None;
            },
        };
        if a6 != bytes.len() {
            return None;
        }
        if utf8_failed {
            return None;
        }
        Some(
            IncorrectCredentialsCount {
                retry_count: retry_u as i32,
                error,
                previous_password_hash: hash,
            },
        )
    }

    /// Read the error field; the middle flag reports a message whose
    /// bytes are no text, which fails the parse as a whole.
    fn parse_error_field(bytes: &Vec<u8>, at: usize) -> (r: Option<
        (Option<SignInFailure>, bool, usize),
    >)
        requires
            at <= bytes@.len(),
        ensures
            match r {
                Some(t) => t.2 <= bytes@.len() && (spec_parse_error(bytes@, at as int) matches Some(
                    pe,
                ) && pe.1 == t.2 as int && (if t.1 {
                    pe.0 matches Some(ParsedFailure::Other(bs)) && !vstd::utf8::valid_utf8(bs)
                        && t.0 is None
                } else {
                    match (t.0, pe.0) {
                        (None, None) => true,
                        (Some(SignInFailure::TooManyTries), Some(ParsedFailure::TooManyTries)) =>
                            true,
                        (
                            Some(SignInFailure::IncorrectCredentials),
                            Some(ParsedFailure::IncorrectCredentials),
                        ) => true,
                        (Some(SignInFailure::WebcomDown), Some(ParsedFailure::WebcomDown)) => true,
                        (Some(SignInFailure::Unknown), Some(ParsedFailure::Unknown)) => true,
                        (Some(SignInFailure::Other(s)), Some(ParsedFailure::Other(bs))) =>
                            vstd::utf8::valid_utf8(bs) && s@ == vstd::utf8::decode_utf8(bs),
                        _ => false,
                    }
                })),
                None => spec_parse_error(bytes@, at as int) is None,
            },
    {
        let lit1 = lit_null_bytes();
        if let Some(nx) = match_lit(bytes, at, &lit1) {
            return Some((None, false, nx));
        }
        let lit2 = lit_too_many_bytes();
        if let Some(nx) = match_lit(bytes, at, &lit2) {
            return Some((Some(SignInFailure::TooManyTries), false, nx));
        }
        let lit3 = lit_incorrect_bytes();
        if let Some(nx) = match_lit(bytes, at, &lit3) {
            return Some((Some(SignInFailure::IncorrectCredentials), false, nx));
        }
        let lit4 = lit_webcom_down_bytes();
        if let Some(nx) = match_lit(bytes, at, &lit4) {
            return Some((Some(SignInFailure::WebcomDown), false, nx));
        }
        let lit5 = lit_unknown_bytes();
        if let Some(nx) = match_lit(bytes, at, &lit5) {
            return Some((Some(SignInFailure::Unknown), false, nx));
        }
        let lit6 = lit_other_open_bytes();
        if let Some(nx) = match_lit(bytes, at, &lit6) {
            let (content, after) = match unescape_at(bytes, nx) {
                Some(p) => p,
                None => {
                    return None;
                },
            };
            let close = lit_close_bytes();
            let nx2 = match match_lit(bytes, after, &close) {
                Some(a) => a,
                None => {
                    return None;
                },
            };
            match crate::secret::string_from_utf8(content) {
                Some(text) => {
                    return Some((Some(SignInFailure::Other(text)), false, nx2));
                },
                None => {
                    return Some((None, true, nx2));
                },
            }
        }
        None
    }
}

/// A literal stands at a position exactly when the bytes there read it.
pub proof fn lemma_lit_at(s: Seq<u8>, at: int, lit: Seq<u8>)
    requires
        0 <= at,
        at + lit.len() <= s.len(),
        forall|i: int| 0 <= i < lit.len() ==> s[at + i] == lit[i],
    ensures
        spec_match_lit(s, at, lit) == Some(at + lit.len()),
{
    assert(s.subrange(at, at + lit.len()) =~= lit);
}

/// A rendered error field reads back as its parsed form.
#[verifier::rlimit(60)]
pub proof fn lemma_parse_error_rendered(s: Seq<u8>, at: int, e: Option<SignInFailure>)
    requires
        0 <= at,
        at + spec_render_error(e).len() <= s.len(),
        s.subrange(at, at + spec_render_error(e).len()) == spec_render_error(e),
    ensures
        spec_parse_error(s, at) == Some(
            (spec_parsed_error_of(e), at + spec_render_error(e).len()),
        ),
{
    let eb = spec_render_error(e);
    assert forall|i: int| 0 <= i < eb.len() implies s[at + i] == eb[i] by {
        assert(s.subrange(at, at + eb.len())[i] == s[at + i]);
    }
    match e {
        None => {
            lemma_lit_at(s, at, lit_null());
        },
        Some(SignInFailure::TooManyTries) => {
            lemma_lit_at(s, at, lit_too_many());
            assert(s[at + 0] == eb[0]);
            assert(spec_match_lit(s, at, lit_null()) is None) by {
                if at + lit_null().len() <= s.len() && s.subrange(at, at + lit_null().len()) == lit_null() {
                    assert(s.subrange(at, at + lit_null().len())[0] == s[at]);
                }
            }
        },
        Some(SignInFailure::IncorrectCredentials) => {
            lemma_lit_at(s, at, lit_incorrect());
            assert(s[at + 0] == eb[0]);
            assert(s[at + 1] == eb[1]);
            assert(spec_match_lit(s, at, lit_null()) is None) by {
                if at + lit_null().len() <= s.len() && s.subrange(at, at + lit_null().len()) == lit_null() {
                    assert(s.subrange(at, at + lit_null().len())[0] == s[at]);
                }
            }
            assert(spec_match_lit(s, at, lit_too_many()) is None) by {
                if at + lit_too_many().len() <= s.len() && s.subrange(at, at + lit_too_many().len()) == lit_too_many() {
                    assert(s.subrange(at, at + lit_too_many().len())[1] == s[at + 1]);
                }
            }
        },
        Some(SignInFailure::WebcomDown) => {
            lemma_lit_at(s, at, lit_webcom_down());
            assert(s[at + 0] == eb[0]);
            assert(s[at + 1] == eb[1]);
            assert(spec_match_lit(s, at, lit_null()) is None) by {
                if at + lit_null().len() <= s.len() && s.subrange(at, at + lit_null().len()) == lit_null() {
                    assert(s.subrange(at, at + lit_null().len())[0] == s[at]);
                }
            }
            assert(spec_match_lit(s, at, lit_too_many()) is None) by {
                if at + lit_too_many().len() <= s.len() && s.subrange(at, at + lit_too_many().len()) == lit_too_many() {
                    assert(s.subrange(at, at + lit_too_many().len())[1] == s[at + 1]);
                }
            }
            assert(spec_match_lit(s, at, lit_incorrect()) is None) by {
                if at + lit_incorrect().len() <= s.len() && s.subrange(at, at + lit_incorrect().len()) == lit_incorrect() {
                    assert(s.subrange(at, at + lit_incorrect().len())[1] == s[at + 1]);
                }
            }
        },
        Some(SignInFailure::Unknown) => {
            lemma_lit_at(s, at, lit_unknown());
            assert(s[at + 0] == eb[0]);
            assert(s[at + 1] == eb[1]);
            assert(spec_match_lit(s, at, lit_null()) is None) by {
                if at + lit_null().len() <= s.len() && s.subrange(at, at + lit_null().len()) == lit_null() {
                    assert(s.subrange(at, at + lit_null().len())[0] == s[at]);
                }
            }
            assert(spec_match_lit(s, at, lit_too_many()) is None) by {
                if at + lit_too_many().len() <= s.len() && s.subrange(at, at + lit_too_many().len()) == lit_too_many() {
                    assert(s.subrange(at, at + lit_too_many().len())[1] == s[at + 1]);
                }
            }
            assert(spec_match_lit(s, at, lit_incorrect()) is None) by {
                if at + lit_incorrect().len() <= s.len() && s.subrange(at, at + lit_incorrect().len()) == lit_incorrect() {
                    assert(s.subrange(at, at + lit_incorrect().len())[1] == s[at + 1]);
                }
            }
            assert(spec_match_lit(s, at, lit_webcom_down()) is None) by {
                if at + lit_webcom_down().len() <= s.len() && s.subrange(at, at + lit_webcom_down().len()) == lit_webcom_down() {
                    assert(s.subrange(at, at + lit_webcom_down().len())[1] == s[at + 1]);
                }
            }
        },
        Some(SignInFailure::Other(msg)) => {
            let payload = vstd::utf8::encode_utf8(msg@);
            let esc = spec_escape(payload);
            assert(eb == lit_other_open() + esc + lit_other_close());
            assert(s[at + 0] == eb[0]);
            assert(s[at + 1] == eb[1]);
            assert(spec_match_lit(s, at, lit_null()) is None) by {
                if at + lit_null().len() <= s.len() && s.subrange(at, at + lit_null().len()) == lit_null() {
                    assert(s.subrange(at, at + lit_null().len())[0] == s[at]);
                }
            }
            assert(spec_match_lit(s, at, lit_too_many()) is None) by {
                if at + lit_too_many().len() <= s.len() && s.subrange(at, at + lit_too_many().len()) == lit_too_many() {
                    assert(s.subrange(at, at + lit_too_many().len())[0] == s[at]);
                }
            }
            assert(spec_match_lit(s, at, lit_incorrect()) is None) by {
                if at + lit_incorrect().len() <= s.len() && s.subrange(at, at + lit_incorrect().len()) == lit_incorrect() {
                    assert(s.subrange(at, at + lit_incorrect().len())[0] == s[at]);
                }
            }
            assert(spec_match_lit(s, at, lit_webcom_down()) is None) by {
                if at + lit_webcom_down().len() <= s.len() && s.subrange(at, at + lit_webcom_down().len()) == lit_webcom_down() {
                    assert(s.subrange(at, at + lit_webcom_down().len())[0] == s[at]);
                }
            }
            assert(spec_match_lit(s, at, lit_unknown()) is None) by {
                if at + lit_unknown().len() <= s.len() && s.subrange(at, at + lit_unknown().len()) == lit_unknown() {
                    assert(s.subrange(at, at + lit_unknown().len())[0] == s[at]);
                }
            }
            assert forall|i: int| 0 <= i < lit_other_open().len() implies s[at + i]
                == lit_other_open()[i] by {
                assert(eb[i] == (lit_other_open() + esc + lit_other_close())[i]);
            }
            lemma_lit_at(s, at, lit_other_open());
            let po = at + lit_other_open().len();
            assert(s.subrange(po, po + esc.len() + 1) =~= esc + seq![0x22u8]) by {
                assert forall|i: int| 0 <= i < esc.len() + 1 implies s.subrange(
                    po,
                    po + esc.len() + 1,
                )[i] == (esc + seq![0x22u8])[i] by {
                    assert(s.subrange(po, po + esc.len() + 1)[i] == s[po + i]);
                    assert(s[po + i] == eb[lit_other_open().len() + i]);
                    assert(eb[lit_other_open().len() + i] == (esc + lit_other_close())[i]);
                }
            }
            lemma_unescape_escape(s, payload, po);
            let after = po + esc.len() + 1;
            assert(s[after + 0] == eb[eb.len() - 1]);
            assert(eb[eb.len() - 1] == lit_other_close()[1]);
            assert forall|i: int| 0 <= i < lit_close().len() implies s[after + i]
                == lit_close()[i] by {}
            lemma_lit_at(s, after, lit_close());
            assert(after + 1 == at + eb.len());
        },
    }
}

/// Writing the journal and reading the bytes back restores it.
#[verifier::rlimit(80)]
pub proof fn lemma_journal_round_trip(j: IncorrectCredentialsCount)
    requires
        journal_wf(j),
    ensures
        spec_parse_journal(spec_render_journal(j)) == Some(spec_parsed_of(j)),
{
    let d1 = spec_digits(j.retry_count as nat);
    let eb = spec_render_error(j.error);
    let hb = match j.previous_password_hash {
        None => lit_null(),
        Some(h) => spec_digits(h as nat),
    };
    let s = spec_render_journal(j);
    let o1 = lit_head().len() as int;
    let o2 = o1 + d1.len();
    let o3 = o2 + lit_error().len();
    let o4 = o3 + eb.len();
    let o5 = o4 + lit_hash().len();
    let o6 = o5 + hb.len();
    assert(s.len() == o6 + 1);

    lemma_digits_shape(j.retry_count as nat);
    if let Some(h) = j.previous_password_hash {
        lemma_digits_shape(h as nat);
    }

    assert forall|i: int| 0 <= i < lit_head().len() implies s[0 + i] == lit_head()[i] by {}
    lemma_lit_at(s, 0, lit_head());

    assert(s.subrange(o1, o2) =~= d1);
    assert(s[o2] == lit_error()[0]);
    lemma_parse_u64_digits(s, o1, j.retry_count as nat);
    lemma_digits_value(j.retry_count as nat);

    assert forall|i: int| 0 <= i < lit_error().len() implies s[o2 + i] == lit_error()[i] by {}
    lemma_lit_at(s, o2, lit_error());

    assert(s.subrange(o3, o4) =~= eb);
    lemma_parse_error_rendered(s, o3, j.error);

    assert forall|i: int| 0 <= i < lit_hash().len() implies s[o4 + i] == lit_hash()[i] by {}
    lemma_lit_at(s, o4, lit_hash());

    match j.previous_password_hash {
        None => {
            assert forall|i: int| 0 <= i < lit_null().len() implies s[o5 + i] == lit_null()[i] by {}
            lemma_lit_at(s, o5, lit_null());
        },
        Some(h) => {
            assert(s.subrange(o5, o6) =~= spec_digits(h as nat));
            assert(s[o5 + 0] == spec_digits(h as nat)[0]);
            assert(spec_is_digit(s[o5]));
            assert(spec_match_lit(s, o5, lit_null()) is None) by {
                if o5 + lit_null().len() <= s.len() && s.subrange(o5, o5 + lit_null().len()) == lit_null() {
                    assert(s.subrange(o5, o5 + lit_null().len())[0] == s[o5]);
                }
            }
            assert(s[o6] == lit_close()[0]);
            lemma_parse_u64_digits(s, o5, h as nat);
            lemma_digits_value(h as nat);
        },
    }

    assert forall|i: int| 0 <= i < lit_close().len() implies s[o6 + i] == lit_close()[i] by {}
    lemma_lit_at(s, o6, lit_close());
}

} // verus!
