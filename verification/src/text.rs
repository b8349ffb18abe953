//! Text utilities of the codec: decimal rendering of numeric codes, decimal
//! parsing of string-encoded symbol values, substring search for error
//! classification, UTF-8 decoding of register byte streams, and removal of
//! the trailing NUL padding that fixed-width string registers carry.

use vstd::prelude::*;

verus! {

/// The character of a single decimal digit.
pub open spec fn spec_digit_char(d: int) -> char {
    if d == 0 {
        '0'
    } else if d == 1 {
        '1'
    } else if d == 2 {
        '2'
    } else if d == 3 {
        '3'
    } else if d == 4 {
        '4'
    } else if d == 5 {
        '5'
    } else if d == 6 {
        '6'
    } else if d == 7 {
        '7'
    } else if d == 8 {
        '8'
    } else {
        '9'
    }
}

/// The decimal rendering of a natural number, most significant digit first.
pub open spec fn spec_dec_chars(n: nat) -> Seq<char>
    decreases n,
{
    if n < 10 {
        seq![spec_digit_char(n as int)]
    } else {
        spec_dec_chars(n / 10).push(spec_digit_char((n % 10) as int))
    }
}

fn dec_digit_str(d: u64) -> (r: &'static str)
    requires
        d < 10,
    ensures
        r@ =~= seq![spec_digit_char(d as int)],
{
    proof {
        reveal_strlit("0");
        reveal_strlit("1");
        reveal_strlit("2");
        reveal_strlit("3");
        reveal_strlit("4");
        reveal_strlit("5");
        reveal_strlit("6");
        reveal_strlit("7");
        reveal_strlit("8");
        reveal_strlit("9");
    }
    match d {
        0 => "0",
        1 => "1",
        2 => "2",
        3 => "3",
        4 => "4",
        5 => "5",
        6 => "6",
        7 => "7",
        8 => "8",
        _ => "9",
    }
}

/// Render a number in decimal, most significant digit first.
pub fn u64_to_dec_string(n: u64) -> (r: String)
    ensures
        r@ == spec_dec_chars(n as nat),
    decreases n,
{
    if n < 10 {
        dec_digit_str(n).to_owned()
    } else {
        let mut s = u64_to_dec_string(n / 10);
        s.append(dec_digit_str(n % 10));
        proof {
            assert(s@ =~= spec_dec_chars(n as nat));
        }
        s
    }
}

/// The decimal rendering of a signed number, with a leading minus sign if
/// negative.
pub open spec fn spec_i64_dec_chars(n: i64) -> Seq<char> {
    if n >= 0 {
        spec_dec_chars(n as nat)
    } else {
        seq!['-'].add(spec_dec_chars((-(n as int)) as nat))
    }
}

/// Render a signed number in decimal, with a leading minus sign if negative.
pub fn i64_to_dec_string(n: i64) -> (r: String)
    ensures
        r@ == spec_i64_dec_chars(n),
{
    if n >= 0 {
        u64_to_dec_string(n as u64)
    } else {
        proof {
            reveal_strlit("-");
        }
        let mut s = String::from_str("-");
        let mag: u64 = if n == i64::MIN {
            0x8000_0000_0000_0000u64
        } else {
            (-n) as u64
        };
        let digits = u64_to_dec_string(mag);
        s.append(digits.as_str());
        proof {
            assert(s@ =~= seq!['-'].add(spec_dec_chars((-(n as int)) as nat)));
        }
        s
    }
}

/// Whether every character of the sequence is a decimal digit, and there is
/// at least one.
pub open spec fn spec_is_dec_seq(s: Seq<char>) -> bool {
    s.len() > 0 && forall|i: int| 0 <= i < s.len() ==> '0' <= #[trigger] s[i] && s[i] <= '9'
}

/// The numeric value of a sequence of decimal digits.
pub open spec fn spec_dec_value(s: Seq<char>) -> nat
    decreases s.len(),
{
    if s.len() == 0 {
        0
    } else {
        (spec_dec_value(s.drop_last()) * 10 + (s.last() as int - '0' as int)) as nat
    }
}

proof fn lemma_dec_value_prefix_mono(s: Seq<char>, i: int)
    requires
        0 <= i <= s.len(),
        forall|j: int| i <= j < s.len() ==> '0' <= #[trigger] s[j] && s[j] <= '9',
    ensures
        spec_dec_value(s.subrange(0, i)) <= spec_dec_value(s),
    decreases s.len() - i,
{
    if i < s.len() {
        assert(s.subrange(0, i + 1).drop_last() =~= s.subrange(0, i));
        lemma_dec_value_prefix_mono(s, i + 1);
    } else {
        assert(s.subrange(0, i) =~= s);
    }
}

/// Parse a decimal number, accepting exactly the strings of one or more
/// decimal digits whose value fits in 64 bits.
pub fn parse_u64_dec(s: &str) -> (r: Option<u64>)
    ensures
        r is Some <==> spec_is_dec_seq(s@) && spec_dec_value(s@) <= u64::MAX,
        r is Some ==> r->0 == spec_dec_value(s@),
{
    let n = s.unicode_len();
    if n == 0 {
        return None;
    }
    let mut acc: u64 = 0;
    let mut i: usize = 0;
    while i < n
        invariant
            0 < n == s@.len(),
            0 <= i <= n,
            forall|j: int| 0 <= j < i ==> '0' <= #[trigger] s@[j] && s@[j] <= '9',
            acc == spec_dec_value(s@.subrange(0, i as int)),
        decreases n - i,
    {
        let c = s.get_char(i);
        if c < '0' || c > '9' {
            return None;
        }
        let d: u64 = (c as u64) - ('0' as u64);
        assert(d <= 9) by {
            assert('0' <= c && c <= '9');
        }
        if acc > (u64::MAX - d) / 10 {
            proof {
                assert(s@.subrange(0, i as int + 1).drop_last() =~= s@.subrange(0, i as int));
                assert(s@.subrange(0, i as int + 1).last() == s@[i as int]);
                assert(spec_dec_value(s@.subrange(0, i as int + 1)) > u64::MAX);
                if spec_is_dec_seq(s@) {
                    lemma_dec_value_prefix_mono(s@, i as int + 1);
                }
            }
            return None;
        }
        proof {
            assert(s@.subrange(0, i as int + 1).drop_last() =~= s@.subrange(0, i as int));
            assert(s@.subrange(0, i as int + 1).last() == s@[i as int]);
        }
        acc = acc * 10 + d;
        i = i + 1;
    }
    proof {
        assert(s@.subrange(0, n as int) =~= s@);
    }
    Some(acc)
}

/// Parse a decimal number that must fit in 32 bits.
pub fn parse_u32_dec(s: &str) -> (r: Option<u32>)
    ensures
        r is Some <==> spec_is_dec_seq(s@) && spec_dec_value(s@) <= u32::MAX,
        r is Some ==> r->0 == spec_dec_value(s@),
{
    match parse_u64_dec(s) {
        Some(v) => if v <= u32::MAX as u64 {
            Some(v as u32)
        } else {
            None
        },
        None => None,
    }
}

/// Whether the second sequence occurs contiguously inside the first.
pub open spec fn spec_contains_seq(h: Seq<char>, n: Seq<char>) -> bool {
    exists|i: int|
        0 <= i && i + n.len() <= h.len() && #[trigger] h.subrange(i, i + n.len() as int) == n
}

/// Substring search: whether `needle` occurs contiguously inside `hay`.
pub fn str_contains(hay: &str, needle: &str) -> (r: bool)
    ensures
        r == spec_contains_seq(hay@, needle@),
{
    let hn = hay.unicode_len();
    let nn = needle.unicode_len();
    if nn > hn {
        proof {
            assert(!spec_contains_seq(hay@, needle@));
        }
        return false;
    }
    let mut i: usize = 0;
    while i <= hn - nn
        invariant
            nn <= hn,
            hn == hay@.len(),
            nn == needle@.len(),
            0 <= i <= hn - nn + 1,
            forall|k: int|
                0 <= k < i ==> #[trigger] hay@.subrange(k, k + nn as int) != needle@,
        decreases hn - nn - i + 1,
    {
        let mut j: usize = 0;
        let mut matched = true;
        while j < nn
            invariant_except_break
                matched,
                forall|t: int|
                    0 <= t < j ==> hay@[i + t] == #[trigger] needle@[t],
            invariant
                nn <= hn,
                hn == hay@.len(),
                nn == needle@.len(),
                0 <= i <= hn - nn,
                0 <= j <= nn,
            ensures
                matched ==> forall|t: int|
                    0 <= t < nn ==> hay@[i + t] == #[trigger] needle@[t],
                !matched ==> exists|t: int|
                    0 <= t < nn && hay@[i + t] != #[trigger] needle@[t],
            decreases nn - j,
        {
            let hc = hay.get_char(i + j);
            let nc = needle.get_char(j);
            if hc != nc {
                matched = false;
                proof {
                    assert(hay@[i + j] != needle@[j as int]);
                }
                break;
            }
            j = j + 1;
        }
        if matched {
            proof {
                assert(hay@.subrange(i as int, i as int + nn as int) =~= needle@);
            }
            return true;
        }
        proof {
            let sub = hay@.subrange(i as int, i as int + nn as int);
            let t = choose|t: int| 0 <= t < nn && hay@[i + t] != #[trigger] needle@[t];
            assert(sub[t] == hay@[i + t]);
            assert(sub != needle@);
        }
        i = i + 1;
    }
    proof {
        assert forall|k: int| 0 <= k && k + needle@.len() <= hay@.len() implies #[trigger] hay@.subrange(
            k,
            k + needle@.len() as int,
        ) != needle@ by {
            assert(k < i);
        }
    }
    false
}

/// The bytes with the trailing run of NUL bytes removed.
pub open spec fn spec_strip_trailing_nuls(bs: Seq<u8>) -> Seq<u8>
    decreases bs.len(),
{
    if bs.len() > 0 && bs.last() == 0 {
        spec_strip_trailing_nuls(bs.drop_last())
    } else {
        bs
    }
}

proof fn lemma_strip_trailing_nuls_subrange(bs: Seq<u8>, e: int)
    requires
        0 <= e <= bs.len(),
        forall|j: int| e <= j < bs.len() ==> bs[j] == 0,
        e > 0 ==> bs[e - 1] != 0,
    ensures
        spec_strip_trailing_nuls(bs) == bs.subrange(0, e),
    decreases bs.len(),
{
    if bs.len() > 0 && bs.last() == 0 {
        assert(e < bs.len());
        lemma_strip_trailing_nuls_subrange(bs.drop_last(), e);
        assert(bs.drop_last().subrange(0, e) =~= bs.subrange(0, e));
    } else {
        assert(e == bs.len());
        assert(bs.subrange(0, e) =~= bs);
    }
}

/// Stripping leaves no trailing NUL behind: the padding is always removed
/// whole.
pub proof fn lemma_strip_leaves_no_trailing_nul(bs: Seq<u8>)
    ensures
        spec_strip_trailing_nuls(bs).len() > 0 ==> spec_strip_trailing_nuls(bs).last() != 0,
        spec_strip_trailing_nuls(bs).len() <= bs.len(),
        spec_strip_trailing_nuls(bs) == bs.subrange(0, spec_strip_trailing_nuls(bs).len() as int),
    decreases bs.len(),
{
    if bs.len() > 0 && bs.last() == 0 {
        lemma_strip_leaves_no_trailing_nul(bs.drop_last());
        assert(bs.drop_last().subrange(0, spec_strip_trailing_nuls(bs).len() as int) =~= bs.subrange(
            0,
            spec_strip_trailing_nuls(bs).len() as int,
        ));
    } else {
        assert(bs.subrange(0, bs.len() as int) =~= bs);
    }
}

/// Remove the trailing run of NUL bytes, the padding of fixed-width string
/// registers.
pub fn strip_trailing_nuls(bs: &mut Vec<u8>)
    ensures
        final(bs)@ == spec_strip_trailing_nuls(old(bs)@),
{
    let ghost orig = bs@;
    let mut e: usize = bs.len();
    while e > 0
        invariant
            bs@ == orig,
            0 <= e <= bs@.len(),
            forall|j: int| e <= j < bs@.len() ==> bs@[j] == 0,
        ensures
            bs@ == orig,
            0 <= e <= bs@.len(),
            forall|j: int| e <= j < bs@.len() ==> bs@[j] == 0,
            e > 0 ==> bs@[e - 1] != 0,
        decreases e,
    {
        if bs[e - 1] != 0 {
            break;
        }
        e = e - 1;
    }
    proof {
        lemma_strip_trailing_nuls_subrange(orig, e as int);
    }
    bs.truncate(e);
    proof {
        assert(bs@ =~= orig.subrange(0, e as int));
    }
}

/// String slice equality by contents.
pub fn str_eq(a: &str, b: &str) -> (r: bool)
    ensures
        r == (a@ == b@),
{
    a.to_owned() == b.to_owned()
}

/// Relies on String::from_utf8: returns the string decoded from the bytes
/// exactly when they are valid UTF-8, and nothing otherwise.
#[verifier::external_body]
pub fn utf8_to_string(bytes: Vec<u8>) -> (r: Option<String>)
    ensures
        r is Some <==> vstd::utf8::valid_utf8(bytes@),
        r is Some ==> r->0@ == vstd::utf8::decode_utf8(bytes@),
{
    match String::from_utf8(bytes) {
        Ok(s) => Some(s),
        Err(_) => None,
    }
}

} // verus!
