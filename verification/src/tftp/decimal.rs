//! Decimal text for option values (RFC 2347 carries numbers as ASCII digits).
//!
//! `parse_usize` accepts exactly what `usize::from_str` accepts: an optional
//! leading `+` followed by one or more ASCII digits whose value fits in a
//! `usize`. `decimal_string` writes the shortest decimal form of a number.

use vstd::prelude::*;
use vstd::string::*;
use vstd::utf8::*;

verus! {

/// True for the ASCII bytes `0` through `9`.
pub open spec fn is_ascii_digit(b: u8) -> bool {
    48 <= b <= 57
}

/// Value of a run of ASCII digits, most significant digit first.
pub open spec fn digits_value(ds: Seq<u8>) -> nat
    decreases ds.len(),
{
    if ds.len() == 0 {
        0
    } else {
        digits_value(ds.drop_last()) * 10 + (ds.last() - 48) as nat
    }
}

/// The bytes after an optional leading `+`.
pub open spec fn unsigned_digits(bytes: Seq<u8>) -> Seq<u8> {
    if bytes.len() > 0 && bytes[0] == 43 {
        bytes.drop_first()
    } else {
        bytes
    }
}

/// The number that `bytes` spell in decimal, if they are an optional `+`
/// followed by one or more ASCII digits.
pub open spec fn decimal_value(bytes: Seq<u8>) -> Option<nat> {
    let ds = unsigned_digits(bytes);
    if ds.len() > 0 && forall|i: int| 0 <= i < ds.len() ==> is_ascii_digit(#[trigger] ds[i]) {
        Some(digits_value(ds))
    } else {
        None
    }
}

/// What `usize::from_str` yields on the UTF-8 bytes `bytes`, as an `Option`.
pub open spec fn parse_usize_spec(bytes: Seq<u8>) -> Option<usize> {
    match decimal_value(bytes) {
        Some(v) => if v <= usize::MAX {
            Some(v as usize)
        } else {
            None
        },
        None => None,
    }
}

/// The character of a decimal digit.
pub open spec fn digit_char(d: nat) -> char {
    if d == 0 {
        '0'
    } else if d == 1 {
        '1'
    } else if d == 2 {
        '2'
    } else if d == 3 {
        '3'
    } else if d == 4 {
        '4'
    } else if d == 5 {
        '5'
    } else if d == 6 {
        '6'
    } else if d == 7 {
        '7'
    } else if d == 8 {
        '8'
    } else {
        '9'
    }
}

/// Shortest decimal spelling of `n`, most significant digit first.
pub open spec fn decimal_chars(n: nat) -> Seq<char>
    decreases n,
{
    if n < 10 {
        seq![digit_char(n)]
    } else {
        decimal_chars(n / 10).push(digit_char(n % 10))
    }
}

/// Shortest decimal spelling of `n` as ASCII bytes.
pub open spec fn decimal_bytes(n: nat) -> Seq<u8>
    decreases n,
{
    if n < 10 {
        seq![(48 + n) as u8]
    } else {
        decimal_bytes(n / 10).push((48 + n % 10) as u8)
    }
}

/// Parse a `usize` the way `usize::from_str` does.
pub fn parse_usize(s: &str) -> (r: Option<usize>)
    ensures
        r == parse_usize_spec(s.spec_bytes()),
{
    let bytes = s.as_bytes();
    let len = bytes.len();
    let ghost all = bytes@;
    let ghost ds = unsigned_digits(all);
    let start: usize = if len > 0 && bytes[0] == 43u8 {
        1
    } else {
        0
    };
    assert(ds =~= all.subrange(start as int, len as int));
    if start == len {
        return None;
    }
    let mut i: usize = start;
    let mut acc: usize = 0;
    assert(ds.subrange(0, 0) =~= Seq::<u8>::empty());
    while i < len
        invariant
            start <= i <= len,
            len == all.len(),
            bytes@ == all,
            all == s.spec_bytes(),
            ds == unsigned_digits(all),
            start == (if all.len() > 0 && all[0] == 43 { 1int } else { 0int }),
            ds =~= all.subrange(start as int, len as int),
            forall|j: int| 0 <= j < i - start ==> is_ascii_digit(#[trigger] ds[j]),
            acc == digits_value(ds.subrange(0, i - start)),
        decreases len - i,
    {
        let b = bytes[i];
        if b < 48u8 || b > 57u8 {
            assert(!is_ascii_digit(ds[i - start]));
            return None;
        }
        let d = (b - 48u8) as usize;
        proof {
            let pre = ds.subrange(0, i - start + 1);
            assert(pre.drop_last() =~= ds.subrange(0, i - start));
        }
        let next = match acc.checked_mul(10) {
            Some(m) => m.checked_add(d),
            None => None,
        };
        match next {
            Some(v) => {
                acc = v;
            },
            None => {
                proof {
                    let k = (i - start + 1) as int;
                    if forall|j: int| 0 <= j < ds.len() ==> is_ascii_digit(#[trigger] ds[j]) {
                        lemma_digits_value_prefix_monotone(ds, k, ds.len() as int);
                        assert(ds.subrange(0, ds.len() as int) =~= ds);
                    }
                }
                return None;
            },
        }
        i = i + 1;
    }
    assert(ds.subrange(0, len - start) =~= ds);
    Some(acc)
}

/// A longer prefix of a digit run never has a smaller value.
pub proof fn lemma_digits_value_prefix_monotone(ds: Seq<u8>, k: int, m: int)
    requires
        0 <= k <= m <= ds.len(),
    ensures
        digits_value(ds.subrange(0, k)) <= digits_value(ds.subrange(0, m)),
    decreases m - k,
{
    if k < m {
        lemma_digits_value_prefix_monotone(ds, k, m - 1);
        assert(ds.subrange(0, m).drop_last() =~= ds.subrange(0, m - 1));
    }
}

/// The one-character string of a decimal digit.
fn digit_str(d: usize) -> (r: &'static str)
    requires
        d < 10,
    ensures
        r@ == seq![digit_char(d as nat)],
{
    if d == 0 {
        proof {
            reveal_strlit("0");
        }
        "0"
    } else if d == 1 {
        proof {
            reveal_strlit("1");
        }
        "1"
    } else if d == 2 {
        proof {
            reveal_strlit("2");
        }
        "2"
    } else if d == 3 {
        proof {
            reveal_strlit("3");
        }
        "3"
    } else if d == 4 {
        proof {
            reveal_strlit("4");
        }
        "4"
    } else if d == 5 {
        proof {
            reveal_strlit("5");
        }
        "5"
    } else if d == 6 {
        proof {
            reveal_strlit("6");
        }
        "6"
    } else if d == 7 {
        proof {
            reveal_strlit("7");
        }
        "7"
    } else if d == 8 {
        proof {
            reveal_strlit("8");
        }
        "8"
    } else {
        proof {
            reveal_strlit("9");
        }
        "9"
    }
}

/// The shortest decimal spelling of `n` (what `n.to_string()` gives).
pub fn decimal_string(n: usize) -> (s: String)
    ensures
        s@ == decimal_chars(n as nat),
    decreases n,
{
    if n < 10 {
        String::from_str(digit_str(n))
    } else {
        let mut s = decimal_string(n / 10);
        s.append(digit_str(n % 10));
        s
    }
}

/// UTF-8 encoding distributes over concatenation.
pub proof fn lemma_encode_utf8_concat(a: Seq<char>, b: Seq<char>)
    ensures
        encode_utf8(a + b) == encode_utf8(a) + encode_utf8(b),
    decreases a.len(),
{
    if a.len() == 0 {
        assert(a + b =~= b);
    } else {
        assert((a + b).drop_first() =~= a.drop_first() + b);
        lemma_encode_utf8_concat(a.drop_first(), b);
        assert(encode_utf8(a + b) =~= encode_utf8(a) + encode_utf8(b));
    }
}

/// The UTF-8 bytes of a decimal spelling are its ASCII digits.
pub proof fn lemma_decimal_chars_bytes(n: nat)
    ensures
        encode_utf8(decimal_chars(n)) == decimal_bytes(n),
    decreases n,
{
    let d = if n < 10 { n } else { n % 10 };
    let c = digit_char(d);
    assert(c as u32 == 48 + d);
    let one = seq![c];
    assert(one.drop_first() =~= Seq::<char>::empty());
    assert(encode_utf8(one) =~= seq![(48 + d) as u8]) by {
        let cu: u32 = c as u32;
        let du: u32 = d as u32;
        assert(has_width_1_encoding(cu));
        assert(encode_utf8(Seq::<char>::empty()) =~= Seq::<u8>::empty());
        assert(one[0] == c);
        assert(leading_byte_width_1(cu) == (48 + du) as u8) by (bit_vector)
            requires
                cu == 48 + du,
                du < 10,
        ;
    }
    if n >= 10 {
        lemma_decimal_chars_bytes(n / 10);
        lemma_encode_utf8_concat(decimal_chars(n / 10), one);
        assert(decimal_chars(n / 10).push(c) =~= decimal_chars(n / 10) + one);
        assert(decimal_bytes(n / 10).push((48 + d) as u8) =~= decimal_bytes(n / 10) + seq![
            (48 + d) as u8,
        ]);
    }
}

/// Decimal spelling read back by the parser gives the number again.
pub proof fn lemma_decimal_bytes_value(n: nat)
    ensures
        decimal_bytes(n).len() > 0,
        decimal_bytes(n)[0] != 43,
        forall|i: int| 0 <= i < decimal_bytes(n).len() ==> is_ascii_digit(#[trigger] decimal_bytes(n)[i]),
        digits_value(decimal_bytes(n)) == n,
    decreases n,
{
    if n < 10 {
        assert(decimal_bytes(n).drop_last() =~= Seq::<u8>::empty());
        assert(digits_value(Seq::<u8>::empty()) == 0);
        assert(decimal_bytes(n).last() == (48 + n) as u8);
    } else {
        lemma_decimal_bytes_value(n / 10);
        let prev = decimal_bytes(n / 10);
        assert(n == (n / 10) * 10 + n % 10);
        assert(decimal_bytes(n).last() == (48 + n % 10) as u8);
        let lb = decimal_bytes(n).last();
        assert(n % 10 < 10);
        assert(lb == 48 + n % 10);
        assert((lb - 48) as nat == n % 10);
        assert(digits_value(decimal_bytes(n)) == digits_value(decimal_bytes(n).drop_last()) * 10 + (
        lb - 48) as nat);
        assert(decimal_bytes(n).drop_last() =~= prev);
        assert forall|i: int| 0 <= i < decimal_bytes(n).len() implies is_ascii_digit(
            #[trigger] decimal_bytes(n)[i],
        ) by {
            if i < prev.len() {
                assert(decimal_bytes(n)[i] == prev[i]);
            }
        }
    }
}

/// Law: a number written by `decimal_string` is read back by `parse_usize`
/// as the same number.
pub proof fn lemma_parse_decimal_roundtrip(n: usize)
    ensures
        parse_usize_spec(encode_utf8(decimal_chars(n as nat))) == Some(n),
{
    lemma_decimal_chars_bytes(n as nat);
    lemma_decimal_bytes_value(n as nat);
    let bs = decimal_bytes(n as nat);
    assert(unsigned_digits(bs) == bs);
}

} // verus!
