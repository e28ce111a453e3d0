//! Decimal text: specifications and executable routines for turning machine
//! integers into their decimal digit sequences and for reading decimal
//! operands back out of raw token bytes.

use vstd::prelude::*;

verus! {

/// True for the ASCII bytes `'0'` through `'9'`.
pub open spec fn is_digit_byte(b: u8) -> bool {
    48 <= b && b <= 57
}

/// Numeric value of an ASCII digit byte.
pub open spec fn digit_val(b: u8) -> nat
    recommends
        is_digit_byte(b),
{
    (b - 48) as nat
}

/// True when every byte of `s` is an ASCII digit.
pub open spec fn all_digit_bytes(s: Seq<u8>) -> bool {
    forall|i: int| 0 <= i < s.len() ==> is_digit_byte(#[trigger] s[i])
}

/// Value of a digit string read as a base-ten numeral.
pub open spec fn digits_val(s: Seq<u8>) -> nat
    decreases s.len(),
{
    if s.len() == 0 {
        0
    } else {
        digits_val(s.drop_last()) * 10 + digit_val(s.last())
    }
}

/// Decimal digit bytes of `n`, most significant first, with no leading zeros
/// (except for `n == 0`, which is written `"0"`).
pub open spec fn dec_bytes(n: nat) -> Seq<u8>
    decreases n,
{
    if n < 10 {
        seq![(48 + n) as u8]
    } else {
        dec_bytes(n / 10) + seq![(48 + n % 10) as u8]
    }
}

/// Decimal digit bytes of a signed value: a `'-'` sign, then the magnitude.
pub open spec fn int_dec_bytes(v: int) -> Seq<u8> {
    if v < 0 {
        seq![45u8] + dec_bytes((-v) as nat)
    } else {
        dec_bytes(v as nat)
    }
}

/// The characters of `dec_bytes(n)`.
pub open spec fn dec_chars(n: nat) -> Seq<char> {
    dec_bytes(n).map_values(|b: u8| b as char)
}

/// Extending a digit string on the right can only grow its value.
pub proof fn lemma_digits_val_prefix_le(s: Seq<u8>, n: int)
    requires
        0 <= n <= s.len(),
    ensures
        digits_val(s.take(n)) <= digits_val(s),
    decreases s.len() - n,
{
    if n < s.len() {
        lemma_digits_val_prefix_le(s.drop_last(), n);
        assert(s.drop_last().take(n) =~= s.take(n));
    } else {
        assert(s.take(n) =~= s);
    }
}

/// Executable decimal rendering of an unsigned value, as ASCII digit bytes.
pub fn dec_u64_to_bytes(n: u64) -> (r: Vec<u8>)
    ensures
        r@ == dec_bytes(n as nat),
    decreases n,
{
    if n < 10 {
        let mut r: Vec<u8> = Vec::new();
        r.push(48 + n as u8);
        assert(r@ =~= dec_bytes(n as nat));
        r
    } else {
        proof {
            assert(n / 10 < n) by (nonlinear_arith)
                requires
                    n >= 10,
            ;
        }
        let mut r = dec_u64_to_bytes(n / 10);
        r.push(48 + (n % 10) as u8);
        assert(r@ =~= dec_bytes(n as nat));
        r
    }
}

/// Executable decimal rendering of a signed value, as ASCII bytes.
pub fn dec_i64_to_bytes(v: i64) -> (r: Vec<u8>)
    ensures
        r@ == int_dec_bytes(v as int),
{
    if v < 0 {
        let m: u64 = (-(v as i128)) as u64;
        let mut r: Vec<u8> = Vec::new();
        r.push(45);
        let mut digits = dec_u64_to_bytes(m);
        r.append(&mut digits);
        assert(r@ =~= int_dec_bytes(v as int));
        r
    } else {
        let r = dec_u64_to_bytes(v as u64);
        r
    }
}

/// The character standing for a single decimal digit.
pub open spec fn digit_char(d: nat) -> char {
    ((48 + d) as u8) as char
}

/// One-character string slice for a digit value.
fn digit_str(d: u64) -> (r: &'static str)
    requires
        d < 10,
    ensures
        r@ == seq![digit_char(d as nat)],
{
    proof {
        reveal_strlit("0");
        reveal_strlit("1");
        reveal_strlit("2");
        reveal_strlit("3");
        reveal_strlit("4");
        reveal_strlit("5");
        reveal_strlit("6");
        reveal_strlit("7");
        reveal_strlit("8");
        reveal_strlit("9");
    }
    if d == 0 {
        assert("0"@ =~= seq![digit_char(0)]);
        "0"
    } else if d == 1 {
        assert("1"@ =~= seq![digit_char(1)]);
        "1"
    } else if d == 2 {
        assert("2"@ =~= seq![digit_char(2)]);
        "2"
    } else if d == 3 {
        assert("3"@ =~= seq![digit_char(3)]);
        "3"
    } else if d == 4 {
        assert("4"@ =~= seq![digit_char(4)]);
        "4"
    } else if d == 5 {
        assert("5"@ =~= seq![digit_char(5)]);
        "5"
    } else if d == 6 {
        assert("6"@ =~= seq![digit_char(6)]);
        "6"
    } else if d == 7 {
        assert("7"@ =~= seq![digit_char(7)]);
        "7"
    } else if d == 8 {
        assert("8"@ =~= seq![digit_char(8)]);
        "8"
    } else {
        assert("9"@ =~= seq![digit_char(9)]);
        "9"
    }
}

/// Appends the decimal rendering of `n` to a string under construction.
pub fn append_dec_u64(s: &mut String, n: u64)
    ensures
        final(s)@ == old(s)@ + dec_chars(n as nat),
    decreases n,
{
    if n < 10 {
        s.append(digit_str(n));
        assert(old(s)@ + seq![digit_char(n as nat)] =~= old(s)@ + dec_chars(n as nat));
    } else {
        proof {
            assert(n / 10 < n) by (nonlinear_arith)
                requires
                    n >= 10,
            ;
        }
        append_dec_u64(s, n / 10);
        s.append(digit_str(n % 10));
        proof {
            let db = dec_bytes(n as nat);
            assert(db =~= dec_bytes((n / 10) as nat) + seq![(48 + n % 10) as u8]);
            assert(dec_chars(n as nat) =~= dec_chars((n / 10) as nat) + seq![
                digit_char((n % 10) as nat),
            ]);
            assert(old(s)@ + dec_chars((n / 10) as nat) + seq![digit_char((n % 10) as nat)]
                =~= old(s)@ + dec_chars(n as nat));
        }
    }
}


/// Characters of a byte string whose bytes are all ASCII, each byte read as
/// its own character.
pub open spec fn ascii_chars(s: Seq<u8>) -> Seq<char> {
    s.map_values(|b: u8| b as char)
}

/// True when every byte of `s` is ASCII.
pub open spec fn is_ascii_bytes(s: Seq<u8>) -> bool {
    forall|i: int| 0 <= i < s.len() ==> #[trigger] s[i] < 128
}

/// The text a raw byte string displays as when it is embedded in a message.
pub uninterp spec fn text_of_bytes(s: Seq<u8>) -> Seq<char>;

/// Relies on `String::from_utf8_lossy`: the text depends on the bytes
/// alone, and ASCII bytes come back unchanged, each as its own character.
#[verifier::external_body]
pub(crate) fn bytes_text(b: &Vec<u8>) -> (r: String)
    ensures
        r@ == text_of_bytes(b@),
        is_ascii_bytes(b@) ==> r@ == ascii_chars(b@),
{
    String::from_utf8_lossy(b).into_owned()
}

/// Result of reading an unsigned decimal numeral from raw bytes: an optional
/// leading `'+'`, then one or more digits, value at most `max`.
pub open spec fn spec_parse_unsigned(s: Seq<u8>, max: nat) -> Option<nat> {
    let body = if s.len() > 0 && s[0] == 43 {
        s.skip(1)
    } else {
        s
    };
    if body.len() > 0 && all_digit_bytes(body) && digits_val(body) <= max {
        Some(digits_val(body))
    } else {
        None
    }
}

/// Result of reading a signed decimal numeral from raw bytes: an optional
/// `'+'` or `'-'` sign, then one or more digits, value within `min ..= max`.
pub open spec fn spec_parse_signed(s: Seq<u8>, min: int, max: int) -> Option<int> {
    if s.len() > 0 && s[0] == 45 {
        let body = s.skip(1);
        if body.len() > 0 && all_digit_bytes(body) && -(digits_val(body) as int) >= min {
            Some(-(digits_val(body) as int))
        } else {
            None
        }
    } else {
        match spec_parse_unsigned(s, max as nat) {
            Some(v) => Some(v as int),
            None => None,
        }
    }
}

/// Reads the digit body `s[from..]` as a number, refusing values above `max`.
fn parse_digits(s: &[u8], from: usize, max: u64) -> (r: Option<u64>)
    requires
        from <= s@.len(),
    ensures
        match r {
            Some(v) => {
                &&& s@.skip(from as int).len() > 0
                &&& all_digit_bytes(s@.skip(from as int))
                &&& digits_val(s@.skip(from as int)) == v as nat
                &&& v <= max
            },
            None => s@.skip(from as int).len() == 0 || !all_digit_bytes(s@.skip(from as int))
                || digits_val(s@.skip(from as int)) > max,
        },
{
    let ghost body = s@.skip(from as int);
    if from == s.len() {
        return None;
    }
    let mut acc: u64 = 0;
    let mut i: usize = from;
    while i < s.len()
        invariant
            from <= i <= s@.len(),
            from < s@.len(),
            body == s@.skip(from as int),
            all_digit_bytes(s@.subrange(from as int, i as int)),
            acc as nat == digits_val(s@.subrange(from as int, i as int)),
            acc <= max,
        decreases s@.len() - i,
    {
        let b = s[i];
        let ghost prefix = s@.subrange(from as int, i as int);
        let ghost prefix2 = s@.subrange(from as int, i + 1 as int);
        proof {
            assert(prefix2.drop_last() =~= prefix);
            assert(prefix2.last() == s@[i as int]);
        }
        if b < 48 || b > 57 {
            assert(!is_digit_byte(body[i - from]));
            return None;
        }
        let d = (b - 48) as u64;
        if acc > max / 10 || (acc == max / 10 && d > max % 10) {
            proof {
                assert(digits_val(prefix2) == acc * 10 + d);
                assert(acc * 10 + d > max) by (nonlinear_arith)
                    requires
                        acc <= max,
                        d < 10,
                        acc > max / 10 || (acc == max / 10 && d > max % 10),
                        max / 10 * 10 + max % 10 == max,
                ;
                if all_digit_bytes(body) {
                    lemma_digits_val_prefix_le(body, i + 1 - from);
                    assert(body.take(i + 1 - from) =~= prefix2);
                }
            }
            return None;
        }
        proof {
            assert(acc * 10 + d <= max) by (nonlinear_arith)
                requires
                    d < 10,
                    acc <= max / 10,
                    !(acc == max / 10 && d > max % 10),
                    max / 10 * 10 + max % 10 == max,
            ;
        }
        acc = acc * 10 + d;
        i += 1;
    }
    proof {
        assert(s@.subrange(from as int, s@.len() as int) =~= body);
    }
    Some(acc)
}

/// Reads an unsigned decimal operand, exactly as `spec_parse_unsigned` says.
pub fn parse_unsigned(s: &[u8], max: u64) -> (r: Option<u64>)
    ensures
        match r {
            Some(v) => spec_parse_unsigned(s@, max as nat) == Some(v as nat),
            None => spec_parse_unsigned(s@, max as nat) is None,
        },
{
    let from: usize = if s.len() > 0 && s[0] == 43 {
        1
    } else {
        0
    };
    proof {
        if s@.len() > 0 && s@[0] == 43 {
            assert(s@.skip(1) == s@.skip(from as int));
        } else {
            assert(s@.skip(0) =~= s@);
        }
    }
    parse_digits(s, from, max)
}

/// Reads a signed decimal operand, exactly as `spec_parse_signed` says.
pub fn parse_signed(s: &[u8], min: i64, max: i64) -> (r: Option<i64>)
    requires
        min <= 0 <= max,
    ensures
        match r {
            Some(v) => spec_parse_signed(s@, min as int, max as int) == Some(v as int),
            None => spec_parse_signed(s@, min as int, max as int) is None,
        },
{
    if s.len() > 0 && s[0] == 45 {
        let bound: u64 = (-(min as i128)) as u64;
        match parse_digits(s, 1, bound) {
            Some(m) => {
                let v: i64 = (-(m as i128)) as i64;
                Some(v)
            },
            None => None,
        }
    } else {
        match parse_unsigned(s, max as u64) {
            Some(v) => Some(v as i64),
            None => None,
        }
    }
}

} // verus!
