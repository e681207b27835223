//! The wire encoding of parameter values: percent-encoding of bytes, with a
//! decoder and a round-trip proof, plus small helpers for turning ASCII bytes
//! and decimal numbers into strings.
//!
//! A byte is left unchanged when it is a letter, a digit, or one of `*-._`;
//! a space becomes `+`; every other byte becomes `%` followed by two
//! uppercase hexadecimal digits.
use vstd::prelude::*;

verus! {

/// Bytes that the wire encoding leaves unchanged: ASCII letters and digits,
/// and `*`, `-`, `.`, `_`.
pub open spec fn is_unreserved_byte(b: u8) -> bool {
    b == 42 || b == 45 || b == 46 || b == 95 || (48 <= b && b <= 57) || (65 <= b && b <= 90) || (
    97 <= b && b <= 122)
}

/// The uppercase hexadecimal digit for a value below 16, as an ASCII byte.
pub open spec fn spec_hex_upper(n: u8) -> u8
    recommends
        n < 16,
{
    if n < 10 {
        (48 + n) as u8
    } else {
        (55 + n) as u8
    }
}

/// The encoding of a single byte.
pub open spec fn spec_encode_byte(b: u8) -> Seq<u8> {
    if b == 32 {
        seq![43u8]
    } else if is_unreserved_byte(b) {
        seq![b]
    } else {
        seq![37u8, spec_hex_upper(b / 16), spec_hex_upper(b % 16)]
    }
}

/// The encoding of a byte sequence: each byte encoded, in order.
pub open spec fn spec_encode(s: Seq<u8>) -> Seq<u8>
    decreases s.len(),
{
    if s.len() == 0 {
        Seq::empty()
    } else {
        spec_encode_byte(s[0]) + spec_encode(s.skip(1))
    }
}

/// The value of an ASCII hexadecimal digit, upper or lower case.
pub open spec fn spec_hex_val(b: u8) -> Option<u8> {
    if 48 <= b && b <= 57 {
        Some((b - 48) as u8)
    } else if 65 <= b && b <= 70 {
        Some((b - 55) as u8)
    } else if 97 <= b && b <= 102 {
        Some((b - 87) as u8)
    } else {
        None
    }
}

/// The decoding of an encoded byte sequence; `None` where a `%` is not
/// followed by two hexadecimal digits.
pub open spec fn spec_decode(s: Seq<u8>) -> Option<Seq<u8>>
    decreases s.len(),
{
    if s.len() == 0 {
        Some(Seq::empty())
    } else if s[0] == 37 {
        if s.len() >= 3 && spec_hex_val(s[1]) is Some && spec_hex_val(s[2]) is Some {
            match spec_decode(s.skip(3)) {
                Some(rest) => Some(
                    seq![(spec_hex_val(s[1])->0 * 16 + spec_hex_val(s[2])->0) as u8] + rest,
                ),
                None => None,
            }
        } else {
            None
        }
    } else {
        match spec_decode(s.skip(1)) {
            Some(rest) => Some(seq![if s[0] == 43 { 32u8 } else { s[0] }] + rest),
            None => None,
        }
    }
}

/// Encoding distributes over concatenation.
pub proof fn lemma_spec_encode_concat(a: Seq<u8>, b: Seq<u8>)
    ensures
        spec_encode(a + b) == spec_encode(a) + spec_encode(b),
    decreases a.len(),
{
    if a.len() == 0 {
        assert(a + b =~= b);
        assert(spec_encode(a) + spec_encode(b) =~= spec_encode(b));
    } else {
        assert((a + b).skip(1) =~= a.skip(1) + b);
        lemma_spec_encode_concat(a.skip(1), b);
        assert(spec_encode(a + b) =~= spec_encode_byte(a[0]) + (spec_encode(a.skip(1))
            + spec_encode(b)));
        assert(spec_encode_byte(a[0]) + (spec_encode(a.skip(1)) + spec_encode(b)) =~= (
        spec_encode_byte(a[0]) + spec_encode(a.skip(1))) + spec_encode(b));
    }
}

/// One more byte of input appends that byte's encoding to the output.
pub proof fn lemma_spec_encode_step(s: Seq<u8>, i: int)
    requires
        0 <= i < s.len(),
    ensures
        spec_encode(s.take(i + 1)) == spec_encode(s.take(i)) + spec_encode_byte(s[i]),
{
    assert(s.take(i + 1) =~= s.take(i) + seq![s[i]]);
    lemma_spec_encode_concat(s.take(i), seq![s[i]]);
    assert(spec_encode(seq![s[i]]) =~= spec_encode_byte(s[i]) + spec_encode(
        seq![s[i]].skip(1),
    ));
    assert(seq![s[i]].skip(1) =~= Seq::<u8>::empty());
    assert(spec_encode_byte(s[i]) + Seq::<u8>::empty() =~= spec_encode_byte(s[i]));
}

/// Every byte of an encoding is ASCII.
pub proof fn lemma_spec_encode_ascii(s: Seq<u8>)
    ensures
        forall|i: int| 0 <= i < spec_encode(s).len() ==> spec_encode(s)[i] < 128,
    decreases s.len(),
{
    if s.len() != 0 {
        lemma_spec_encode_ascii(s.skip(1));
        let e0 = spec_encode_byte(s[0]);
        let rest = spec_encode(s.skip(1));
        assert forall|i: int| 0 <= i < spec_encode(s).len() implies spec_encode(s)[i] < 128 by {
            if i < e0.len() {
                assert(spec_encode(s)[i] == e0[i]);
            } else {
                assert(spec_encode(s)[i] == rest[i - e0.len()]);
            }
        }
    }
}

/// An uppercase hexadecimal digit reads back as the value it was made from.
proof fn lemma_hex_upper_val(n: u8)
    requires
        n < 16,
    ensures
        spec_hex_val(spec_hex_upper(n)) == Some(n),
{
}

/// Decoding an encoded sequence yields the original bytes.
pub proof fn lemma_encode_roundtrip(s: Seq<u8>)
    ensures
        spec_decode(spec_encode(s)) == Some(s),
    decreases s.len(),
{
    if s.len() == 0 {
    } else {
        let b = s[0];
        let rest = s.skip(1);
        lemma_encode_roundtrip(rest);
        let e = spec_encode(s);
        assert(e =~= spec_encode_byte(b) + spec_encode(rest));
        if b == 32 {
            assert(e[0] == 43);
            assert(e.skip(1) =~= spec_encode(rest));
            assert(spec_decode(e) == Some(seq![32u8] + rest));
            assert(seq![32u8] + rest =~= s);
        } else if is_unreserved_byte(b) {
            assert(e[0] == b);
            assert(b != 37 && b != 43);
            assert(e.skip(1) =~= spec_encode(rest));
            assert(spec_decode(e) == Some(seq![b] + rest));
            assert(seq![b] + rest =~= s);
        } else {
            assert(e[0] == 37);
            assert(e.len() >= 3);
            assert(e[1] == spec_hex_upper(b / 16));
            assert(e[2] == spec_hex_upper(b % 16));
            lemma_hex_upper_val(b / 16);
            lemma_hex_upper_val(b % 16);
            assert(e.skip(3) =~= spec_encode(rest));
            assert((b / 16) * 16 + (b % 16) == b) by (nonlinear_arith);
            assert(spec_decode(e) == Some(seq![b] + rest));
            assert(seq![b] + rest =~= s);
        }
    }
}

/// Whether the byte is left unchanged by the encoding.
fn is_unreserved(b: u8) -> (r: bool)
    ensures
        r == is_unreserved_byte(b),
{
    b == 42 || b == 45 || b == 46 || b == 95 || (48 <= b && b <= 57) || (65 <= b && b <= 90) || (97
        <= b && b <= 122)
}

/// The uppercase hexadecimal digit of a value below 16.
fn hex_upper(n: u8) -> (r: u8)
    requires
        n < 16,
    ensures
        r == spec_hex_upper(n),
{
    if n < 10 {
        48 + n
    } else {
        55 + n
    }
}

/// Percent-encode a byte sequence.
pub fn percent_encode_bytes(s: &Vec<u8>) -> (r: Vec<u8>)
    ensures
        r@ == spec_encode(s@),
{
    let mut out: Vec<u8> = Vec::new();
    let mut i: usize = 0;
    while i < s.len()
        invariant
            i <= s@.len(),
            out@ == spec_encode(s@.take(i as int)),
        decreases s@.len() - i,
    {
        let b = s[i];
        if b == 32 {
            out.push(43);
        } else if is_unreserved(b) {
            out.push(b);
        } else {
            out.push(37);
            out.push(hex_upper(b / 16));
            out.push(hex_upper(b % 16));
        }
        proof {
            lemma_spec_encode_step(s@, i as int);
            assert(out@ =~= spec_encode(s@.take(i as int)) + spec_encode_byte(s@[i as int]));
        }
        i = i + 1;
    }
    proof {
        assert(s@.take(s@.len() as int) =~= s@);
    }
    out
}

/// The value of an ASCII hexadecimal digit, if it is one.
fn hex_val(b: u8) -> (r: Option<u8>)
    ensures
        r == spec_hex_val(b),
{
    if 48 <= b && b <= 57 {
        Some(b - 48)
    } else if 65 <= b && b <= 70 {
        Some(b - 55)
    } else if 97 <= b && b <= 102 {
        Some(b - 87)
    } else {
        None
    }
}

/// Percent-decode a byte sequence; `None` where a `%` escape is malformed.
pub fn percent_decode_bytes(s: &Vec<u8>) -> (r: Option<Vec<u8>>)
    ensures
        match r {
            Some(v) => spec_decode(s@) == Some(v@),
            None => spec_decode(s@) is None,
        },
{
    let mut out: Vec<u8> = Vec::new();
    let mut i: usize = 0;
    proof {
        assert(s@.skip(0) =~= s@);
        if spec_decode(s@) is Some {
            assert(out@ + spec_decode(s@)->0 =~= spec_decode(s@)->0);
        }
    }
    while i < s.len()
        invariant
            i <= s@.len(),
            spec_decode(s@) == match spec_decode(s@.skip(i as int)) {
                Some(rest) => Some(out@ + rest),
                None => None::<Seq<u8>>,
            },
        decreases s@.len() - i,
    {
        let ghost tail = s@.skip(i as int);
        let ghost pre = out@;
        let b = s[i];
        proof {
            assert(tail[0] == b);
        }
        if b == 37 {
            if s.len() - i >= 3 {
                let h1 = hex_val(s[i + 1]);
                let h2 = hex_val(s[i + 2]);
                proof {
                    assert(tail.len() >= 3);
                    assert(tail[1] == s@[i + 1]);
                    assert(tail[2] == s@[i + 2]);
                }
                match (h1, h2) {
                    (Some(v1), Some(v2)) => {
                        let d: u8 = v1 * 16 + v2;
                        out.push(d);
                        proof {
                            assert(tail.skip(3) =~= s@.skip(i + 3));
                            assert(out@ =~= pre + seq![d]);
                            if spec_decode(s@.skip(i + 3)) is Some {
                                let rest = spec_decode(s@.skip(i + 3))->0;
                                assert(spec_decode(tail) == Some(seq![d] + rest));
                                assert(pre + (seq![d] + rest) =~= (pre + seq![d]) + rest);
                            }
                        }
                        i = i + 3;
                    },
                    _ => {
                        proof {
                            assert(spec_decode(tail) is None);
                        }
                        return None;
                    },
                }
            } else {
                proof {
                    assert(tail.len() < 3);
                    assert(spec_decode(tail) is None);
                }
                return None;
            }
        } else {
            let d: u8 = if b == 43 {
                32
            } else {
                b
            };
            out.push(d);
            proof {
                assert(tail.skip(1) =~= s@.skip(i + 1));
                assert(out@ =~= pre + seq![d]);
                if spec_decode(s@.skip(i + 1)) is Some {
                    let rest = spec_decode(s@.skip(i + 1))->0;
                    assert(spec_decode(tail) == Some(seq![d] + rest));
                    assert(pre + (seq![d] + rest) =~= (pre + seq![d]) + rest);
                }
            }
            i = i + 1;
        }
    }
    proof {
        assert(s@.skip(s@.len() as int) =~= Seq::<u8>::empty());
        assert(out@ + Seq::<u8>::empty() =~= out@);
    }
    Some(out)
}

/// The chars with the same values as a sequence of ASCII bytes.
pub open spec fn chars_of_ascii(s: Seq<u8>) -> Seq<char> {
    Seq::new(s.len(), |i: int| s[i] as char)
}

/// Relies on `String::from_utf8`: bytes below 0x80 are valid UTF-8 and decode
/// to the chars with the same values.
#[verifier::external_body]
pub fn ascii_to_string(v: Vec<u8>) -> (r: String)
    requires
        forall|i: int| 0 <= i < v@.len() ==> v@[i] < 128,
    ensures
        r@ == chars_of_ascii(v@),
{
    match String::from_utf8(v) {
        Ok(s) => s,
        Err(_) => String::new(),
    }
}

/// The decimal digits of a number, as ASCII bytes, most significant first.
pub open spec fn spec_decimal(n: nat) -> Seq<u8>
    decreases n,
{
    if n < 10 {
        seq![(48 + n) as u8]
    } else {
        spec_decimal(n / 10) + seq![(48 + n % 10) as u8]
    }
}

/// Render a number in decimal.
pub fn u64_to_decimal(n: u64) -> (r: String)
    ensures
        r@ == chars_of_ascii(spec_decimal(n as nat)),
{
    let mut out: Vec<u8> = Vec::new();
    let mut m: u64 = n;
    while m >= 10
        invariant
            spec_decimal(n as nat) == spec_decimal(m as nat) + out@,
            forall|i: int| 0 <= i < out@.len() ==> out@[i] < 128,
        decreases m,
    {
        let d: u8 = 48 + (m % 10) as u8;
        out.insert(0, d);
        proof {
            assert(spec_decimal(m as nat) == spec_decimal((m as nat) / 10) + seq![d]);
            assert((m / 10) as nat == (m as nat) / 10);
            assert(spec_decimal((m as nat) / 10) + (seq![d] + out@.skip(1)) =~= (spec_decimal(
                (m as nat) / 10,
            ) + seq![d]) + out@.skip(1));
            assert(out@ =~= seq![d] + out@.skip(1));
        }
        m = m / 10;
    }
    let d: u8 = 48 + m as u8;
    out.insert(0, d);
    proof {
        assert(spec_decimal(m as nat) == seq![d]);
        assert(out@ =~= seq![d] + out@.skip(1));
        assert(spec_decimal(n as nat) =~= out@);
    }
    ascii_to_string(out)
}

} // verus!
