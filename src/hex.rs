//! `0x`-prefixed hexadecimal text for byte strings, as ASCII bytes.
use vstd::prelude::*;

verus! {

/// The lower-case ASCII digit of a nibble.
pub open spec fn hex_digit(n: int) -> u8 {
    if n < 10 {
        (48 + n) as u8
    } else {
        (87 + n) as u8
    }
}

/// The value of an ASCII hex digit of either case.
pub open spec fn digit_value(c: u8) -> Option<int> {
    if 48 <= c <= 57 {
        Some(c - 48)
    } else if 97 <= c <= 102 {
        Some(c - 87)
    } else if 65 <= c <= 70 {
        Some(c - 55)
    } else {
        None
    }
}

/// Two lower-case digits per byte, high nibble first.
pub open spec fn hex_of(b: Seq<u8>) -> Seq<u8> {
    Seq::new(
        2 * b.len(),
        |i: int|
            if i % 2 == 0 {
                hex_digit(b[i / 2] as int / 16)
            } else {
                hex_digit(b[i / 2] as int % 16)
            },
    )
}

pub open spec fn prefix() -> Seq<u8> {
    seq![48u8, 120u8]
}

/// The text without its `0x` prefix, where it has one.
pub open spec fn hex_body(s: Seq<u8>) -> Seq<u8> {
    if s.len() >= 2 && s[0] == 48 && s[1] == 120 {
        s.subrange(2, s.len() as int)
    } else {
        s
    }
}

pub open spec fn valid_hex(body: Seq<u8>) -> bool {
    &&& body.len() % 2 == 0
    &&& forall|i: int| 0 <= i < body.len() ==> (#[trigger] digit_value(body[i])) is Some
}

/// The bytes that pairs of digits stand for.
pub open spec fn bytes_of_hex(body: Seq<u8>) -> Seq<u8> {
    Seq::new(
        body.len() / 2,
        |i: int| (16 * digit_value(body[2 * i]).unwrap() + digit_value(body[2 * i + 1]).unwrap()) as u8,
    )
}

fn nibble_digit(n: u8) -> (r: u8)
    requires
        n < 16,
    ensures
        r == hex_digit(n as int),
{
    if n < 10 {
        48 + n
    } else {
        87 + n
    }
}

fn digit_of(c: u8) -> (r: Option<u8>)
    ensures
        r is None <==> digit_value(c) is None,
        r matches Some(v) ==> v == digit_value(c).unwrap() && v < 16,
{
    if 48 <= c && c <= 57 {
        Some(c - 48)
    } else if 97 <= c && c <= 102 {
        Some(c - 87)
    } else if 65 <= c && c <= 70 {
        Some(c - 55)
    } else {
        None
    }
}

/// `0x` followed by two lower-case digits per byte.
pub fn encode_hex(b: &[u8]) -> (r: Vec<u8>)
    requires
        2 * b@.len() + 2 <= usize::MAX,
    ensures
        r@ == prefix() + hex_of(b@),
{
    let mut r: Vec<u8> = Vec::new();
    r.push(48);
    r.push(120);
    let mut i: usize = 0;
    while i < b.len()
        invariant
            0 <= i <= b@.len(),
            r@.len() == 2 + 2 * i,
            r@.subrange(0, 2) == prefix(),
            forall|k: int| 0 <= k < 2 * i ==> r@[2 + k] == hex_of(b@)[k],
        decreases b@.len() - i,
    {
        let x = b[i];
        r.push(nibble_digit(x / 16));
        r.push(nibble_digit(x % 16));
        proof {
            assert(r@.subrange(0, 2) =~= prefix());
            assert forall|k: int| 0 <= k < 2 * (i + 1) implies r@[2 + k] == hex_of(b@)[k] by {
                if k == 2 * i {
                    assert(k / 2 == i);
                } else if k == 2 * i + 1 {
                    assert(k / 2 == i);
                }
            }
        }
        i = i + 1;
    }
    assert(r@ =~= prefix() + hex_of(b@));
    r
}

/// The bytes that hex text stands for, with or without a `0x` prefix;
/// `None` for an odd number of digits or a character that is not one.
pub fn decode_hex(s: &[u8]) -> (r: Option<Vec<u8>>)
    ensures
        r is Some <==> valid_hex(hex_body(s@)),
        r matches Some(v) ==> v@ == bytes_of_hex(hex_body(s@)),
{
    let start: usize = if s.len() >= 2 && s[0] == 48 && s[1] == 120 {
        2
    } else {
        0
    };
    let ghost body = hex_body(s@);
    assert(body =~= s@.subrange(start as int, s@.len() as int));
    if (s.len() - start) % 2 != 0 {
        return None;
    }
    let mut out: Vec<u8> = Vec::new();
    let mut i: usize = start;
    while i < s.len()
        invariant
            start <= i <= s@.len(),
            (i - start) % 2 == 0,
            (s@.len() - start) % 2 == 0,
            body == s@.subrange(start as int, s@.len() as int),
            body == hex_body(s@),
            out@.len() == (i - start) / 2,
            forall|k: int| 0 <= k < i - start ==> (#[trigger] digit_value(body[k])) is Some,
            forall|k: int|
                0 <= k < out@.len() ==> out@[k] == (16 * digit_value(body[2 * k]).unwrap()
                    + digit_value(body[2 * k + 1]).unwrap()) as u8,
        decreases s@.len() - i,
    {
        let hi = digit_of(s[i]);
        let lo = digit_of(s[i + 1]);
        assert(body[i - start] == s@[i as int]);
        assert(body[i - start + 1] == s@[i + 1]);
        match (hi, lo) {
            (Some(h), Some(l)) => {
                let ghost k = out@.len() as int;
                assert(2 * k == i - start);
                out.push(h * 16 + l);
            },
            _ => {
                proof {
                    let k: int = i - start;
                    if hi is None {
                        assert(digit_value(body[k]) is None);
                    } else {
                        assert(digit_value(body[k + 1]) is None);
                    }
                }
                return None;
            },
        }
        i = i + 2;
    }
    assert(out@ =~= bytes_of_hex(body));
    Some(out)
}

} // verus!
