use vstd::prelude::*;

verus! {

/// The lower-case hex digit for a value below sixteen.
pub open spec fn hex_digit(v: int) -> u8
    recommends
        0 <= v < 16,
{
    if v < 10 {
        (48 + v) as u8
    } else {
        (87 + v) as u8
    }
}

/// Whether a byte is an ASCII hex digit (either case).
pub open spec fn is_hex_digit(c: u8) -> bool {
    (48 <= c && c <= 57) || (97 <= c && c <= 102) || (65 <= c && c <= 70)
}

/// The value of an ASCII hex digit.
pub open spec fn hex_val(c: u8) -> int
    recommends
        is_hex_digit(c),
{
    if 48 <= c && c <= 57 {
        c - 48
    } else if 97 <= c && c <= 102 {
        c - 87
    } else {
        c - 55
    }
}

/// The lower-case hex encoding of a byte sequence: two digits per byte.
pub open spec fn hex_encoding_of(s: Seq<u8>) -> Seq<u8> {
    Seq::new(
        2 * s.len(),
        |i: int|
            if i % 2 == 0 {
                hex_digit(s[i / 2] as int / 16)
            } else {
                hex_digit(s[i / 2] as int % 16)
            },
    )
}

/// Whether a byte sequence is well-formed hex: even length, digits only.
pub open spec fn hex_ok(s: Seq<u8>) -> bool {
    s.len() % 2 == 0 && (forall|i: int| 0 <= i < s.len() ==> is_hex_digit(s[i]))
}

/// The bytes a well-formed hex sequence decodes to.
pub open spec fn hex_decoding_of(s: Seq<u8>) -> Seq<u8>
    recommends
        hex_ok(s),
{
    Seq::new(s.len() / 2, |i: int| (hex_val(s[2 * i]) * 16 + hex_val(s[2 * i + 1])) as u8)
}

/// Encode bytes as lower-case hex.
pub fn hex_encode(b: &Vec<u8>) -> (r: Vec<u8>)
    ensures
        r@ == hex_encoding_of(b@),
{
    let mut r: Vec<u8> = Vec::new();
    let mut i: usize = 0;
    while i < b.len()
        invariant
            i <= b.len(),
            r@.len() == 2 * i,
            forall|j: int| 0 <= j < 2 * i ==> r@[j] == hex_encoding_of(b@)[j],
        decreases b.len() - i,
    {
        let byte = b[i];
        let hi = byte / 16;
        let lo = byte % 16;
        r.push(if hi < 10 { 48 + hi } else { 87 + hi });
        r.push(if lo < 10 { 48 + lo } else { 87 + lo });
        i += 1;
    }
    proof {
        assert(r@ =~= hex_encoding_of(b@));
    }
    r
}

fn hex_val_exec(c: u8) -> (r: Option<u8>)
    ensures
        r is Some <==> is_hex_digit(c),
        r is Some ==> r->0 as int == hex_val(c),
{
    if 48 <= c && c <= 57 {
        Some(c - 48)
    } else if 97 <= c && c <= 102 {
        Some(c - 87)
    } else if 65 <= c && c <= 70 {
        Some(c - 55)
    } else {
        None
    }
}

/// Decode a hex byte sequence; `None` exactly when it is not well-formed hex.
pub fn hex_decode(s: &Vec<u8>) -> (r: Option<Vec<u8>>)
    ensures
        r is Some <==> hex_ok(s@),
        r is Some ==> r->0@ == hex_decoding_of(s@),
{
    if s.len() % 2 != 0 {
        return None;
    }
    let mut r: Vec<u8> = Vec::new();
    let mut i: usize = 0;
    while i < s.len()
        invariant
            i <= s.len(),
            i % 2 == 0,
            s@.len() % 2 == 0,
            r@.len() == i / 2,
            forall|j: int| 0 <= j < i ==> is_hex_digit(s@[j]),
            forall|j: int|
                0 <= j < i / 2 ==> r@[j] == (hex_val(s@[2 * j]) * 16 + hex_val(s@[2 * j + 1])) as u8,
        decreases s.len() - i,
    {
        let hi = match hex_val_exec(s[i]) {
            Some(v) => v,
            None => {
                return None;
            },
        };
        let lo = match hex_val_exec(s[i + 1]) {
            Some(v) => v,
            None => {
                return None;
            },
        };
        r.push(hi * 16 + lo);
        i += 2;
    }
    proof {
        assert(r@ =~= hex_decoding_of(s@));
    }
    Some(r)
}

} // verus!
