//! Bytes as hexadecimal text, as keys are kept in the configuration and in the pairing URI.
use vstd::prelude::*;
use vstd::utf8::*;

use crate::noise::NoiseError;

verus! {

/// The lower-case character of a hexadecimal digit.
pub open spec fn hex_digit(d: int) -> char {
    if d < 10 {
        (48 + d) as char
    } else {
        (87 + d) as char
    }
}

/// Two digits for each byte.
pub open spec fn hex(b: Seq<u8>) -> Seq<char> {
    Seq::new(
        2 * b.len(),
        |i: int|
            hex_digit(
                if i % 2 == 0 {
                    b[i / 2] as int / 16
                } else {
                    b[i / 2] as int % 16
                },
            ),
    )
}

fn digit_char(d: u8) -> (c: char)
    requires
        d < 16,
    ensures
        c == hex_digit(d as int),
{
    if d < 10 {
        (48 + d) as char
    } else {
        (87 + d) as char
    }
}

/// The bytes as hexadecimal digits, in lower case.
pub fn to_hex(bytes: &[u8]) -> (s: String)
    ensures
        s@ == hex(bytes@),
{
    let mut s = String::new();
    let mut i: usize = 0;
    while i < bytes.len()
        invariant
            i <= bytes.len(),
            s@ == hex(bytes@.take(i as int)),
        decreases bytes.len() - i,
    {
        s.push(digit_char(bytes[i] / 16));
        s.push(digit_char(bytes[i] % 16));
        assert(s@ =~= hex(bytes@.take(i + 1)));
        i = i + 1;
    }
    assert(bytes@.take(i as int) =~= bytes@);
    s
}

/// The value of an ASCII hexadecimal digit, in either case.
pub open spec fn hex_value(c: u8) -> Option<u8> {
    if 48 <= c <= 57 {
        Some((c - 48) as u8)
    } else if 97 <= c <= 102 {
        Some((c - 87) as u8)
    } else if 65 <= c <= 70 {
        Some((c - 55) as u8)
    } else {
        None
    }
}

/// The byte that a pair of ASCII characters stands for: two digits, or a plus sign and a digit.
pub open spec fn hex_pair(a: u8, b: u8) -> Option<u8> {
    match (hex_value(a), hex_value(b)) {
        (Some(x), Some(y)) => Some((16 * x + y) as u8),
        (None, Some(y)) => if a == 43 {
            Some(y)
        } else {
            None
        },
        _ => None,
    }
}

/// The first `n` pairs of `u` each stand for a byte.
pub open spec fn pairs_ok(u: Seq<u8>, n: int) -> bool {
    forall|i: int| 0 <= i < n ==> #[trigger] hex_pair(u[2 * i], u[2 * i + 1]) is Some
}

/// The bytes that the UTF-8 form of a text stands for.
pub open spec fn unhex(u: Seq<u8>) -> Result<Seq<u8>, NoiseError> {
    if u.len() % 2 != 0 {
        Err(NoiseError::OddHex)
    } else if !pairs_ok(u, u.len() as int / 2) {
        Err(NoiseError::HexDigit)
    } else {
        Ok(Seq::new(u.len() / 2, |i: int| hex_pair(u[2 * i], u[2 * i + 1]).unwrap()))
    }
}

/// No character lies across the end of a pair that follows only good pairs, so that the text can be
/// taken apart pair by pair.
pub open spec fn pairs_are_whole(u: Seq<u8>) -> bool {
    forall|n: int|
        0 <= n && 2 * n + 2 <= u.len() && u.len() % 2 == 0 && #[trigger] pairs_ok(u, n)
            ==> is_char_boundary(u, 2 * n + 2)
}

fn digit_value(c: u8) -> (res: Option<u8>)
    ensures
        res == hex_value(c),
        res matches Some(v) ==> v < 16,
{
    if 48 <= c && c <= 57 {
        Some(c - 48)
    } else if 97 <= c && c <= 102 {
        Some(c - 87)
    } else if 65 <= c && c <= 70 {
        Some(c - 55)
    } else {
        None
    }
}

fn pair_value(a: u8, b: u8) -> (res: Option<u8>)
    ensures
        res == hex_pair(a, b),
{
    match (digit_value(a), digit_value(b)) {
        (Some(x), Some(y)) => Some(16 * x + y),
        (None, Some(y)) => if a == 43 {
            Some(y)
        } else {
            None
        },
        _ => None,
    }
}

/// The bytes that hexadecimal text stands for.
pub fn from_hex(s: &str) -> (res: Result<Vec<u8>, NoiseError>)
    requires
        pairs_are_whole(encode_utf8(s@)),
    ensures
        unhex(encode_utf8(s@)) == (match res {
            Ok(b) => Ok(b@),
            Err(e) => Err(e),
        }),
{
    let u = s.as_bytes();
    if u.len() % 2 != 0 {
        return Err(NoiseError::OddHex);
    }
    let mut out: Vec<u8> = Vec::new();
    let mut i: usize = 0;
    while i < u.len() / 2
        invariant
            i <= u.len() / 2,
            u.len() % 2 == 0,
            u@ == encode_utf8(s@),
            pairs_ok(u@, i as int),
            out@ == Seq::new(i as nat, |k: int| hex_pair(u@[2 * k], u@[2 * k + 1]).unwrap()),
        decreases u.len() - i,
    {
        match pair_value(u[2 * i], u[2 * i + 1]) {
            None => {
                assert(hex_pair(u@[2 * (i as int)], u@[2 * (i as int) + 1]) is None);
                return Err(NoiseError::HexDigit);
            },
            Some(v) => {
                out.push(v);
                assert(out@ =~= Seq::new(
                    (i + 1) as nat,
                    |k: int| hex_pair(u@[2 * k], u@[2 * k + 1]).unwrap(),
                ));
            },
        }
        i = i + 1;
    }
    Ok(out)
}

/// Reading hexadecimal text gives back the bytes that were written.
pub proof fn hex_round_trip(b: Seq<u8>)
    ensures
        pairs_are_whole(encode_utf8(hex(b))),
        unhex(encode_utf8(hex(b))) == Ok::<Seq<u8>, NoiseError>(b),
{
    let h = hex(b);
    let u = encode_utf8(h);
    assert(is_ascii_chars(h));
    is_ascii_chars_encode_utf8(h);
    assert forall|i: int| 0 <= i < b.len() implies #[trigger] hex_pair(u[2 * i], u[2 * i + 1])
        == Some(b[i]) by {
        assert((2 * i) / 2 == i && (2 * i + 1) / 2 == i);
        assert(u[2 * i] == h[2 * i] as u8);
        assert(u[2 * i + 1] == h[2 * i + 1] as u8);
    }
    assert(Seq::new(u.len() / 2, |i: int| hex_pair(u[2 * i], u[2 * i + 1]).unwrap()) =~= b);
    encode_utf8_valid_utf8(h);
    assert forall|n: int|
        0 <= n && 2 * n + 2 <= u.len() && u.len() % 2 == 0 && #[trigger] pairs_ok(u, n)
        implies is_char_boundary(u, 2 * n + 2) by {
        if 2 * n + 2 < u.len() {
            is_char_boundary_iff_not_is_continuation_byte(u, 2 * n + 2);
            let c = u[2 * n + 2];
            assert(c == h[2 * n + 2] as u8);
        } else {
            is_char_boundary_start_end_of_seq(u);
        }
    }
}

/// Each byte is two digits, the higher one first: of the digits from 0 to 9 and from a to f, the one
/// whose number it is.
pub proof fn the_higher_digit_comes_first(b: Seq<u8>, i: int)
    requires
        0 <= i < b.len(),
    ensures
        hex(b).len() == 2 * b.len(),
        ({
            let digits = seq![
                '0', '1', '2', '3', '4', '5', '6', '7', '8', '9', 'a', 'b', 'c', 'd', 'e', 'f',
            ];
            &&& hex(b)[2 * i] == digits[b[i] as int / 16]
            &&& hex(b)[2 * i + 1] == digits[b[i] as int % 16]
        }),
{
    assert((2 * i) / 2 == i && (2 * i + 1) / 2 == i);
}

/// Digits are read in either case, and nothing else is a digit: the text is refused where one of its
/// characters is neither a digit nor a plus sign in front of one, and where its length is odd.
pub proof fn nothing_but_digits_is_read(u: Seq<u8>, i: int)
    requires
        0 <= 2 * i,
        2 * i + 1 < u.len(),
    ensures
        u.len() % 2 != 0 <==> unhex(u) == Err::<Seq<u8>, NoiseError>(NoiseError::OddHex),
        unhex(u) matches Err(e) ==> e == NoiseError::OddHex || e == NoiseError::HexDigit,
        unhex(u) matches Ok(b) ==> {
            let (h, l) = (u[2 * i], u[2 * i + 1]);
            &&& b.len() * 2 == u.len()
            &&& 48 <= l <= 57 || 65 <= l <= 70 || 97 <= l <= 102
            &&& h == 43 || 48 <= h <= 57 || 65 <= h <= 70 || 97 <= h <= 102
            &&& b[i] % 16 == (if l <= 57 {
                l - 48
            } else if l <= 70 {
                l - 55
            } else {
                l - 87
            })
            &&& b[i] / 16 == (if h == 43 {
                0
            } else if h <= 57 {
                h - 48
            } else if h <= 70 {
                h - 55
            } else {
                h - 87
            })
        },
{
    if let Ok(b) = unhex(u) {
        assert(hex_pair(u[2 * i], u[2 * i + 1]) is Some);
        assert(b[i] == hex_pair(u[2 * i], u[2 * i + 1]).unwrap());
    }
}

/// Every text of digits in either case, of an even length, is read, also where a plus sign stands in
/// place of the first digit of a pair.
pub proof fn all_digits_are_read(u: Seq<u8>)
    requires
        u.len() % 2 == 0,
        forall|i: int|
            0 <= i < u.len() ==> 48 <= #[trigger] u[i] <= 57 || 65 <= u[i] <= 70 || 97 <= u[i] <= 102
                || (u[i] == 43 && i % 2 == 0),
    ensures
        unhex(u) is Ok,
{
    assert forall|i: int| 0 <= i < u.len() as int / 2 implies #[trigger] hex_pair(
        u[2 * i],
        u[2 * i + 1],
    ) is Some by {
        assert(48 <= u[2 * i] <= 57 || 65 <= u[2 * i] <= 70 || 97 <= u[2 * i] <= 102 || u[2 * i] == 43);
        assert(48 <= u[2 * i + 1] <= 57 || 65 <= u[2 * i + 1] <= 70 || 97 <= u[2 * i + 1] <= 102);
    }
}

/// Bytes that are written in hexadecimal are read back as they were.
pub proof fn what_is_written_is_read_back(
    bytes: &[u8],
    s: String,
    text: &str,
    res: Result<Vec<u8>, NoiseError>,
)
    requires
        call_ensures(to_hex, (bytes,), s),
        text@ == s@,
        call_ensures(from_hex, (text,), res),
    ensures
        res matches Ok(b) && b@ == bytes@,
{
    hex_round_trip(bytes@);
}

} // verus!
