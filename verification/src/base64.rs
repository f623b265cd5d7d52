//! Base64 text of bytes, with the standard alphabet and padding.

use crate::text::push_char;
use vstd::prelude::*;

verus! {

/// The character of a six-bit number in the standard alphabet.
pub open spec fn base64_char(n: int) -> char
    recommends
        0 <= n < 64,
{
    if n < 26 {
        (65 + n) as char
    } else if n < 52 {
        (71 + n) as char
    } else if n < 62 {
        (n - 4) as char
    } else if n == 62 {
        '+'
    } else {
        '/'
    }
}

/// The base64 text of `bytes`: four characters for every three bytes, and
/// `=` in the place of what the last group lacks.
pub open spec fn base64(bytes: Seq<u8>) -> Seq<char>
    decreases bytes.len(),
{
    if bytes.len() == 0 {
        Seq::empty()
    } else if bytes.len() == 1 {
        seq![base64_char(bytes[0] as int / 4), base64_char(bytes[0] as int % 4 * 16), '=', '=']
    } else if bytes.len() == 2 {
        seq![
            base64_char(bytes[0] as int / 4),
            base64_char(bytes[0] as int % 4 * 16 + bytes[1] as int / 16),
            base64_char(bytes[1] as int % 16 * 4),
            '=',
        ]
    } else {
        seq![
            base64_char(bytes[0] as int / 4),
            base64_char(bytes[0] as int % 4 * 16 + bytes[1] as int / 16),
            base64_char(bytes[1] as int % 16 * 4 + bytes[2] as int / 64),
            base64_char(bytes[2] as int % 64),
        ] + base64(bytes.skip(3))
    }
}

/// The character of a six-bit number.
fn sextet_char(n: u8) -> (c: char)
    requires
        n < 64,
    ensures
        c == base64_char(n as int),
{
    if n < 26 {
        (65u8 + n) as char
    } else if n < 52 {
        (71u8 + n) as char
    } else if n < 62 {
        (n - 4) as char
    } else if n == 62 {
        '+'
    } else {
        '/'
    }
}

/// Appends the base64 text of `bytes` to `out`.
pub fn push_base64(out: &mut String, bytes: &[u8])
    ensures
        final(out)@ == old(out)@ + base64(bytes@),
{
    let n = bytes.len();
    let mut i: usize = 0;
    assert(bytes@.skip(0) =~= bytes@);
    assert(old(out)@ + base64(bytes@) =~= out@ + base64(bytes@.skip(0)));
    while n - i >= 3
        invariant
            i <= n,
            n == bytes@.len(),
            old(out)@ + base64(bytes@) == out@ + base64(bytes@.skip(i as int)),
        decreases n - i,
    {
        let ghost before = out@;
        let ghost rest = bytes@.skip(i as int);
        let b0 = bytes[i];
        let b1 = bytes[i + 1];
        let b2 = bytes[i + 2];
        push_char(out, sextet_char(b0 / 4));
        push_char(out, sextet_char(b0 % 4 * 16 + b1 / 16));
        push_char(out, sextet_char(b1 % 16 * 4 + b2 / 64));
        push_char(out, sextet_char(b2 % 64));
        proof {
            assert(rest.skip(3) =~= bytes@.skip(i + 3));
            assert(rest[0] == b0 && rest[1] == b1 && rest[2] == b2);
            assert(before + base64(rest) =~= out@ + base64(bytes@.skip(i + 3)));
        }
        i += 3;
    }
    let ghost before = out@;
    let ghost rest = bytes@.skip(i as int);
    if n - i == 1 {
        let b0 = bytes[i];
        push_char(out, sextet_char(b0 / 4));
        push_char(out, sextet_char(b0 % 4 * 16));
        push_char(out, '=');
        push_char(out, '=');
        proof {
            assert(rest[0] == b0);
            assert(out@ =~= before + base64(rest));
        }
    } else if n - i == 2 {
        let b0 = bytes[i];
        let b1 = bytes[i + 1];
        push_char(out, sextet_char(b0 / 4));
        push_char(out, sextet_char(b0 % 4 * 16 + b1 / 16));
        push_char(out, sextet_char(b1 % 16 * 4));
        push_char(out, '=');
        proof {
            assert(rest[0] == b0 && rest[1] == b1);
            assert(out@ =~= before + base64(rest));
        }
    } else {
        assert(out@ =~= before + base64(rest));
    }
}

/// The base64 text of `bytes`.
pub fn base64_string(bytes: &[u8]) -> (s: String)
    ensures
        s@ == base64(bytes@),
{
    let mut s = String::new();
    push_base64(&mut s, bytes);
    assert(s@ =~= base64(bytes@));
    s
}

} // verus!
