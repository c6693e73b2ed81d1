//! Readable formatting of byte identifiers for logs and reports.

use vstd::prelude::*;

use crate::heapless_specs::str64_chars;
use crate::heapless_specs::str64_new;
use crate::heapless_specs::str64_push;
use vstd::utf8::is_ascii_chars;

verus! {

/// The lower-case hex digit for a value below 16.
pub open spec fn hex_digit(n: u8) -> char
    recommends
        n < 16,
{
    if n == 0 {
        '0'
    } else if n == 1 {
        '1'
    } else if n == 2 {
        '2'
    } else if n == 3 {
        '3'
    } else if n == 4 {
        '4'
    } else if n == 5 {
        '5'
    } else if n == 6 {
        '6'
    } else if n == 7 {
        '7'
    } else if n == 8 {
        '8'
    } else if n == 9 {
        '9'
    } else if n == 10 {
        'a'
    } else if n == 11 {
        'b'
    } else if n == 12 {
        'c'
    } else if n == 13 {
        'd'
    } else if n == 14 {
        'e'
    } else {
        'f'
    }
}

/// The two lower-case hex digits of a byte.
pub open spec fn hex2(b: u8) -> Seq<char> {
    seq![hex_digit(b / 16), hex_digit(b % 16)]
}

/// The colon-separated hex text of the first `n` bytes of `bs`.
pub open spec fn colon_hex_prefix(bs: Seq<u8>, n: int) -> Seq<char>
    decreases n,
{
    if n <= 0 {
        Seq::empty()
    } else if n == 1 {
        hex2(bs[0])
    } else {
        colon_hex_prefix(bs, n - 1) + seq![':'] + hex2(bs[n - 1])
    }
}

/// The colon-separated hex text of a byte string, such as
/// `aa:bb:cc:dd:ee:ff` for six bytes.
pub open spec fn colon_hex(bs: Seq<u8>) -> Seq<char> {
    colon_hex_prefix(bs, bs.len() as int)
}

/// The first `cap` characters of a text that may exceed a buffer.
pub open spec fn take_chars(s: Seq<char>, cap: int) -> Seq<char> {
    if s.len() <= cap {
        s
    } else {
        s.subrange(0, cap)
    }
}

/// The shortened text of a 16-byte identifier: the first three and the
/// last three bytes around `..`.
pub open spec fn id16_compact_chars(s: Seq<u8>) -> Seq<char> {
    colon_hex(s.subrange(0, 3)) + seq!['.', '.'] + colon_hex(s.subrange(13, 16))
}

/// Every character of a hex digit is ASCII.
pub proof fn lemma_hex_digit_ascii(n: u8)
    ensures
        '\0' <= hex_digit(n) <= '\u{7f}',
{
}

/// The colon-separated hex text of `n` bytes is ASCII and, past zero
/// bytes, exactly `3 * n - 1` characters long.
pub proof fn lemma_colon_hex_prefix_props(bs: Seq<u8>, n: int)
    ensures
        is_ascii_chars(colon_hex_prefix(bs, n)),
        colon_hex_prefix(bs, n).len() == if n <= 0 {
            0
        } else {
            3 * n - 1
        },
    decreases n,
{
    if n <= 0 {
    } else if n == 1 {
    } else {
        lemma_colon_hex_prefix_props(bs, n - 1);
    }
}

/// The exec mirror of [`hex_digit`].
pub(crate) fn hex_digit_of(n: u8) -> (c: char)
    requires
        n < 16,
    ensures
        c == hex_digit(n),
{
    if n == 0 {
        '0'
    } else if n == 1 {
        '1'
    } else if n == 2 {
        '2'
    } else if n == 3 {
        '3'
    } else if n == 4 {
        '4'
    } else if n == 5 {
        '5'
    } else if n == 6 {
        '6'
    } else if n == 7 {
        '7'
    } else if n == 8 {
        '8'
    } else if n == 9 {
        '9'
    } else if n == 10 {
        'a'
    } else if n == 11 {
        'b'
    } else if n == 12 {
        'c'
    } else if n == 13 {
        'd'
    } else if n == 14 {
        'e'
    } else {
        'f'
    }
}

/// Append the two hex digits of `b` to `s`, as far as they fit.
fn push_hex_byte(dst: &mut heapless::String<64>, b: u8) -> (r: bool)
    requires
        is_ascii_chars(str64_chars(*old(dst))),
    ensures
        str64_chars(*old(dst)).len() + 2 <= 64 ==> r && str64_chars(*final(dst)) == str64_chars(
            *old(dst),
        ) + hex2(b),
        str64_chars(*old(dst)).len() <= 64 ==> str64_chars(*final(dst)) == take_chars(
            str64_chars(*old(dst)) + hex2(b),
            64,
        ),
        is_ascii_chars(str64_chars(*final(dst))),
{
    let hi = b / 16;
    let lo = b % 16;
    let r1 = str64_push(dst, hex_digit_of(hi));
    proof {
        lemma_hex_digit_ascii(b / 16);
        lemma_hex_digit_ascii(b % 16);
    }
    let r2 = str64_push(dst, hex_digit_of(lo));
    proof {
        if str64_chars(*old(dst)).len() + 2 <= 64 {
            assert(str64_chars(*dst) =~= str64_chars(*old(dst)) + hex2(b));
        }
        if str64_chars(*old(dst)).len() <= 64 {
            assert(str64_chars(*dst) =~= take_chars(str64_chars(*old(dst)) + hex2(b), 64));
        }
    }
    r1 && r2
}

/// Format a byte string as colon-separated lower-case hex: exactly the
/// first 64 characters of the full text, so byte strings of up to 21
/// bytes come out whole.
pub fn fmt_bytes_colon(v: &[u8]) -> (r: heapless::String<64>)
    ensures
        is_ascii_chars(str64_chars(r)),
        str64_chars(r) == take_chars(colon_hex(v@), 64),
        str64_chars(r).len() <= 64,
        v@.len() <= 21 ==> str64_chars(r) == colon_hex(v@),
{
    let mut s = str64_new();
    let n = v.len();
    let mut i: usize = 0;
    while i < n
        invariant
            n == v@.len(),
            i <= n,
            is_ascii_chars(str64_chars(s)),
            str64_chars(s) == take_chars(colon_hex_prefix(v@, i as int), 64),
        decreases n - i,
    {
        proof {
            lemma_colon_hex_prefix_props(v@, i as int);
            lemma_colon_hex_prefix_props(v@, i + 1);
        }
        if i > 0 {
            str64_push(&mut s, ':');
        }
        push_hex_byte(&mut s, v[i]);
        i = i + 1;
        proof {
            assert(str64_chars(s) =~= take_chars(colon_hex_prefix(v@, i as int), 64));
        }
    }
    proof {
        lemma_colon_hex_prefix_props(v@, n as int);
    }
    s
}

/// Format a 16-byte identifier in shortened form: the first three and
/// the last three bytes around `..`, such as `aa:bb:cc..dd:ee:ff`.
pub fn fmt_id16_compact(v: &[u8; 16]) -> (r: heapless::String<64>)
    ensures
        str64_chars(r) == id16_compact_chars(v@),
{
    let mut s = str64_new();
    push_hex_byte(&mut s, v[0]);
    str64_push(&mut s, ':');
    push_hex_byte(&mut s, v[1]);
    str64_push(&mut s, ':');
    push_hex_byte(&mut s, v[2]);
    str64_push(&mut s, '.');
    str64_push(&mut s, '.');
    push_hex_byte(&mut s, v[13]);
    str64_push(&mut s, ':');
    push_hex_byte(&mut s, v[14]);
    str64_push(&mut s, ':');
    push_hex_byte(&mut s, v[15]);
    proof {
        let first = v@.subrange(0, 3);
        let last = v@.subrange(13, 16);
        assert(colon_hex_prefix(first, 1) =~= hex2(v@[0]));
        assert(colon_hex_prefix(first, 2) =~= hex2(v@[0]) + seq![':'] + hex2(v@[1]));
        assert(colon_hex(first) =~= hex2(v@[0]) + seq![':'] + hex2(v@[1]) + seq![':'] + hex2(
            v@[2],
        ));
        assert(colon_hex_prefix(last, 1) =~= hex2(v@[13]));
        assert(colon_hex_prefix(last, 2) =~= hex2(v@[13]) + seq![':'] + hex2(v@[14]));
        assert(colon_hex(last) =~= hex2(v@[13]) + seq![':'] + hex2(v@[14]) + seq![':'] + hex2(
            v@[15],
        ));
        assert(str64_chars(s) =~= id16_compact_chars(v@));
    }
    s
}

/// The text label of a device-id kind byte.
pub fn kind_label_u8(kind: u8) -> (r: &'static str)
    ensures
        kind == 0x00 ==> r@ == "BD6"@,
        kind == 0x01 ==> r@ == "UID8"@,
        kind == 0x02 ==> r@ == "RAND16"@,
        kind > 0x02 ==> r@ == "UNK"@,
{
    match kind {
        0x00 => "BD6",
        0x01 => "UID8",
        0x02 => "RAND16",
        _ => "UNK",
    }
}

} // verus!
