//! Percent-encoding of object keys, as URLs carry them.
use vstd::prelude::*;
use vstd::utf8::{decode_utf8, encode_scalar, encode_utf8, valid_utf8};

verus! {

/// A character that stays as it is in an encoded key: an ASCII letter or
/// digit, or one of `-`, `_`, `.`, `~`.
pub open spec fn is_unreserved(c: char) -> bool {
    ('0' <= c && c <= '9') || ('A' <= c && c <= 'Z') || ('a' <= c && c <= 'z') || c == '-' || c
        == '_' || c == '.' || c == '~'
}

/// The upper-case hexadecimal digit of a value below 16.
pub open spec fn hex_digit(n: int) -> char {
    seq!['0', '1', '2', '3', '4', '5', '6', '7', '8', '9', 'A', 'B', 'C', 'D', 'E', 'F'][n]
}

/// The value of a hexadecimal digit (either case), if it is one.
pub open spec fn hex_value(c: char) -> Option<int> {
    if '0' <= c && c <= '9' {
        Some(c as int - '0' as int)
    } else if 'A' <= c && c <= 'F' {
        Some(c as int - 'A' as int + 10)
    } else if 'a' <= c && c <= 'f' {
        Some(c as int - 'a' as int + 10)
    } else {
        None
    }
}

/// Each byte written as `%` followed by two upper-case hexadecimal digits.
pub open spec fn escape_bytes(b: Seq<u8>) -> Seq<char>
    decreases b.len(),
{
    if b.len() == 0 {
        seq![]
    } else {
        seq!['%', hex_digit(b[0] as int / 16), hex_digit(b[0] as int % 16)] + escape_bytes(
            b.drop_first(),
        )
    }
}

/// How one character of a key is written: unchanged when unreserved, else
/// each byte of its UTF-8 form escaped.
pub open spec fn encode_char(c: char) -> Seq<char> {
    if is_unreserved(c) {
        seq![c]
    } else {
        escape_bytes(encode_scalar(c as u32))
    }
}

/// The percent-encoded form of a text.
pub open spec fn percent_encode(s: Seq<char>) -> Seq<char>
    decreases s.len(),
{
    if s.len() == 0 {
        seq![]
    } else {
        encode_char(s[0]) + percent_encode(s.drop_first())
    }
}

/// The bytes that an encoded text stands for: each `%` with two hexadecimal
/// digits gives one byte, every other character its own UTF-8 bytes.
pub open spec fn unescape_bytes(t: Seq<char>) -> Seq<u8>
    decreases t.len(),
{
    if t.len() == 0 {
        seq![]
    } else if t.len() >= 3 && t[0] == '%' && hex_value(t[1]) is Some && hex_value(t[2]) is Some {
        seq![(hex_value(t[1])->0 * 16 + hex_value(t[2])->0) as u8] + unescape_bytes(t.skip(3))
    } else {
        encode_scalar(t[0] as u32) + unescape_bytes(t.drop_first())
    }
}

/// Percent-decoding: the text whose UTF-8 form the encoded text stands for,
/// or `None` where those bytes are no valid UTF-8.
pub open spec fn percent_decode(t: Seq<char>) -> Option<Seq<char>> {
    let b = unescape_bytes(t);
    if valid_utf8(b) {
        Some(decode_utf8(b))
    } else {
        None
    }
}

/// A digit `0`-`9` or an upper-case letter `A`-`F`.
pub open spec fn is_upper_hex(c: char) -> bool {
    ('0' <= c && c <= '9') || ('A' <= c && c <= 'F')
}

/// Text made only of unreserved characters and of `%` followed by two
/// upper-case hexadecimal digits.
pub open spec fn url_safe(t: Seq<char>) -> bool
    decreases t.len(),
{
    if t.len() == 0 {
        true
    } else if is_unreserved(t[0]) {
        url_safe(t.drop_first())
    } else {
        t.len() >= 3 && t[0] == '%' && is_upper_hex(t[1]) && is_upper_hex(t[2]) && url_safe(
            t.skip(3),
        )
    }
}

proof fn lemma_hex_round_trip(n: int)
    requires
        0 <= n < 16,
    ensures
        hex_value(hex_digit(n)) == Some(n),
        is_upper_hex(hex_digit(n)),
{
    assert(hex_value(hex_digit(n)) == Some(n) && is_upper_hex(hex_digit(n))) by {
        if n == 0 { assert(hex_digit(n) == '0'); }
        else if n == 1 { assert(hex_digit(n) == '1'); }
        else if n == 2 { assert(hex_digit(n) == '2'); }
        else if n == 3 { assert(hex_digit(n) == '3'); }
        else if n == 4 { assert(hex_digit(n) == '4'); }
        else if n == 5 { assert(hex_digit(n) == '5'); }
        else if n == 6 { assert(hex_digit(n) == '6'); }
        else if n == 7 { assert(hex_digit(n) == '7'); }
        else if n == 8 { assert(hex_digit(n) == '8'); }
        else if n == 9 { assert(hex_digit(n) == '9'); }
        else if n == 10 { assert(hex_digit(n) == 'A'); }
        else if n == 11 { assert(hex_digit(n) == 'B'); }
        else if n == 12 { assert(hex_digit(n) == 'C'); }
        else if n == 13 { assert(hex_digit(n) == 'D'); }
        else if n == 14 { assert(hex_digit(n) == 'E'); }
        else { assert(hex_digit(n) == 'F'); }
    }
}

proof fn lemma_unescape_escaped(b: Seq<u8>, rest: Seq<char>)
    ensures
        unescape_bytes(escape_bytes(b) + rest) == b + unescape_bytes(rest),
    decreases b.len(),
{
    if b.len() == 0 {
        assert(escape_bytes(b) + rest =~= rest);
        assert(b + unescape_bytes(rest) =~= unescape_bytes(rest));
    } else {
        let hi = b[0] as int / 16;
        let lo = b[0] as int % 16;
        lemma_hex_round_trip(hi);
        lemma_hex_round_trip(lo);
        let t = escape_bytes(b) + rest;
        let tail = escape_bytes(b.drop_first()) + rest;
        assert(t =~= seq!['%', hex_digit(hi), hex_digit(lo)] + tail);
        assert(t.skip(3) =~= tail);
        assert(t[0] == '%' && t[1] == hex_digit(hi) && t[2] == hex_digit(lo));
        lemma_unescape_escaped(b.drop_first(), rest);
        assert((hi * 16 + lo) as u8 == b[0]);
        assert(b =~= seq![b[0]] + b.drop_first());
        assert(b + unescape_bytes(rest) =~= seq![b[0]] + (b.drop_first() + unescape_bytes(rest)));
    }
}

proof fn lemma_unescape_encoded(s: Seq<char>)
    ensures
        unescape_bytes(percent_encode(s)) == encode_utf8(s),
    decreases s.len(),
{
    if s.len() > 0 {
        let c = s[0];
        let rest = percent_encode(s.drop_first());
        lemma_unescape_encoded(s.drop_first());
        if is_unreserved(c) {
            let t = seq![c] + rest;
            assert(t[0] == c && c != '%');
            assert(t.drop_first() =~= rest);
        } else {
            lemma_unescape_escaped(encode_scalar(c as u32), rest);
        }
    }
}

proof fn lemma_escaped_url_safe(b: Seq<u8>, rest: Seq<char>)
    requires
        url_safe(rest),
    ensures
        url_safe(escape_bytes(b) + rest),
    decreases b.len(),
{
    if b.len() == 0 {
        assert(escape_bytes(b) + rest =~= rest);
    } else {
        let hi = b[0] as int / 16;
        let lo = b[0] as int % 16;
        lemma_hex_round_trip(hi);
        lemma_hex_round_trip(lo);
        let t = escape_bytes(b) + rest;
        let tail = escape_bytes(b.drop_first()) + rest;
        assert(t =~= seq!['%', hex_digit(hi), hex_digit(lo)] + tail);
        assert(t.skip(3) =~= tail);
        lemma_escaped_url_safe(b.drop_first(), rest);
    }
}

/// An encoded key holds only ASCII letters, digits, `-`, `_`, `.`, `~`, and
/// `%` followed by two upper-case hexadecimal digits: no space, `/`, `?`,
/// `#`, lone `%` or non-ASCII character is left in it.
pub proof fn encoded_key_is_url_safe(s: Seq<char>)
    ensures
        url_safe(percent_encode(s)),
    decreases s.len(),
{
    if s.len() > 0 {
        let c = s[0];
        let rest = percent_encode(s.drop_first());
        encoded_key_is_url_safe(s.drop_first());
        if is_unreserved(c) {
            let t = seq![c] + rest;
            assert(t.drop_first() =~= rest);
        } else {
            lemma_escaped_url_safe(encode_scalar(c as u32), rest);
        }
    }
}

/// Decoding an encoded key gives back the key, whatever characters it holds
/// (spaces, non-ASCII letters, characters reserved in URLs).
pub proof fn percent_round_trip(s: Seq<char>)
    ensures
        percent_decode(percent_encode(s)) == Some(s),
{
    lemma_unescape_encoded(s);
    vstd::utf8::encode_utf8_valid_utf8(s);
    vstd::utf8::encode_utf8_decode_utf8(s);
}

/// Relies on `urlencoding::encode`: every byte of the UTF-8 form but ASCII
/// letters, digits and `-`, `_`, `.`, `~` is written as `%` and two
/// upper-case hexadecimal digits.
#[verifier::external_body]
pub(crate) fn url_encode(s: &str) -> (r: String)
    ensures
        r@ == percent_encode(s@),
{
    urlencoding::encode(s).into_owned()
}

} // verus!
