use vstd::prelude::*;

use crate::text::push_char;

verus! {

/// Bytes that stand for themselves in the search URL: ASCII letters, digits
/// and `-`, `_`, `.`, `~`.
pub open spec fn is_unreserved(b: u8) -> bool {
    ||| 0x41 <= b <= 0x5a
    ||| 0x61 <= b <= 0x7a
    ||| 0x30 <= b <= 0x39
    ||| b == 0x2d
    ||| b == 0x5f
    ||| b == 0x2e
    ||| b == 0x7e
}

/// The upper-case hexadecimal digit for `n < 16`.
pub open spec fn hex_digit(n: u8) -> char {
    if n < 10 {
        (0x30 + n) as char
    } else {
        (0x41 + n - 10) as char
    }
}

/// The encoding of one byte: itself when unreserved, `+` for a space, else
/// `%` and two upper-case hexadecimal digits.
pub open spec fn encode_byte(b: u8) -> Seq<char> {
    if is_unreserved(b) {
        seq![b as char]
    } else if b == 0x20 {
        seq!['+']
    } else {
        seq!['%', hex_digit(b / 16), hex_digit(b % 16)]
    }
}

/// The form encoding of a byte sequence, byte by byte.
pub open spec fn form_encode(bytes: Seq<u8>) -> Seq<char>
    decreases bytes.len(),
{
    if bytes.len() == 0 {
        Seq::empty()
    } else {
        form_encode(bytes.drop_last()) + encode_byte(bytes.last())
    }
}

fn hex_digit_exec(n: u8) -> (c: char)
    requires
        n < 16,
    ensures
        c == hex_digit(n),
{
    if n < 10 {
        (0x30 + n) as char
    } else {
        (0x41 + n - 10) as char
    }
}

/// Encodes a query for the `q` parameter of a search URL: the UTF-8 bytes of
/// the query, each byte encoded as `encode_byte` says.
pub fn google_encode(value: &str) -> (r: String)
    ensures
        r@ == form_encode(vstd::utf8::encode_utf8(value@)),
{
    let bytes = value.as_bytes();
    let mut encoded = String::new();
    let mut i: usize = 0;
    while i < bytes.len()
        invariant
            i <= bytes@.len(),
            bytes@ == vstd::utf8::encode_utf8(value@),
            encoded@ == form_encode(bytes@.take(i as int)),
        decreases bytes.len() - i,
    {
        let byte = bytes[i];
        let ghost before = encoded@;
        if (0x41 <= byte && byte <= 0x5a) || (0x61 <= byte && byte <= 0x7a) || (0x30 <= byte
            && byte <= 0x39) || byte == 0x2d || byte == 0x5f || byte == 0x2e || byte == 0x7e {
            push_char(&mut encoded, byte as char);
        } else if byte == 0x20 {
            push_char(&mut encoded, '+');
        } else {
            push_char(&mut encoded, '%');
            push_char(&mut encoded, hex_digit_exec(byte / 16));
            push_char(&mut encoded, hex_digit_exec(byte % 16));
        }
        assert(encoded@ == before + encode_byte(byte));
        assert(bytes@.take(i + 1).drop_last() == bytes@.take(i as int));
        i = i + 1;
    }
    assert(bytes@.take(bytes@.len() as int) == bytes@);
    encoded
}

/// The value of an upper-case hexadecimal digit.
pub open spec fn hex_value(c: char) -> int {
    if '0' <= c <= '9' {
        c as int - 0x30
    } else {
        c as int - 0x41 + 10
    }
}

/// Form decoding: `%` and two hexadecimal digits give one byte, `+` gives a
/// space, any other character gives its own code.
pub open spec fn form_decode(s: Seq<char>) -> Seq<u8>
    decreases s.len(),
{
    if s.len() == 0 {
        Seq::empty()
    } else if s[0] == '%' && s.len() >= 3 {
        seq![(hex_value(s[1]) * 16 + hex_value(s[2])) as u8] + form_decode(s.skip(3))
    } else if s[0] == '+' {
        seq![0x20u8] + form_decode(s.drop_first())
    } else {
        seq![s[0] as u8] + form_decode(s.drop_first())
    }
}

proof fn lemma_decode_byte(b: u8, rest: Seq<char>)
    ensures
        form_decode(encode_byte(b) + rest) == seq![b] + form_decode(rest),
{
    let e = encode_byte(b) + rest;
    if is_unreserved(b) {
        assert(e.drop_first() == rest);
        assert((b as char) as u8 == b);
    } else if b == 0x20 {
        assert(e.drop_first() == rest);
    } else {
        assert(e.skip(3) == rest);
        let hi = b / 16;
        let lo = b % 16;
        assert(hex_value(hex_digit(hi)) == hi);
        assert(hex_value(hex_digit(lo)) == lo);
        assert(hi * 16 + lo == b);
    }
}

proof fn lemma_decode_encoded(bytes: Seq<u8>, rest: Seq<char>)
    ensures
        form_decode(form_encode(bytes) + rest) == bytes + form_decode(rest),
    decreases bytes.len(),
{
    if bytes.len() == 0 {
        assert(form_encode(bytes) + rest == rest);
        assert(bytes + form_decode(rest) == form_decode(rest));
    } else {
        let init = bytes.drop_last();
        let last = bytes.last();
        assert(form_encode(bytes) + rest == form_encode(init) + (encode_byte(last) + rest));
        lemma_decode_encoded(init, encode_byte(last) + rest);
        lemma_decode_byte(last, rest);
        assert(init + (seq![last] + form_decode(rest)) == bytes + form_decode(rest));
    }
}

/// The search URL carries the query exactly: form decoding what
/// `google_encode` produced gives back the query's UTF-8 bytes.
pub proof fn lemma_google_encode_round_trip(query: Seq<char>)
    ensures
        form_decode(form_encode(vstd::utf8::encode_utf8(query))) == vstd::utf8::encode_utf8(query),
{
    let bytes = vstd::utf8::encode_utf8(query);
    lemma_decode_encoded(bytes, Seq::empty());
    assert(form_encode(bytes) + Seq::<char>::empty() == form_encode(bytes));
    assert(bytes + form_decode(Seq::<char>::empty()) == bytes);
}

/// A character that an encoded query may hold: an ASCII letter or digit,
/// or one of `-`, `_`, `.`, `~`, `+`, `%`.
pub open spec fn is_encoded_char(c: char) -> bool {
    ||| 'A' <= c <= 'Z'
    ||| 'a' <= c <= 'z'
    ||| '0' <= c <= '9'
    ||| c == '-'
    ||| c == '_'
    ||| c == '.'
    ||| c == '~'
    ||| c == '+'
    ||| c == '%'
}

/// An upper-case hexadecimal digit.
pub open spec fn is_upper_hex(c: char) -> bool {
    ('0' <= c <= '9') || ('A' <= c <= 'F')
}

/// Every `%` of `s` is followed by two upper-case hexadecimal digits.
pub open spec fn escapes_are_upper_hex(s: Seq<char>) -> bool {
    forall|i: int|
        0 <= i < s.len() && #[trigger] s[i] == '%' ==> i + 2 < s.len() && is_upper_hex(s[i + 1])
            && is_upper_hex(s[i + 2])
}

/// The length of the encoding of `bytes`: one character for each unreserved
/// byte or space, three for any other byte.
pub open spec fn encoded_len(bytes: Seq<u8>) -> int
    decreases bytes.len(),
{
    if bytes.len() == 0 {
        0
    } else {
        encoded_len(bytes.drop_last()) + if is_unreserved(bytes.last()) || bytes.last() == 0x20 {
            1int
        } else {
            3int
        }
    }
}

proof fn lemma_encode_byte_shape(b: u8)
    ensures
        forall|i: int| 0 <= i < encode_byte(b).len() ==> is_encoded_char(#[trigger] encode_byte(b)[i]),
        escapes_are_upper_hex(encode_byte(b)),
        encode_byte(b).len() == if is_unreserved(b) || b == 0x20 {
            1int
        } else {
            3int
        },
{
    let e = encode_byte(b);
    if !is_unreserved(b) && b != 0x20 {
        let hi = b / 16;
        let lo = b % 16;
        assert(is_upper_hex(hex_digit(hi)) && is_encoded_char(hex_digit(hi)));
        assert(is_upper_hex(hex_digit(lo)) && is_encoded_char(hex_digit(lo)));
        assert(e[0] == '%' && e[1] == hex_digit(hi) && e[2] == hex_digit(lo));
    } else if is_unreserved(b) {
        assert(e[0] == b as char);
        assert(b as char != '%');
    }
}

proof fn lemma_form_encode_shape(bytes: Seq<u8>)
    ensures
        forall|i: int|
            0 <= i < form_encode(bytes).len() ==> is_encoded_char(#[trigger] form_encode(bytes)[i]),
        escapes_are_upper_hex(form_encode(bytes)),
        form_encode(bytes).len() == encoded_len(bytes),
    decreases bytes.len(),
{
    if bytes.len() > 0 {
        let init = bytes.drop_last();
        let b = bytes.last();
        lemma_form_encode_shape(init);
        lemma_encode_byte_shape(b);
        let p = form_encode(init);
        let e = encode_byte(b);
        let s = form_encode(bytes);
        assert(s == p + e);
        assert forall|i: int| 0 <= i < s.len() implies is_encoded_char(#[trigger] s[i]) by {
            if i < p.len() {
                assert(s[i] == p[i]);
            } else {
                assert(s[i] == e[i - p.len()]);
            }
        }
        assert forall|i: int| 0 <= i < s.len() && #[trigger] s[i] == '%' implies i + 2 < s.len()
            && is_upper_hex(s[i + 1]) && is_upper_hex(s[i + 2]) by {
            if i < p.len() {
                assert(s[i] == p[i]);
                assert(s[i + 1] == p[i + 1]);
                assert(s[i + 2] == p[i + 2]);
            } else {
                let j = i - p.len();
                assert(s[i] == e[j]);
                assert(e[j] == '%');
                assert(s[i + 1] == e[j + 1]);
                assert(s[i + 2] == e[j + 2]);
            }
        }
    }
}

/// What `google_encode` writes is plain URL text: only ASCII letters,
/// digits and `-`, `_`, `.`, `~`, `+`, `%`; each `%` followed by two
/// upper-case hexadecimal digits; one character for each unreserved byte or
/// space of the query's UTF-8 encoding and three for any other byte.
pub proof fn law_google_encode_shape(query: Seq<char>)
    ensures
        forall|i: int|
            0 <= i < form_encode(vstd::utf8::encode_utf8(query)).len() ==> is_encoded_char(
                #[trigger] form_encode(vstd::utf8::encode_utf8(query))[i],
            ),
        escapes_are_upper_hex(form_encode(vstd::utf8::encode_utf8(query))),
        form_encode(vstd::utf8::encode_utf8(query)).len() == encoded_len(
            vstd::utf8::encode_utf8(query),
        ),
{
    lemma_form_encode_shape(vstd::utf8::encode_utf8(query));
}

} // verus!
