//! Slices of a text by way of its UTF-8 bytes.
//!
//! A `&str` is cut where a character begins. This module finds such places among the bytes
//! and shows what the cut means for the characters of the text.
use vstd::prelude::*;
use vstd::string::StringSliceAdditionalSpecFns;
use vstd::utf8::decode_utf8;
use vstd::utf8::decode_utf8_split;
use vstd::utf8::encode_scalar;
use vstd::utf8::encode_utf8;
use vstd::utf8::encode_utf8_decode_utf8;
use vstd::utf8::encode_utf8_first_scalar;
use vstd::utf8::encode_utf8_valid_utf8;
use vstd::utf8::is_char_boundary;
use vstd::utf8::is_char_boundary_iff_not_is_continuation_byte;
use vstd::utf8::is_continuation_byte;
use vstd::utf8::length_of_first_scalar;
use vstd::utf8::pop_first_scalar;
use vstd::utf8::valid_utf8;
use vstd::utf8::valid_utf8_split;

verus! {

/// Whether `c` is encoded in one byte.
pub open spec fn is_ascii_char(c: char) -> bool {
    (c as u32) < 0x80
}

/// Cutting the bytes of a text where a character begins cuts its characters in two.
pub proof fn lemma_cut(text: Seq<char>, head: Seq<char>, tail: Seq<char>, at: int)
    requires
        is_char_boundary(encode_utf8(text), at),
        0 <= at <= encode_utf8(text).len(),
        encode_utf8(head) == encode_utf8(text).subrange(0, at),
        encode_utf8(tail) == encode_utf8(text).subrange(at, encode_utf8(text).len() as int),
    ensures
        text == head + tail,
{
    let bytes = encode_utf8(text);
    encode_utf8_valid_utf8(text);
    decode_utf8_split(bytes, at);
    encode_utf8_decode_utf8(text);
    encode_utf8_decode_utf8(head);
    encode_utf8_decode_utf8(tail);
}

/// An ASCII character of a text is one of its bytes.
pub proof fn lemma_ascii_char_is_byte(text: Seq<char>, c: char)
    requires
        is_ascii_char(c),
        text.contains(c),
    ensures
        encode_utf8(text).contains(c as u8),
    decreases text.len(),
{
    let at = choose|i: int| 0 <= i < text.len() && text[i] == c;
    let first = encode_scalar(text[0] as u32);
    let rest = encode_utf8(text.drop_first());
    assert(encode_utf8(text) == first + rest);
    if text[0] == c {
        let scalar = c as u32;
        assert(scalar & 0x7F == scalar) by (bit_vector)
            requires
                scalar < 0x80,
        ;
        assert(first[0] == c as u8);
        assert((first + rest)[0] == c as u8);
    } else {
        assert(text.drop_first()[at - 1] == c);
        lemma_ascii_char_is_byte(text.drop_first(), c);
        let i = choose|i: int| 0 <= i < rest.len() && rest[i] == c as u8;
        assert((first + rest)[first.len() + i] == c as u8);
    }
}

/// The text whose only byte is that of an ASCII character holds that character alone.
pub proof fn lemma_single_ascii(text: Seq<char>, c: char)
    requires
        is_ascii_char(c),
        encode_utf8(text) == seq![c as u8],
    ensures
        text == seq![c],
{
    let bytes = encode_utf8(text);
    assert(text.len() > 0) by {
        if text.len() == 0 {
            assert(encode_utf8(text).len() == 0);
        }
    }
    encode_utf8_first_scalar(text);
    assert(bytes[0] == c as u8);
    assert(text[0] as u32 == c as u32) by {
        assert(vstd::utf8::decode_first_scalar(bytes) == (bytes[0] & 0x7F) as u32);
        let b = bytes[0];
        assert((b & 0x7F) as u32 == b as u32) by (bit_vector)
            requires
                b < 0x80,
        ;
    }
    vstd::utf8::char_u32_cast(text[0], text[0] as u32);
    vstd::utf8::char_u32_cast(c, c as u32);
    let rest = text.drop_first();
    assert(encode_utf8(rest).len() == 0) by {
        assert(bytes == encode_scalar(text[0] as u32) + encode_utf8(rest));
        assert(encode_scalar(text[0] as u32).len() == 1);
    }
    assert(rest.len() == 0) by {
        if rest.len() > 0 {
            assert(encode_utf8(rest) == encode_scalar(rest[0] as u32) + encode_utf8(
                rest.drop_first(),
            ));
            assert(encode_scalar(rest[0] as u32).len() > 0);
        }
    }
    assert(text =~= seq![c]);
}

/// Cuts `text` in two where a character begins.
pub(crate) fn split_at_boundary<'a>(text: &'a str, at: usize) -> (r: (&'a str, &'a str))
    requires
        at <= text.spec_bytes().len(),
        is_char_boundary(text.spec_bytes(), at as int),
    ensures
        text@ == r.0@ + r.1@,
        r.0.spec_bytes() == text.spec_bytes().subrange(0, at as int),
        r.1.spec_bytes() == text.spec_bytes().subrange(at as int, text.spec_bytes().len() as int),
{
    let r = text.split_at(at);
    proof {
        lemma_cut(text@, r.0@, r.1@, at as int);
    }
    r
}

/// Splits `text` at the first `delimiter`, an ASCII character: what stands before it and
/// what stands after it. `None` where `text` does not hold the delimiter.
pub(crate) fn split_once_ascii<'a>(text: &'a str, delimiter: char) -> (r: Option<
    (&'a str, &'a str),
>)
    requires
        is_ascii_char(delimiter),
    ensures
        match r {
            Some((head, tail)) => !head@.contains(delimiter) && text@ == head@.push(delimiter)
                + tail@,
            None => !text@.contains(delimiter),
        },
{
    let bytes = text.as_bytes();
    let wanted: u8 = delimiter as u8;
    let mut at: usize = 0;
    while at < bytes.len() && bytes[at] != wanted
        invariant
            at <= bytes@.len(),
            forall|i: int| 0 <= i < at ==> bytes@[i] != wanted,
        decreases bytes@.len() - at,
    {
        at += 1;
    }
    if at == bytes.len() {
        proof {
            if text@.contains(delimiter) {
                lemma_ascii_char_is_byte(text@, delimiter);
            }
        }
        return None;
    }
    proof {
        encode_utf8_valid_utf8(text@);
        is_char_boundary_iff_not_is_continuation_byte(bytes@, at as int);
    }
    let (head, rest) = split_at_boundary(text, at);
    proof {
        let tail_bytes = rest.spec_bytes();
        encode_utf8_valid_utf8(rest@);
        assert(tail_bytes[0] == wanted);
        assert(length_of_first_scalar(tail_bytes) == 1);
        assert(is_char_boundary(tail_bytes, 1)) by {
            reveal_with_fuel(is_char_boundary, 2);
            assert(valid_utf8(pop_first_scalar(tail_bytes)));
        }
    }
    let (middle, tail) = split_at_boundary(rest, 1);
    proof {
        assert(middle.spec_bytes() =~= seq![wanted]);
        lemma_single_ascii(middle@, delimiter);
        assert(text@ =~= head@.push(delimiter) + tail@);
        if head@.contains(delimiter) {
            lemma_ascii_char_is_byte(head@, delimiter);
            let found = head.spec_bytes();
            let i = choose|i: int| 0 <= i < found.len() && found[i] == wanted;
            assert(bytes@[i] == wanted);
        }
    }
    Some((head, tail))
}

/// A text with a character has a byte.
pub proof fn lemma_bytes_of_nonempty(text: Seq<char>)
    requires
        text.len() > 0,
    ensures
        encode_utf8(text).len() > 0,
{
    assert(encode_utf8(text) == encode_scalar(text[0] as u32) + encode_utf8(text.drop_first()));
    assert(encode_scalar(text[0] as u32).len() > 0);
}

/// Texts with the same bytes are the same text.
pub proof fn lemma_same_bytes(a: Seq<char>, b: Seq<char>)
    requires
        encode_utf8(a) == encode_utf8(b),
    ensures
        a == b,
{
    encode_utf8_decode_utf8(a);
    encode_utf8_decode_utf8(b);
}

/// The number of bytes that encode `c`.
pub fn char_width(c: char) -> (r: usize)
    ensures
        r == encode_scalar(c as u32).len(),
        1 <= r <= 4,
{
    proof {
        vstd::utf8::char_is_scalar(c);
    }
    let scalar: u32 = c as u32;
    if scalar < 0x80 {
        1
    } else if scalar < 0x800 {
        2
    } else if scalar < 0x10000 {
        3
    } else {
        4
    }
}

/// The first character of `text` and what follows it. `None` where `text` is empty.
pub fn split_first_char<'a>(text: &'a str) -> (r: Option<(char, &'a str)>)
    ensures
        match r {
            Some((first, tail)) => text@.len() > 0 && first == text@.first() && tail@
                == text@.drop_first(),
            None => text@.len() == 0,
        },
{
    broadcast use vstd::string::group_string_axioms;

    let mut chars = text.chars();
    let first = match chars.next() {
        Some(first) => first,
        None => {
            return None;
        },
    };
    let width = char_width(first);
    proof {
        let bytes = text.spec_bytes();
        encode_utf8_valid_utf8(text@);
        encode_utf8_valid_utf8(text@.drop_first());
        encode_utf8_first_scalar(text@);
        assert(bytes == encode_scalar(first as u32) + encode_utf8(text@.drop_first()));
        assert(pop_first_scalar(bytes) =~= encode_utf8(text@.drop_first()));
        assert(is_char_boundary(bytes, width as int)) by {
            reveal_with_fuel(is_char_boundary, 2);
        }
    }
    let (_, tail) = split_at_boundary(text, width);
    proof {
        assert(tail.spec_bytes() =~= encode_utf8(text@.drop_first()));
        lemma_same_bytes(tail@, text@.drop_first());
    }
    Some((first, tail))
}

/// The last character of `text` and what stands before it. `None` where `text` is empty.
pub fn split_last_char<'a>(text: &'a str) -> (r: Option<(&'a str, char)>)
    ensures
        match r {
            Some((head, last)) => text@.len() > 0 && last == text@.last() && head@
                == text@.drop_last(),
            None => text@.len() == 0,
        },
{
    let bytes = text.as_bytes();
    if bytes.len() == 0 {
        proof {
            if text@.len() > 0 {
                lemma_bytes_of_nonempty(text@);
            }
        }
        return None;
    }
    proof {
        encode_utf8_valid_utf8(text@);
    }
    let mut at: usize = bytes.len() - 1;
    while at > 0 && 0x80 <= bytes[at] && bytes[at] <= 0xbf
        invariant
            at < bytes@.len(),
            forall|i: int| at < i < bytes@.len() ==> is_continuation_byte(bytes@[i]),
        decreases at,
    {
        at -= 1;
    }
    proof {
        if at == 0 {
            vstd::utf8::is_char_boundary_start_end_of_seq(bytes@);
        } else {
            is_char_boundary_iff_not_is_continuation_byte(bytes@, at as int);
        }
    }
    let (head, end) = split_at_boundary(text, at);
    proof {
        if end@.len() == 0 {
            assert(encode_utf8(end@).len() == 0);
        }
    }
    match split_first_char(end) {
        Some((last, rest)) => {
            proof {
                let width = encode_scalar(last as u32).len() as int;
                let end_bytes = end.spec_bytes();
                assert(end_bytes == encode_scalar(last as u32) + encode_utf8(rest@));
                if rest@.len() > 0 {
                    let rest_bytes = encode_utf8(rest@);
                    lemma_bytes_of_nonempty(rest@);
                    encode_utf8_valid_utf8(rest@);
                    vstd::utf8::is_char_boundary_start_end_of_seq(rest_bytes);
                    is_char_boundary_iff_not_is_continuation_byte(rest_bytes, 0);
                    assert(rest_bytes[0] == end_bytes[width]);
                    assert(end_bytes[width] == bytes@[at + width]);
                }
                assert(end@ =~= seq![last]);
                assert(text@.drop_last() =~= head@);
            }
            Some((head, last))
        },
        None => None,
    }
}

} // verus!
