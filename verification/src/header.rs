//! Headers: which of them can be sent, and in what form.

use vstd::prelude::*;
use vstd::utf8::{
    char_is_scalar, encode_scalar, encode_utf8, has_width_1_encoding, is_ascii_chars,
    is_ascii_chars_encode_utf8, last_continuation_byte, leading_byte_width_1,
    leading_byte_width_2, leading_byte_width_3, leading_byte_width_4,
    second_last_continuation_byte, third_last_continuation_byte,
};
use crate::bindings::{
    header_name_from_bytes, header_value_from_bytes, is_header_name_byte, is_header_value,
    is_header_value_byte,
};
use crate::grammar::{header_name, header_value, is_header_line, is_name_char, name_end};
use crate::text::{lemma_first_at, lowered, string_of};

verus! {

/// A character that may stand in a header's value: a tab, or any character
/// from the space upwards but DEL.
pub open spec fn is_value_char(c: char) -> bool {
    c == '\t' || (' ' <= c && c != '\x7f')
}

/// A text that may be a header's value.
pub open spec fn is_value(value: Seq<char>) -> bool {
    forall|i: int| 0 <= i < value.len() ==> is_value_char(#[trigger] value[i])
}

/// Whether the header that `line` holds can be sent: its name is no longer
/// than 65535 characters, and its value holds no control character but the
/// tab.
pub open spec fn header_sendable(line: Seq<char>) -> bool {
    header_name(line).len() <= 65535 && is_value(header_value(line))
}

/// The bytes of one character are header value bytes exactly when the
/// character is a header value character.
proof fn lemma_value_char_bytes(c: char)
    ensures
        is_header_value(encode_scalar(c as u32)) <==> is_value_char(c),
{
    let s = c as u32;
    let bytes = encode_scalar(s);
    char_is_scalar(c);
    if has_width_1_encoding(s) {
        assert(leading_byte_width_1(s) == s) by (bit_vector)
            requires
                s <= 0x7f,
        ;
        assert(bytes[0] == s);
    } else {
        assert(leading_byte_width_2(s) >= 0x80 && leading_byte_width_3(s) >= 0x80
            && leading_byte_width_4(s) >= 0x80 && last_continuation_byte(s) >= 0x80
            && second_last_continuation_byte(s) >= 0x80 && third_last_continuation_byte(s)
            >= 0x80) by (bit_vector);
    }
}

/// The UTF-8 bytes of a text are header value bytes exactly when the text is
/// a header value.
pub proof fn lemma_value_bytes(value: Seq<char>)
    ensures
        is_header_value(encode_utf8(value)) <==> is_value(value),
    decreases value.len(),
{
    if value.len() > 0 {
        let first = encode_scalar(value[0] as u32);
        let rest = value.drop_first();
        let bytes = encode_utf8(value);
        lemma_value_char_bytes(value[0]);
        lemma_value_bytes(rest);
        assert(bytes == first + encode_utf8(rest));
        if is_value(value) {
            assert(is_value_char(value[0]));
            assert forall|i: int| 0 <= i < rest.len() implies is_value_char(#[trigger] rest[i]) by {
                assert(rest[i] == value[i + 1]);
            }
            assert forall|i: int| 0 <= i < bytes.len() implies is_header_value_byte(
                #[trigger] bytes[i],
            ) by {
                if i < first.len() {
                    assert(bytes[i] == first[i]);
                } else {
                    assert(bytes[i] == encode_utf8(rest)[i - first.len()]);
                }
            }
        }
        if is_header_value(bytes) {
            assert forall|i: int| 0 <= i < first.len() implies is_header_value_byte(
                #[trigger] first[i],
            ) by {
                assert(first[i] == bytes[i]);
            }
            assert forall|i: int| 0 <= i < encode_utf8(rest).len() implies is_header_value_byte(
                #[trigger] encode_utf8(rest)[i],
            ) by {
                assert(encode_utf8(rest)[i] == bytes[first.len() + i]);
            }
            assert forall|i: int| 0 <= i < value.len() implies is_value_char(#[trigger] value[i]) by {
                if i > 0 {
                    assert(value[i] == rest[i - 1]);
                }
            }
        }
    }
}

/// The header that `line` holds: its name in lower case, and its value.
pub open spec fn header_of(line: Seq<char>) -> (Seq<char>, Seq<char>) {
    (lowered(header_name(line)), header_value(line))
}

/// Reads one header line whose name ends at `k`.
pub(crate) fn read_header(line: &[char], k: usize) -> (r: Option<(String, String)>)
    requires
        is_header_line(line@),
        k == name_end(line@),
        0 < k,
        k + 2 < line.len(),
    ensures
        r is Some <==> header_sendable(line@),
        r matches Some(h) ==> (h.0@, h.1@) == header_of(line@),
{
    let name = string_of(line, 0, k);
    let value = string_of(line, k + 2, line.len());
    proof {
        lemma_first_at(line@, 0, |c: char| !is_name_char(c));
        assert(is_ascii_chars(name@));
        is_ascii_chars_encode_utf8(name@);
    }
    let name_bytes = name.as_str().as_bytes();
    assert(forall|i: int| 0 <= i < name_bytes@.len() ==> is_header_name_byte(#[trigger] name_bytes@[i]));
    match header_name_from_bytes(name_bytes) {
        Err(_) => None,
        Ok(lower) => {
            assert(lower@ =~= lowered(name@));
            proof {
                lemma_value_bytes(value@);
            }
            match header_value_from_bytes(value.as_str().as_bytes()) {
                Err(_) => None,
                Ok(_) => Some((lower, value)),
            }
        },
    }
}

} // verus!
