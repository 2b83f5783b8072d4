//! The header lines of a request, kept in the transport's own header map.
//!
//! The map is `reqwest`'s; nothing in it is visible to the verifier. What it
//! holds is named by [`header_lines`], and the few operations the bridge needs
//! are declared here with contracts that are trusted, not proved.

use reqwest::header::{HeaderMap, HeaderName, HeaderValue, InvalidHeaderValue};
use vstd::prelude::*;
use vstd::utf8::{char_is_scalar, encode_scalar, encode_utf8, has_width_1_encoding};

verus! {

/// `reqwest::header::HeaderMap`, declared as an opaque type.
#[verifier::external_type_specification]
#[verifier::external_body]
#[verifier::reject_recursive_types(T)]
pub struct ExHeaderMap<T>(HeaderMap<T>);

/// `reqwest::header::HeaderValue`, the kind of value the bridge's maps hold,
/// declared as an opaque type.
#[verifier::external_type_specification]
#[verifier::external_body]
pub struct ExHeaderValue(HeaderValue);

/// `reqwest::header::InvalidHeaderValue`, the error of
/// `HeaderValue::from_str`, declared as an opaque type.
#[verifier::external_type_specification]
#[verifier::external_body]
pub struct ExInvalidHeaderValue(InvalidHeaderValue);

/// What a header map holds: under each name that `HeaderMap::contains_key`
/// knows, the values that `HeaderMap::get_all` lists for it, in that order,
/// each as its bytes.
pub uninterp spec fn header_lines(map: HeaderMap) -> Map<Seq<char>, Seq<Seq<u8>>>;

/// What an empty header map holds.
pub open spec fn no_lines() -> Map<Seq<char>, Seq<Seq<u8>>> {
    Map::empty()
}

/// Whether `name` may be given to [`insert_header`]: one to sixty-four
/// characters, each a lower-case letter, a digit or a hyphen.
pub open spec fn is_plain_name(name: Seq<char>) -> bool {
    &&& 0 < name.len() <= 64
    &&& forall|i: int|
        0 <= i < name.len() ==> {
            let c = #[trigger] name[i] as u32;
            ||| 0x61 <= c <= 0x7A
            ||| 0x30 <= c <= 0x39
            ||| c == 0x2D
        }
}

/// Whether `bytes` can be the value of a header: no control character but
/// the tab.
pub open spec fn is_header_value(bytes: Seq<u8>) -> bool {
    forall|i: int|
        0 <= i < bytes.len() ==> {
            let b = #[trigger] bytes[i];
            (b >= 32 && b != 127) || b == 9
        }
}

/// Whether `c` can stand in the value of a header: any character but the
/// control characters of ASCII, the tab excepted.
pub open spec fn is_header_char(c: char) -> bool {
    let n = c as u32;
    (n >= 32 && n != 127) || n == 9
}

/// Whether every character of `text` can stand in the value of a header.
pub open spec fn is_header_text(text: Seq<char>) -> bool {
    forall|i: int| 0 <= i < text.len() ==> is_header_char(#[trigger] text[i])
}

/// The bytes that write one character can be the value of a header exactly
/// when the character can stand in one: a character outside ASCII is written
/// in bytes of 128 and more.
proof fn lemma_header_char_in_bytes(c: char)
    ensures
        is_header_value(encode_scalar(c as u32)) <==> is_header_char(c),
{
    let n = c as u32;
    let bytes = encode_scalar(n);
    char_is_scalar(c);
    if has_width_1_encoding(n) {
        assert((n & 0x7F) as u8 == n) by (bit_vector)
            requires
                n <= 0x7F,
        ;
        assert(bytes[0] == n);
        assert(is_header_value(bytes) <==> is_header_char(c)) by {
            if is_header_value(bytes) {
                assert((bytes[0] >= 32 && bytes[0] != 127) || bytes[0] == 9);
            }
        }
    } else {
        assert(forall|x: u8| #![auto] 0x80 | x >= 0x80) by (bit_vector);
        assert(forall|x: u8| #![auto] 0xC0 | x >= 0x80) by (bit_vector);
        assert(forall|x: u8| #![auto] 0xE0 | x >= 0x80) by (bit_vector);
        assert(forall|x: u8| #![auto] 0xF0 | x >= 0x80) by (bit_vector);
        assert(forall|i: int| 0 <= i < bytes.len() ==> #[trigger] bytes[i] >= 0x80);
    }
}

/// Two runs of bytes can each be the value of a header exactly when the two
/// in a row can.
proof fn lemma_header_value_concat(a: Seq<u8>, b: Seq<u8>)
    ensures
        is_header_value(a + b) <==> is_header_value(a) && is_header_value(b),
{
    let whole = a + b;
    if is_header_value(whole) {
        assert forall|i: int| 0 <= i < a.len() implies {
            let x = #[trigger] a[i];
            (x >= 32 && x != 127) || x == 9
        } by {
            assert(a[i] == whole[i]);
        }
        assert forall|i: int| 0 <= i < b.len() implies {
            let x = #[trigger] b[i];
            (x >= 32 && x != 127) || x == 9
        } by {
            assert(b[i] == whole[i + a.len()]);
        }
    }
    if is_header_value(a) && is_header_value(b) {
        assert forall|i: int| 0 <= i < whole.len() implies {
            let x = #[trigger] whole[i];
            (x >= 32 && x != 127) || x == 9
        } by {
            if i < a.len() {
                assert(whole[i] == a[i]);
            } else {
                assert(whole[i] == b[i - a.len()]);
            }
        }
    }
}

/// A text can be sent as the value of a header exactly when it holds no
/// control character of ASCII but the tab: its bytes in UTF-8 can be the
/// value of a header exactly when each of its characters can stand in one.
pub proof fn law_header_text_in_bytes(text: Seq<char>)
    ensures
        is_header_value(encode_utf8(text)) <==> is_header_text(text),
    decreases text.len(),
{
    if text.len() > 0 {
        let rest = text.drop_first();
        lemma_header_char_in_bytes(text[0]);
        law_header_text_in_bytes(rest);
        lemma_header_value_concat(encode_scalar(text[0] as u32), encode_utf8(rest));
        if is_header_text(text) {
            assert forall|i: int| 0 <= i < rest.len() implies is_header_char(
                #[trigger] rest[i],
            ) by {
                assert(rest[i] == text[i + 1]);
            }
        }
        if is_header_char(text[0]) && is_header_text(rest) {
            assert forall|i: int| 0 <= i < text.len() implies is_header_char(
                #[trigger] text[i],
            ) by {
                if i > 0 {
                    assert(text[i] == rest[i - 1]);
                }
            }
        }
    }
}

/// Whether one more name can be inserted into a map that holds `lines`: the
/// map is far below the size at which the table can no longer grow.
pub open spec fn has_room(lines: Map<Seq<char>, Seq<Seq<u8>>>) -> bool {
    lines.dom().finite() && lines.dom().len() < 1024
}

/// `HeaderMap::new`: a map that holds nothing.
#[verifier::external_body]
pub(crate) fn empty_headers() -> (headers: HeaderMap)
    ensures
        header_lines(headers) == no_lines(),
{
    HeaderMap::new()
}

/// `HeaderMap::insert`, with the name made by `HeaderName::from_static` and
/// the value by `HeaderValue::from_str`. The latter refuses exactly the texts
/// that hold a byte below 32 other than the tab, or the byte 127; the map is
/// then left as it was. Otherwise the value becomes the only one under the
/// name, and nothing else changes. `from_static` panics on a name it does not
/// accept, and `insert` where the table cannot grow any more, which is at
/// 32768 slots: the preconditions leave both out.
#[verifier::external_body]
pub(crate) fn insert_header(map: &mut HeaderMap, name: &'static str, value: &str) -> (r: Result<
    (),
    InvalidHeaderValue,
>)
    requires
        is_plain_name(name@),
        has_room(header_lines(*old(map))),
    ensures
        r is Ok <==> is_header_value(encode_utf8(value@)),
        r is Ok ==> header_lines(*final(map)) == header_lines(*old(map)).insert(
            name@,
            seq![encode_utf8(value@)],
        ),
        r is Err ==> header_lines(*final(map)) == header_lines(*old(map)),
{
    let value = HeaderValue::from_str(value)?;
    map.insert(HeaderName::from_static(name), value);
    Ok(())
}

} // verus!
