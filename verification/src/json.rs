//! The JSON wire format of an image record, stated mathematically: what the
//! encoding of a record is, character for character, and what a body must
//! look like to decode into one. The exec encoder and decoder are proved
//! against these functions.

use vstd::prelude::*;

use crate::num::{digit_val, is_digit, spec_digits_val, spec_idec};
use crate::types::ImageModel;
use crate::types::NewImageModel;

verus! {

// ---------------------------------------------------------------------------
// Encoding
// ---------------------------------------------------------------------------
/// The character for one hexadecimal digit value, lower case.
pub open spec fn spec_hex_char(d: int) -> char {
    if d == 0 { '0' }
    else if d == 1 { '1' }
    else if d == 2 { '2' }
    else if d == 3 { '3' }
    else if d == 4 { '4' }
    else if d == 5 { '5' }
    else if d == 6 { '6' }
    else if d == 7 { '7' }
    else if d == 8 { '8' }
    else if d == 9 { '9' }
    else if d == 10 { 'a' }
    else if d == 11 { 'b' }
    else if d == 12 { 'c' }
    else if d == 13 { 'd' }
    else if d == 14 { 'e' }
    else { 'f' }
}

/// How one character appears inside a JSON string literal: quotes and
/// backslashes take a two-character escape, control characters a `\u00XX`
/// escape, and everything else stands as itself.
pub open spec fn spec_escape_char(c: char) -> Seq<char> {
    if c == '"' {
        seq!['\\', '"']
    } else if c == '\\' {
        seq!['\\', '\\']
    } else if (c as u32) < 32 {
        seq!['\\', 'u', '0', '0', spec_hex_char(((c as u32) as int) / 16), spec_hex_char(
            ((c as u32) as int) % 16,
        )]
    } else {
        seq![c]
    }
}

/// A whole character sequence escaped for a JSON string literal.
pub open spec fn spec_escape(s: Seq<char>) -> Seq<char>
    decreases s.len(),
{
    if s.len() == 0 {
        Seq::empty()
    } else {
        spec_escape_char(s[0]) + spec_escape(s.drop_first())
    }
}

/// Escaping distributes over concatenation.
pub proof fn lemma_escape_concat(a: Seq<char>, b: Seq<char>)
    ensures
        spec_escape(a + b) == spec_escape(a) + spec_escape(b),
    decreases a.len(),
{
    if a.len() == 0 {
        assert(a + b =~= b);
        assert(spec_escape(a) == Seq::<char>::empty());
        assert(spec_escape(a) + spec_escape(b) =~= spec_escape(b));
    } else {
        assert((a + b)[0] == a[0]);
        assert((a + b).drop_first() =~= a.drop_first() + b);
        lemma_escape_concat(a.drop_first(), b);
        assert(spec_escape(a + b) == spec_escape_char(a[0]) + (spec_escape(a.drop_first())
            + spec_escape(b)));
        assert(spec_escape_char(a[0]) + (spec_escape(a.drop_first()) + spec_escape(b)) =~= (
        spec_escape_char(a[0]) + spec_escape(a.drop_first())) + spec_escape(b));
        assert(spec_escape(a) == spec_escape_char(a[0]) + spec_escape(a.drop_first()));
    }
}

/// A JSON string literal: the escaped characters between double quotes.
pub open spec fn spec_json_string(s: Seq<char>) -> Seq<char> {
    seq!['"'] + spec_escape(s) + seq!['"']
}

/// An optional string as a JSON value: `null` when absent.
pub open spec fn spec_json_opt_string(o: Option<Seq<char>>) -> Seq<char> {
    match o {
        None => seq!['n', 'u', 'l', 'l'],
        Some(s) => spec_json_string(s),
    }
}

pub open spec fn key_id() -> Seq<char> {
    seq!['i', 'd']
}

pub open spec fn key_raw_id() -> Seq<char> {
    seq!['r', 'a', 'w', '_', 'i', 'd']
}

pub open spec fn key_sidecar_id() -> Seq<char> {
    seq!['s', 'i', 'd', 'e', 'c', 'a', 'r', '_', 'i', 'd']
}

pub open spec fn key_image_id() -> Seq<char> {
    seq!['i', 'm', 'a', 'g', 'e', '_', 'i', 'd']
}

pub open spec fn key_user_id() -> Seq<char> {
    seq!['u', 's', 'e', 'r', '_', 'i', 'd']
}

/// The quoted key and the colon that open one object member.
pub open spec fn spec_member_prefix(k: Seq<char>) -> Seq<char> {
    seq!['"'] + k + seq!['"', ':']
}

/// The JSON encoding of a full image record: the five members in declaration
/// order, no whitespace.
pub open spec fn spec_encode_image(m: ImageModel) -> Seq<char> {
    seq!['{'] + spec_member_prefix(key_id()) + spec_idec(m.id) + seq![','] + spec_member_prefix(
        key_raw_id(),
    ) + spec_json_opt_string(m.raw_id) + seq![','] + spec_member_prefix(key_sidecar_id())
        + spec_json_opt_string(m.sidecar_id) + seq![','] + spec_member_prefix(key_image_id())
        + spec_json_opt_string(m.image_id) + seq![','] + spec_member_prefix(key_user_id())
        + spec_idec(m.user_id) + seq!['}']
}

/// The JSON encoding of a creation payload: as the image record, without the
/// identifier member.
pub open spec fn spec_encode_new(m: NewImageModel) -> Seq<char> {
    seq!['{'] + spec_member_prefix(key_raw_id()) + spec_json_opt_string(m.raw_id) + seq![',']
        + spec_member_prefix(key_sidecar_id()) + spec_json_opt_string(m.sidecar_id) + seq![',']
        + spec_member_prefix(key_image_id()) + spec_json_opt_string(m.image_id) + seq![',']
        + spec_member_prefix(key_user_id()) + spec_idec(m.user_id) + seq!['}']
}

// ---------------------------------------------------------------------------
// Decoding
// ---------------------------------------------------------------------------
/// JSON insignificant whitespace.
pub open spec fn is_ws(c: char) -> bool {
    c == ' ' || c == '\t' || c == '\n' || c == '\r'
}

/// The input with its leading whitespace removed.
pub open spec fn skip_ws(s: Seq<char>) -> Seq<char>
    decreases s.len(),
{
    if s.len() > 0 && is_ws(s[0]) {
        skip_ws(s.drop_first())
    } else {
        s
    }
}

/// The length of the input's leading run of decimal digits.
pub open spec fn digits_end(s: Seq<char>) -> nat
    decreases s.len(),
{
    if s.len() > 0 && is_digit(s[0]) {
        1 + digits_end(s.drop_first())
    } else {
        0
    }
}

/// The leading digit run is digits throughout, ends at a non-digit, and
/// never passes the end of the input.
pub proof fn lemma_digits_end_digits(s: Seq<char>)
    ensures
        digits_end(s) <= s.len(),
        forall|i: int| 0 <= i < digits_end(s) ==> is_digit(#[trigger] s[i]),
        digits_end(s) < s.len() ==> !is_digit(s[digits_end(s) as int]),
    decreases s.len(),
{
    if s.len() > 0 && is_digit(s[0]) {
        lemma_digits_end_digits(s.drop_first());
        assert forall|i: int| 0 <= i < digits_end(s) implies is_digit(#[trigger] s[i]) by {
            if i > 0 {
                assert(s.drop_first()[i - 1] == s[i]);
            }
        }
        if digits_end(s) < s.len() {
            assert(s.drop_first()[digits_end(s) as int - 1] == s[digits_end(s) as int]);
        }
    }
}

/// Reads a JSON integer from the front of the input: an optional minus sign,
/// then digits with no leading zero. Yields the value and the rest.
pub open spec fn parse_int(s: Seq<char>) -> Option<(int, Seq<char>)> {
    let neg = s.len() > 0 && s[0] == '-';
    let t = if neg { s.drop_first() } else { s };
    let k = digits_end(t);
    if k == 0 {
        None
    } else if t[0] == '0' && k > 1 {
        None
    } else {
        let v = spec_digits_val(t.take(k as int));
        Some((if neg { -v } else { v }, t.skip(k as int)))
    }
}

/// As `parse_int`, but only when the value fits a 32-bit signed integer.
pub open spec fn parse_int_i32(s: Seq<char>) -> Option<(int, Seq<char>)> {
    match parse_int(s) {
        Some((v, r)) => if i32::MIN <= v <= i32::MAX {
            Some((v, r))
        } else {
            None
        },
        None => None,
    }
}

/// The character named by a two-character escape, if the second character
/// names one.
pub open spec fn simple_unescape(e: char) -> Option<char> {
    if e == '"' { Some('"') }
    else if e == '\\' { Some('\\') }
    else if e == '/' { Some('/') }
    else if e == 'b' { Some('\u{0008}') }
    else if e == 'f' { Some('\u{000C}') }
    else if e == 'n' { Some('\n') }
    else if e == 'r' { Some('\r') }
    else if e == 't' { Some('\t') }
    else { None }
}

pub open spec fn is_hex_digit(c: char) -> bool {
    is_digit(c) || ('a' <= c && c <= 'f') || ('A' <= c && c <= 'F')
}

pub open spec fn hex_val(c: char) -> int {
    if is_digit(c) {
        digit_val(c)
    } else if 'a' <= c && c <= 'f' {
        c as int - 'a' as int + 10
    } else {
        c as int - 'A' as int + 10
    }
}

/// The code point named by a `\uXXXX` escape whose four hex digits start at
/// the front of the input.
pub open spec fn hex4_val(s: Seq<char>) -> int {
    hex_val(s[0]) * 4096 + hex_val(s[1]) * 256 + hex_val(s[2]) * 16 + hex_val(s[3])
}

pub open spec fn hex4_ok(s: Seq<char>) -> bool {
    s.len() >= 4 && is_hex_digit(s[0]) && is_hex_digit(s[1]) && is_hex_digit(s[2]) && is_hex_digit(
        s[3],
    )
}

/// Reads the remainder of a JSON string literal, the opening quote already
/// consumed: content up to the closing quote, escapes resolved. Unescaped
/// control characters and lone-surrogate `\u` escapes are refused.
pub open spec fn parse_string_body(s: Seq<char>) -> Option<(Seq<char>, Seq<char>)>
    decreases s.len(),
{
    if s.len() == 0 {
        None
    } else if s[0] == '"' {
        Some((Seq::empty(), s.drop_first()))
    } else if s[0] == '\\' {
        if s.len() < 2 {
            None
        } else if s[1] == 'u' {
            if hex4_ok(s.skip(2)) {
                let v = hex4_val(s.skip(2));
                if 0xD800 <= v < 0xE000 {
                    None
                } else {
                    match parse_string_body(s.skip(6)) {
                        Some((t, r)) => Some((seq![v as char] + t, r)),
                        None => None,
                    }
                }
            } else {
                None
            }
        } else {
            match simple_unescape(s[1]) {
                Some(c) => match parse_string_body(s.skip(2)) {
                    Some((t, r)) => Some((seq![c] + t, r)),
                    None => None,
                },
                None => None,
            }
        }
    } else if (s[0] as u32) < 32 {
        None
    } else {
        match parse_string_body(s.drop_first()) {
            Some((t, r)) => Some((seq![s[0]] + t, r)),
            None => None,
        }
    }
}

/// Reads a JSON string literal from the front of the input.
pub open spec fn parse_string(s: Seq<char>) -> Option<(Seq<char>, Seq<char>)> {
    if s.len() > 0 && s[0] == '"' {
        parse_string_body(s.drop_first())
    } else {
        None
    }
}

/// Reads `null` or a JSON string literal from the front of the input.
pub open spec fn parse_null_or_string(s: Seq<char>) -> Option<(Option<Seq<char>>, Seq<char>)> {
    if s.len() >= 4 && s[0] == 'n' && s[1] == 'u' && s[2] == 'l' && s[3] == 'l' {
        Some((None, s.skip(4)))
    } else {
        match parse_string(s) {
            Some((t, r)) => Some((Some(t), r)),
            None => None,
        }
    }
}

/// The fields of an image record seen so far while reading an object; for
/// the optional string fields, `Some(None)` records an explicit `null`.
pub ghost struct PartialImage {
    pub id: Option<int>,
    pub raw_id: Option<Option<Seq<char>>>,
    pub sidecar_id: Option<Option<Seq<char>>>,
    pub image_id: Option<Option<Seq<char>>>,
    pub user_id: Option<int>,
}

pub open spec fn empty_partial() -> PartialImage {
    PartialImage { id: None, raw_id: None, sidecar_id: None, image_id: None, user_id: None }
}

/// Reads one `"key": value` member from the front of the input and records
/// it. Unknown keys, repeated keys, values of the wrong type and identifiers
/// beyond 32 bits are refused.
pub open spec fn parse_member(s: Seq<char>, acc: PartialImage) -> Option<(PartialImage, Seq<char>)> {
    match parse_string(s) {
        None => None,
        Some((k, r1)) => {
            let r2 = skip_ws(r1);
            if r2.len() > 0 && r2[0] == ':' {
                let r3 = skip_ws(r2.drop_first());
                if k == key_id() {
                    if acc.id is Some {
                        None
                    } else {
                        match parse_int_i32(r3) {
                            Some((v, r4)) => Some((PartialImage { id: Some(v), ..acc }, r4)),
                            None => None,
                        }
                    }
                } else if k == key_user_id() {
                    if acc.user_id is Some {
                        None
                    } else {
                        match parse_int_i32(r3) {
                            Some((v, r4)) => Some((PartialImage { user_id: Some(v), ..acc }, r4)),
                            None => None,
                        }
                    }
                } else if k == key_raw_id() {
                    if acc.raw_id is Some {
                        None
                    } else {
                        match parse_null_or_string(r3) {
                            Some((v, r4)) => Some((PartialImage { raw_id: Some(v), ..acc }, r4)),
                            None => None,
                        }
                    }
                } else if k == key_sidecar_id() {
                    if acc.sidecar_id is Some {
                        None
                    } else {
                        match parse_null_or_string(r3) {
                            Some((v, r4)) => Some(
                                (PartialImage { sidecar_id: Some(v), ..acc }, r4),
                            ),
                            None => None,
                        }
                    }
                } else if k == key_image_id() {
                    if acc.image_id is Some {
                        None
                    } else {
                        match parse_null_or_string(r3) {
                            Some((v, r4)) => Some((PartialImage { image_id: Some(v), ..acc }, r4)),
                            None => None,
                        }
                    }
                } else {
                    None
                }
            } else {
                None
            }
        },
    }
}

/// Reads the members of an image object from the first key to the closing
/// brace. `n` bounds the commas still allowed; five distinct keys exist, so
/// a budget of four from the first member loses nothing.
pub open spec fn parse_members(s: Seq<char>, acc: PartialImage, n: nat) -> Option<
    (PartialImage, Seq<char>),
>
    decreases n,
{
    match parse_member(s, acc) {
        None => None,
        Some((acc2, r)) => {
            let r2 = skip_ws(r);
            if r2.len() > 0 && r2[0] == ',' {
                if n > 0 {
                    parse_members(skip_ws(r2.drop_first()), acc2, (n - 1) as nat)
                } else {
                    None
                }
            } else if r2.len() > 0 && r2[0] == '}' {
                Some((acc2, r2.drop_first()))
            } else {
                None
            }
        },
    }
}

/// Reads a whole image object from the front of the input.
pub open spec fn parse_image_obj(s: Seq<char>) -> Option<(PartialImage, Seq<char>)> {
    let t = skip_ws(s);
    if t.len() > 0 && t[0] == '{' {
        let u = skip_ws(t.drop_first());
        if u.len() > 0 && u[0] == '}' {
            Some((empty_partial(), u.drop_first()))
        } else {
            parse_members(u, empty_partial(), 4)
        }
    } else {
        None
    }
}

/// An absent optional member and an explicit `null` both mean no value.
pub open spec fn flatten_opt(o: Option<Option<Seq<char>>>) -> Option<Seq<char>> {
    match o {
        Some(v) => v,
        None => None,
    }
}

/// A finished record from the members read: both integer fields must have
/// appeared; the optional string fields default to no value.
pub open spec fn finish_image(p: PartialImage) -> Option<ImageModel> {
    if p.id is Some && p.user_id is Some {
        Some(
            ImageModel {
                id: p.id->0,
                raw_id: flatten_opt(p.raw_id),
                sidecar_id: flatten_opt(p.sidecar_id),
                image_id: flatten_opt(p.image_id),
                user_id: p.user_id->0,
            },
        )
    } else {
        None
    }
}

/// What a response body decodes to: an image object with nothing but
/// whitespace after it, or nothing at all.
pub open spec fn spec_decode_image(s: Seq<char>) -> Option<ImageModel> {
    match parse_image_obj(s) {
        None => None,
        Some((p, r)) => if skip_ws(r).len() == 0 {
            finish_image(p)
        } else {
            None
        },
    }
}

} // verus!
