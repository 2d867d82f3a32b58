//! The law relating the two halves of the wire format: decoding inverts
//! encoding on every representable image record.

use vstd::prelude::*;

use crate::json::{
    digits_end, empty_partial, finish_image, hex4_ok, hex4_val, hex_val, is_hex_digit, is_ws,
    key_id, key_image_id, key_raw_id, key_sidecar_id, key_user_id, parse_image_obj, parse_int,
    parse_int_i32, parse_member, parse_members, parse_null_or_string, parse_string,
    parse_string_body, simple_unescape, skip_ws, spec_decode_image, spec_encode_image,
    spec_escape, spec_escape_char, spec_hex_char, spec_json_opt_string, spec_json_string,
    spec_member_prefix, PartialImage,
};
use crate::num::{
    is_digit, lemma_udec_shape, lemma_udec_val, spec_digits_val, spec_idec, spec_udec,
};
use crate::types::{image_model_fits, ImageModel};

verus! {

/// A character that stands as itself inside a JSON string literal.
pub open spec fn plain_char(c: char) -> bool {
    c != '"' && c != '\\' && c as u32 >= 32
}

/// Whitespace skipping does nothing when the input does not start with
/// whitespace.
proof fn lemma_skip_ws_fixed(s: Seq<char>)
    requires
        s.len() == 0 || !is_ws(s[0]),
    ensures
        skip_ws(s) == s,
{
}

/// The hexadecimal digit characters read back as their values.
proof fn lemma_hex_char_val(d: int)
    requires
        0 <= d < 16,
    ensures
        is_hex_digit(spec_hex_char(d)),
        hex_val(spec_hex_char(d)) == d,
{
}

/// Escaping does nothing to a sequence of plain characters.
proof fn lemma_escape_plain(k: Seq<char>)
    requires
        forall|i: int| 0 <= i < k.len() ==> plain_char(#[trigger] k[i]),
    ensures
        spec_escape(k) == k,
    decreases k.len(),
{
    if k.len() == 0 {
        assert(spec_escape(k) =~= k);
    } else {
        assert(plain_char(k[0]));
        assert forall|i: int| 0 <= i < k.drop_first().len() implies plain_char(
            #[trigger] k.drop_first()[i],
        ) by {
            assert(k.drop_first()[i] == k[i + 1]);
        }
        lemma_escape_plain(k.drop_first());
        assert(spec_escape_char(k[0]) =~= seq![k[0]]);
        assert(seq![k[0]] + k.drop_first() =~= k);
    }
}

/// Reading a string-literal body back from an escaped sequence and its
/// closing quote yields the original characters and the trailing input.
proof fn lemma_parse_str_body_enc(v: Seq<char>, rest: Seq<char>)
    ensures
        parse_string_body(spec_escape(v) + seq!['"'] + rest) == Some((v, rest)),
    decreases v.len(),
{
    let s = spec_escape(v) + seq!['"'] + rest;
    if v.len() == 0 {
        assert(spec_escape(v) == Seq::<char>::empty());
        assert(s =~= seq!['"'] + rest);
        assert(s[0] == '"');
        assert(s.drop_first() =~= rest);
        assert(parse_string_body(s) == Some((Seq::<char>::empty(), rest)));
        assert(Seq::<char>::empty() =~= v);
    } else {
        let c = v[0];
        let v2 = v.drop_first();
        lemma_parse_str_body_enc(v2, rest);
        let tail = spec_escape(v2) + seq!['"'] + rest;
        assert(spec_escape(v) == spec_escape_char(c) + spec_escape(v2));
        assert(s =~= spec_escape_char(c) + tail);
        assert(seq![c] + v2 =~= v);
        if c == '"' {
            assert(spec_escape_char(c) =~= seq!['\\', '"']);
            assert(s[0] == '\\');
            assert(s.len() >= 2);
            assert(s[1] == '"');
            assert(s[1] != 'u');
            assert(simple_unescape(s[1]) == Some('"'));
            assert(s.skip(2) =~= tail);
            assert(parse_string_body(s) == Some((seq![c] + v2, rest)));
        } else if c == '\\' {
            assert(spec_escape_char(c) =~= seq!['\\', '\\']);
            assert(s[0] == '\\');
            assert(s.len() >= 2);
            assert(s[1] == '\\');
            assert(s[1] != 'u');
            assert(simple_unescape(s[1]) == Some('\\'));
            assert(s.skip(2) =~= tail);
            assert(parse_string_body(s) == Some((seq![c] + v2, rest)));
        } else if (c as u32) < 32 {
            let code = (c as u32) as int;
            let h1 = spec_hex_char(code / 16);
            let h2 = spec_hex_char(code % 16);
            assert(spec_escape_char(c) =~= seq!['\\', 'u', '0', '0', h1, h2]);
            assert(s[0] == '\\');
            assert(s.len() >= 6);
            assert(s[1] == 'u');
            assert(s.skip(2)[0] == '0');
            assert(s.skip(2)[1] == '0');
            assert(s.skip(2)[2] == h1);
            assert(s.skip(2)[3] == h2);
            assert(0 <= code < 32);
            lemma_hex_char_val(code / 16);
            lemma_hex_char_val(code % 16);
            assert(is_hex_digit('0'));
            assert(hex_val('0') == 0);
            assert(hex4_ok(s.skip(2)));
            assert(hex4_val(s.skip(2)) == 16 * (code / 16) + code % 16);
            assert(16 * (code / 16) + code % 16 == code);
            vstd::utf8::char_u32_cast(c, c as u32);
            assert((code as char) == c);
            assert(s.skip(6) =~= tail);
            assert(parse_string_body(s) == Some((seq![c] + v2, rest)));
        } else {
            assert(spec_escape_char(c) =~= seq![c]);
            assert(s[0] == c);
            assert(s.drop_first() =~= tail);
            assert(parse_string_body(s) == Some((seq![c] + v2, rest)));
        }
    }
}

/// Reading a whole string literal back from its encoding yields the
/// original characters and the trailing input.
proof fn lemma_parse_string_enc(v: Seq<char>, rest: Seq<char>)
    ensures
        parse_string(spec_json_string(v) + rest) == Some((v, rest)),
{
    let s = spec_json_string(v) + rest;
    assert(s =~= seq!['"'] + (spec_escape(v) + seq!['"'] + rest));
    assert(s[0] == '"');
    assert(s.drop_first() =~= spec_escape(v) + seq!['"'] + rest);
    lemma_parse_str_body_enc(v, rest);
}

/// Reading an optional string back from its encoding yields the original
/// value and the trailing input.
proof fn lemma_parse_opt_enc(o: Option<Seq<char>>, rest: Seq<char>)
    ensures
        parse_null_or_string(spec_json_opt_string(o) + rest) == Some((o, rest)),
{
    let s = spec_json_opt_string(o) + rest;
    match o {
        None => {
            assert(s =~= seq!['n', 'u', 'l', 'l'] + rest);
            assert(s.len() >= 4);
            assert(s[0] == 'n' && s[1] == 'u' && s[2] == 'l' && s[3] == 'l');
            assert(s.skip(4) =~= rest);
        },
        Some(v) => {
            lemma_parse_string_enc(v, rest);
            assert(s[0] == '"');
            assert(s[0] != 'n');
        },
    }
}

/// The digit run of a digit sequence followed by a non-digit is the whole
/// digit sequence.
proof fn lemma_digits_end_concat(d: Seq<char>, r: Seq<char>)
    requires
        forall|i: int| 0 <= i < d.len() ==> is_digit(#[trigger] d[i]),
        r.len() > 0 ==> !is_digit(r[0]),
    ensures
        digits_end(d + r) == d.len(),
    decreases d.len(),
{
    if d.len() == 0 {
        assert(d + r =~= r);
    } else {
        assert((d + r)[0] == d[0]);
        assert forall|i: int| 0 <= i < d.drop_first().len() implies is_digit(
            #[trigger] d.drop_first()[i],
        ) by {
            assert(d.drop_first()[i] == d[i + 1]);
        }
        lemma_digits_end_concat(d.drop_first(), r);
        assert((d + r).drop_first() =~= d.drop_first() + r);
    }
}

/// Reading an integer back from its decimal rendering yields the original
/// value and the trailing input, whose first character must not extend the
/// numeral.
proof fn lemma_parse_int_enc(v: int, rest: Seq<char>)
    requires
        rest.len() > 0,
        !is_digit(rest[0]),
    ensures
        parse_int(spec_idec(v) + rest) == Some((v, rest)),
{
    let s = spec_idec(v) + rest;
    let mag = if v < 0 { -v } else { v };
    let u = spec_udec(mag as nat);
    lemma_udec_shape(mag as nat);
    lemma_udec_val(mag as nat);
    if v < 0 {
        assert(spec_idec(v) == seq!['-'] + u);
        assert(s =~= seq!['-'] + (u + rest));
        assert(s[0] == '-');
        assert(!is_digit('-'));
        assert(s.drop_first() =~= u + rest);
        lemma_digits_end_concat(u, rest);
        assert(digits_end(u + rest) == u.len());
        assert((u + rest).take(u.len() as int) =~= u);
        assert((u + rest).skip(u.len() as int) =~= rest);
        assert((u + rest)[0] == u[0]);
        assert(mag >= 1);
        assert(u[0] != '0');
        assert(spec_digits_val(u) == mag);
    } else {
        assert(spec_idec(v) == u);
        assert(s =~= u + rest);
        assert(s[0] == u[0]);
        assert(is_digit(u[0]));
        assert(u[0] != '-');
        lemma_digits_end_concat(u, rest);
        assert(digits_end(u + rest) == u.len());
        assert((u + rest).take(u.len() as int) =~= u);
        assert((u + rest).skip(u.len() as int) =~= rest);
        if mag >= 1 {
            assert(u[0] != '0');
        } else {
            assert(u.len() == 1);
        }
        assert(spec_digits_val(u) == mag);
    }
}

/// The three steps every member starts with: its key parses back, the colon
/// follows at once, and the value follows the colon with no whitespace.
proof fn lemma_member_parts(k: Seq<char>, val: Seq<char>, rest: Seq<char>)
    requires
        forall|i: int| 0 <= i < k.len() ==> plain_char(#[trigger] k[i]),
        val.len() > 0,
        !is_ws(val[0]),
    ensures
        parse_string(spec_member_prefix(k) + val + rest) == Some((k, seq![':'] + (val + rest))),
        skip_ws(seq![':'] + (val + rest)) == seq![':'] + (val + rest),
        (seq![':'] + (val + rest))[0] == ':',
        (seq![':'] + (val + rest)).drop_first() =~= val + rest,
        skip_ws(val + rest) == val + rest,
{
    let s = spec_member_prefix(k) + val + rest;
    lemma_escape_plain(k);
    lemma_parse_string_enc(k, seq![':'] + (val + rest));
    assert(spec_json_string(k) + (seq![':'] + (val + rest)) =~= s);
    let after = seq![':'] + (val + rest);
    assert(after[0] == ':');
    assert(!is_ws(':'));
    lemma_skip_ws_fixed(after);
    assert(after.drop_first() =~= val + rest);
    assert((val + rest)[0] == val[0]);
    lemma_skip_ws_fixed(val + rest);
}

/// One integer member under the "id" key parses back and records the value.
proof fn lemma_member_id(v: int, sep: Seq<char>, acc: PartialImage)
    requires
        acc.id is None,
        i32::MIN <= v <= i32::MAX,
        sep.len() > 0,
        !is_digit(sep[0]),
    ensures
        parse_member(spec_member_prefix(key_id()) + spec_idec(v) + sep, acc) == Some(
            (PartialImage { id: Some(v), ..acc }, sep),
        ),
{
    let val = spec_idec(v);
    lemma_udec_shape((if v < 0 { -v } else { v }) as nat);
    assert(!is_ws(val[0]));
    assert(forall|i: int| 0 <= i < key_id().len() ==> plain_char(#[trigger] key_id()[i]));
    lemma_member_parts(key_id(), val, sep);
    lemma_parse_int_enc(v, sep);
    assert(parse_int_i32(val + sep) == Some((v, sep)));
}

/// One integer member under the "user_id" key parses back and records the
/// value.
proof fn lemma_member_user_id(v: int, sep: Seq<char>, acc: PartialImage)
    requires
        acc.user_id is None,
        i32::MIN <= v <= i32::MAX,
        sep.len() > 0,
        !is_digit(sep[0]),
    ensures
        parse_member(spec_member_prefix(key_user_id()) + spec_idec(v) + sep, acc) == Some(
            (PartialImage { user_id: Some(v), ..acc }, sep),
        ),
{
    let val = spec_idec(v);
    lemma_udec_shape((if v < 0 { -v } else { v }) as nat);
    assert(!is_ws(val[0]));
    assert(forall|i: int| 0 <= i < key_user_id().len() ==> plain_char(#[trigger] key_user_id()[i]));
    lemma_member_parts(key_user_id(), val, sep);
    lemma_parse_int_enc(v, sep);
    assert(key_user_id() != key_id());
    assert(parse_int_i32(val + sep) == Some((v, sep)));
}

/// One optional-string member under the "raw_id" key parses back and
/// records the value.
proof fn lemma_member_raw_id(o: Option<Seq<char>>, sep: Seq<char>, acc: PartialImage)
    requires
        acc.raw_id is None,
    ensures
        parse_member(spec_member_prefix(key_raw_id()) + spec_json_opt_string(o) + sep, acc)
            == Some((PartialImage { raw_id: Some(o), ..acc }, sep)),
{
    let val = spec_json_opt_string(o);
    assert(!is_ws(val[0]));
    assert(forall|i: int| 0 <= i < key_raw_id().len() ==> plain_char(#[trigger] key_raw_id()[i]));
    lemma_member_parts(key_raw_id(), val, sep);
    lemma_parse_opt_enc(o, sep);
    assert(key_raw_id() != key_id());
    assert(key_raw_id() != key_user_id());
}

/// One optional-string member under the "sidecar_id" key parses back and
/// records the value.
proof fn lemma_member_sidecar_id(o: Option<Seq<char>>, sep: Seq<char>, acc: PartialImage)
    requires
        acc.sidecar_id is None,
    ensures
        parse_member(spec_member_prefix(key_sidecar_id()) + spec_json_opt_string(o) + sep, acc)
            == Some((PartialImage { sidecar_id: Some(o), ..acc }, sep)),
{
    let val = spec_json_opt_string(o);
    assert(!is_ws(val[0]));
    assert(forall|i: int|
        0 <= i < key_sidecar_id().len() ==> plain_char(#[trigger] key_sidecar_id()[i]));
    lemma_member_parts(key_sidecar_id(), val, sep);
    lemma_parse_opt_enc(o, sep);
    assert(key_sidecar_id() != key_id());
    assert(key_sidecar_id() != key_user_id());
    assert(key_sidecar_id() != key_raw_id());
}

/// One optional-string member under the "image_id" key parses back and
/// records the value.
proof fn lemma_member_image_id(o: Option<Seq<char>>, sep: Seq<char>, acc: PartialImage)
    requires
        acc.image_id is None,
    ensures
        parse_member(spec_member_prefix(key_image_id()) + spec_json_opt_string(o) + sep, acc)
            == Some((PartialImage { image_id: Some(o), ..acc }, sep)),
{
    let val = spec_json_opt_string(o);
    assert(!is_ws(val[0]));
    assert(forall|i: int|
        0 <= i < key_image_id().len() ==> plain_char(#[trigger] key_image_id()[i]));
    lemma_member_parts(key_image_id(), val, sep);
    lemma_parse_opt_enc(o, sep);
    assert(key_image_id() != key_id());
    assert(key_image_id() != key_user_id());
    assert(key_image_id() != key_raw_id());
    assert(key_image_id() != key_sidecar_id());
}

/// After one member, a comma hands the remaining members on with one less
/// of the budget.
proof fn lemma_members_comma(s: Seq<char>, acc: PartialImage, acc2: PartialImage, nxt: Seq<char>, n: nat)
    requires
        parse_member(s, acc) == Some((acc2, seq![','] + nxt)),
        nxt.len() > 0,
        !is_ws(nxt[0]),
        n > 0,
    ensures
        parse_members(s, acc, n) == parse_members(nxt, acc2, (n - 1) as nat),
{
    let r = seq![','] + nxt;
    assert(r[0] == ',');
    assert(!is_ws(','));
    lemma_skip_ws_fixed(r);
    assert(r.drop_first() =~= nxt);
    lemma_skip_ws_fixed(nxt);
}

/// Decoding inverts encoding: the JSON the encoder produces for any image
/// record whose identifiers fit the wire's 32-bit fields decodes back to
/// the same record.
#[verifier::rlimit(100)]
#[verifier::spinoff_prover]
pub proof fn lemma_image_round_trip(m: ImageModel)
    requires
        image_model_fits(m),
    ensures
        spec_decode_image(spec_encode_image(m)) == Some(m),
{
    let enc = spec_encode_image(m);
    let v1 = spec_idec(m.id);
    let v2 = spec_json_opt_string(m.raw_id);
    let v3 = spec_json_opt_string(m.sidecar_id);
    let v4 = spec_json_opt_string(m.image_id);
    let v5 = spec_idec(m.user_id);
    let m5 = spec_member_prefix(key_user_id()) + v5 + seq!['}'];
    let m4 = spec_member_prefix(key_image_id()) + v4 + (seq![','] + m5);
    let m3 = spec_member_prefix(key_sidecar_id()) + v3 + (seq![','] + m4);
    let m2 = spec_member_prefix(key_raw_id()) + v2 + (seq![','] + m3);
    let m1 = spec_member_prefix(key_id()) + v1 + (seq![','] + m2);
    assert(enc =~= seq!['{'] + m1);

    // The object opens at once: no leading whitespace, then the first key.
    assert(enc[0] == '{');
    assert(!is_ws('{'));
    lemma_skip_ws_fixed(enc);
    assert(enc.drop_first() =~= m1);
    assert(m1[0] == '"');
    lemma_skip_ws_fixed(m1);
    assert(m1[0] != '}');

    let a0 = empty_partial();
    let a1 = PartialImage { id: Some(m.id), ..a0 };
    let a2 = PartialImage { raw_id: Some(m.raw_id), ..a1 };
    let a3 = PartialImage { sidecar_id: Some(m.sidecar_id), ..a2 };
    let a4 = PartialImage { image_id: Some(m.image_id), ..a3 };
    let a5 = PartialImage { user_id: Some(m.user_id), ..a4 };

    lemma_member_id(m.id, seq![','] + m2, a0);
    assert(m2[0] == '"');
    lemma_members_comma(m1, a0, a1, m2, 4);

    lemma_member_raw_id(m.raw_id, seq![','] + m3, a1);
    assert(m3[0] == '"');
    lemma_members_comma(m2, a1, a2, m3, 3);

    lemma_member_sidecar_id(m.sidecar_id, seq![','] + m4, a2);
    assert(m4[0] == '"');
    lemma_members_comma(m3, a2, a3, m4, 2);

    lemma_member_image_id(m.image_id, seq![','] + m5, a3);
    assert(m5[0] == '"');
    lemma_members_comma(m4, a3, a4, m5, 1);

    lemma_member_user_id(m.user_id, seq!['}'], a4);
    assert(!is_ws('}'));
    lemma_skip_ws_fixed(seq!['}']);
    assert(seq!['}'].drop_first() =~= Seq::<char>::empty());
    assert(parse_members(m5, a4, 0) == Some((a5, Seq::<char>::empty())));

    // Assemble: the object parse succeeds with nothing left over, and the
    // collected fields are exactly the record's.
    assert(parse_image_obj(enc) == Some((a5, Seq::<char>::empty())));
    assert(skip_ws(Seq::<char>::empty()).len() == 0);
    assert(finish_image(a5) == Some(m));
}

} // verus!
