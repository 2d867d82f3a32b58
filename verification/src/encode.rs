//! The exec JSON encoder: builds, character by character, exactly the
//! sequence that the spec encoding functions describe.

use vstd::prelude::*;

use crate::json::{
    key_id, key_image_id, key_raw_id, key_sidecar_id, key_user_id, lemma_escape_concat,
    spec_encode_image, spec_encode_new, spec_escape, spec_escape_char, spec_hex_char,
    spec_json_opt_string, spec_json_string, spec_member_prefix,
};
use crate::num::push_i32_dec;
use crate::shims::chars_to_string;
use crate::types::{opt_str_view, Image, NewImageData};

verus! {

/// The exec counterpart of `spec_hex_char`.
fn hex_char(d: u32) -> (c: char)
    requires
        d < 16,
    ensures
        c == spec_hex_char(d as int),
{
    match d {
        0 => '0',
        1 => '1',
        2 => '2',
        3 => '3',
        4 => '4',
        5 => '5',
        6 => '6',
        7 => '7',
        8 => '8',
        9 => '9',
        10 => 'a',
        11 => 'b',
        12 => 'c',
        13 => 'd',
        14 => 'e',
        _ => 'f',
    }
}

/// Appends one character in its JSON string-literal form.
fn push_escaped_char(buf: &mut Vec<char>, c: char)
    ensures
        final(buf)@ == old(buf)@ + spec_escape_char(c),
{
    if c == '"' {
        buf.push('\\');
        buf.push('"');
        assert(buf@ =~= old(buf)@ + spec_escape_char(c));
    } else if c == '\\' {
        buf.push('\\');
        buf.push('\\');
        assert(buf@ =~= old(buf)@ + spec_escape_char(c));
    } else {
        let code = c as u32;
        if code < 32 {
            buf.push('\\');
            buf.push('u');
            buf.push('0');
            buf.push('0');
            let h = hex_char(code / 16);
            buf.push(h);
            let l = hex_char(code % 16);
            buf.push(l);
            assert(buf@ =~= old(buf)@ + spec_escape_char(c));
        } else {
            buf.push(c);
            assert(buf@ =~= old(buf)@ + spec_escape_char(c));
        }
    }
}

/// Appends the characters of a string unchanged.
fn push_chars(buf: &mut Vec<char>, s: &str)
    ensures
        final(buf)@ == old(buf)@ + s@,
{
    let n = s.unicode_len();
    let mut i: usize = 0;
    while i < n
        invariant
            n == s@.len(),
            i <= n,
            buf@ == old(buf)@ + s@.take(i as int),
        decreases n - i,
    {
        let c = s.get_char(i);
        buf.push(c);
        proof {
            assert(s@.take(i as int + 1) =~= s@.take(i as int) + seq![c]);
            assert(buf@ =~= old(buf)@ + s@.take(i as int + 1));
        }
        i = i + 1;
    }
    proof {
        assert(s@.take(n as int) =~= s@);
    }
}

/// Appends the escaped form of every character of a string.
fn push_escaped(buf: &mut Vec<char>, s: &str)
    ensures
        final(buf)@ == old(buf)@ + spec_escape(s@),
{
    let n = s.unicode_len();
    let mut i: usize = 0;
    while i < n
        invariant
            n == s@.len(),
            i <= n,
            buf@ == old(buf)@ + spec_escape(s@.take(i as int)),
        decreases n - i,
    {
        let c = s.get_char(i);
        push_escaped_char(buf, c);
        proof {
            lemma_escape_concat(s@.take(i as int), seq![c]);
            assert(s@.take(i as int + 1) =~= s@.take(i as int) + seq![c]);
            assert(seq![c].drop_first() =~= Seq::<char>::empty());
            assert(spec_escape(Seq::<char>::empty()) == Seq::<char>::empty());
            assert(spec_escape(seq![c]) =~= spec_escape_char(c));
            assert(buf@ =~= old(buf)@ + spec_escape(s@.take(i as int + 1)));
        }
        i = i + 1;
    }
    proof {
        assert(s@.take(n as int) =~= s@);
    }
}

/// Appends a whole JSON string literal, quotes included.
fn push_json_string(buf: &mut Vec<char>, s: &str)
    ensures
        final(buf)@ == old(buf)@ + spec_json_string(s@),
{
    buf.push('"');
    push_escaped(buf, s);
    buf.push('"');
    assert(buf@ =~= old(buf)@ + spec_json_string(s@));
}

/// Appends an optional string as a JSON value: `null` when absent.
fn push_json_opt_string(buf: &mut Vec<char>, o: &Option<String>)
    ensures
        final(buf)@ == old(buf)@ + spec_json_opt_string(opt_str_view(*o)),
{
    match o {
        None => {
            buf.push('n');
            buf.push('u');
            buf.push('l');
            buf.push('l');
            assert(buf@ =~= old(buf)@ + spec_json_opt_string(opt_str_view(*o)));
        },
        Some(s) => {
            push_json_string(buf, s.as_str());
        },
    }
}

/// Appends a quoted member key and its colon.
fn push_key(buf: &mut Vec<char>, k: &str)
    ensures
        final(buf)@ == old(buf)@ + spec_member_prefix(k@),
{
    buf.push('"');
    push_chars(buf, k);
    buf.push('"');
    buf.push(':');
    assert(buf@ =~= old(buf)@ + spec_member_prefix(k@));
}

/// Encodes a full image record as its JSON wire form.
pub fn encode_image(img: &Image) -> (r: String)
    ensures
        r@ == spec_encode_image(img@),
{
    let mut buf: Vec<char> = Vec::new();
    buf.push('{');
    push_key(&mut buf, "id");
    push_i32_dec(&mut buf, img.id);
    buf.push(',');
    push_key(&mut buf, "raw_id");
    push_json_opt_string(&mut buf, &img.raw_id);
    buf.push(',');
    push_key(&mut buf, "sidecar_id");
    push_json_opt_string(&mut buf, &img.sidecar_id);
    buf.push(',');
    push_key(&mut buf, "image_id");
    push_json_opt_string(&mut buf, &img.image_id);
    buf.push(',');
    push_key(&mut buf, "user_id");
    push_i32_dec(&mut buf, img.user_id);
    buf.push('}');
    proof {
        reveal_strlit("id");
        reveal_strlit("raw_id");
        reveal_strlit("sidecar_id");
        reveal_strlit("image_id");
        reveal_strlit("user_id");
        assert("id"@ =~= key_id());
        assert("raw_id"@ =~= key_raw_id());
        assert("sidecar_id"@ =~= key_sidecar_id());
        assert("image_id"@ =~= key_image_id());
        assert("user_id"@ =~= key_user_id());
        assert(buf@ =~= spec_encode_image(img@));
    }
    chars_to_string(&buf)
}

/// Encodes a creation payload as its JSON wire form.
pub fn encode_new_image(data: &NewImageData) -> (r: String)
    ensures
        r@ == spec_encode_new(data@),
{
    let mut buf: Vec<char> = Vec::new();
    buf.push('{');
    push_key(&mut buf, "raw_id");
    push_json_opt_string(&mut buf, &data.raw_id);
    buf.push(',');
    push_key(&mut buf, "sidecar_id");
    push_json_opt_string(&mut buf, &data.sidecar_id);
    buf.push(',');
    push_key(&mut buf, "image_id");
    push_json_opt_string(&mut buf, &data.image_id);
    buf.push(',');
    push_key(&mut buf, "user_id");
    push_i32_dec(&mut buf, data.user_id);
    buf.push('}');
    proof {
        reveal_strlit("raw_id");
        reveal_strlit("sidecar_id");
        reveal_strlit("image_id");
        reveal_strlit("user_id");
        assert("raw_id"@ =~= key_raw_id());
        assert("sidecar_id"@ =~= key_sidecar_id());
        assert("image_id"@ =~= key_image_id());
        assert("user_id"@ =~= key_user_id());
        assert(buf@ =~= spec_encode_new(data@));
    }
    chars_to_string(&buf)
}

} // verus!
