//! The exec JSON decoder: reads a response body and returns an image record
//! exactly when the spec parsing functions say one is there.

use vstd::prelude::*;

use crate::json::{
    digits_end, empty_partial, hex4_ok, hex4_val, hex_val, is_hex_digit, key_id, key_image_id,
    key_raw_id, key_sidecar_id, key_user_id, lemma_digits_end_digits, parse_int_i32,
    parse_member, parse_members, parse_null_or_string, parse_string, parse_string_body,
    simple_unescape, skip_ws, spec_decode_image, PartialImage,
};
use crate::num::{
    digit_val, is_digit, lemma_digits_val_bounds, lemma_digits_val_lower, lemma_pow10_mono, pow10,
    spec_digits_val,
};
use crate::shims::{char_from_code, chars_to_string};
use crate::types::{opt_str_view, Image};

verus! {

/// Moves past leading whitespace; afterwards the rest of the input is the
/// spec's `skip_ws` of the rest at entry.
fn skip_ws_x(s: &str, i: usize, n: usize) -> (j: usize)
    requires
        i <= n,
        n == s@.len(),
    ensures
        i <= j <= n,
        s@.skip(j as int) == skip_ws(s@.skip(i as int)),
    decreases n - i,
{
    if i < n {
        let c = s.get_char(i);
        if c == ' ' || c == '\t' || c == '\n' || c == '\r' {
            proof {
                assert(s@.skip(i as int)[0] == c);
                assert(s@.skip(i as int).drop_first() =~= s@.skip(i as int + 1));
            }
            return skip_ws_x(s, i + 1, n);
        }
        proof {
            assert(s@.skip(i as int)[0] == c);
        }
    }
    i
}

/// Finds the end of the digit run starting at the given position.
fn digits_end_x(s: &str, i: usize, n: usize) -> (k: usize)
    requires
        i <= n,
        n == s@.len(),
    ensures
        i <= k <= n,
        digits_end(s@.skip(i as int)) == (k - i) as nat,
    decreases n - i,
{
    if i < n {
        let c = s.get_char(i);
        let u = c as u32;
        if 48 <= u && u <= 57 {
            proof {
                assert(s@.skip(i as int)[0] == c);
                assert(is_digit(c));
                assert(s@.skip(i as int).drop_first() =~= s@.skip(i as int + 1));
            }
            return digits_end_x(s, i + 1, n);
        }
        proof {
            assert(s@.skip(i as int)[0] == c);
            assert(!is_digit(c));
        }
    }
    i
}

/// Reads a JSON integer that fits an `i32` from the given position.
fn parse_i32_x(s: &str, i: usize, n: usize) -> (r: Option<(i32, usize)>)
    requires
        i <= n,
        n == s@.len(),
    ensures
        r matches Some((v, j)) ==> i <= j <= n && parse_int_i32(s@.skip(i as int)) == Some(
            (v as int, s@.skip(j as int)),
        ),
        r is None ==> parse_int_i32(s@.skip(i as int)) is None,
{
    let ghost s0 = s@.skip(i as int);
    let mut j = i;
    let mut neg = false;
    if i < n {
        let c = s.get_char(i);
        if c == '-' {
            neg = true;
            j = i + 1;
        }
        proof {
            assert(s0[0] == c);
        }
    }
    let ghost t = if neg { s0.drop_first() } else { s0 };
    proof {
        assert(t =~= s@.skip(j as int));
    }
    let k = digits_end_x(s, j, n);
    proof {
        lemma_digits_end_digits(t);
    }
    if k == j {
        return None;
    }
    let c0 = s.get_char(j);
    proof {
        assert(t[0] == c0);
    }
    if c0 == '0' && k > j + 1 {
        return None;
    }
    let ghost d = t.take((k - j) as int);
    proof {
        assert(d.len() == k - j);
        assert(forall|q: int| 0 <= q < d.len() ==> is_digit(#[trigger] d[q]));
        assert(d[0] == c0);
    }
    if k - j > 10 {
        proof {
            // With no leading zero and more than ten digits, the value is at
            // least 10^10, beyond any 32-bit value, so the spec refuses it.
            assert(d[0] != '0');
            lemma_digits_val_lower(d);
            lemma_pow10_mono(10, (d.len() - 1) as nat);
            reveal_with_fuel(pow10, 11);
            assert(pow10(10) == 10000000000int);
            assert(spec_digits_val(d) >= 10000000000int);
        }
        return None;
    }
    let mut acc: u64 = 0;
    let mut m = j;
    while m < k
        invariant
            j <= m <= k <= n,
            n == s@.len(),
            k - j <= 10,
            t =~= s@.skip(j as int),
            digits_end(t) == (k - j) as nat,
            forall|q: int| 0 <= q < digits_end(t) ==> is_digit(#[trigger] t[q]),
            acc == spec_digits_val(s@.subrange(j as int, m as int)),
            acc < pow10((m - j) as nat),
        decreases k - m,
    {
        let c = s.get_char(m);
        let u = c as u32;
        proof {
            assert(t[m - j] == s@[m as int]);
            assert(is_digit(c));
        }
        let dv = u - 48;
        proof {
            assert(dv as int == digit_val(c));
            lemma_pow10_mono((m - j) as nat, 9);
            reveal_with_fuel(pow10, 11);
            assert(acc < 1000000000u64);
        }
        acc = acc * 10 + (dv as u64);
        proof {
            assert(s@.subrange(j as int, m as int + 1).drop_last() =~= s@.subrange(
                j as int,
                m as int,
            ));
            assert(s@.subrange(j as int, m as int + 1).last() == s@[m as int]);
            assert(pow10((m + 1 - j) as nat) == 10 * pow10((m - j) as nat));
        }
        m = m + 1;
    }
    proof {
        assert(d =~= s@.subrange(j as int, k as int));
        assert(acc == spec_digits_val(d));
        lemma_digits_val_bounds(d);
        assert(t.skip((k - j) as int) =~= s@.skip(k as int));
    }
    if neg {
        if acc > 2147483648u64 {
            return None;
        }
        let vi: i64 = -(acc as i64);
        let v: i32 = vi as i32;
        return Some((v, k));
    } else {
        if acc > 2147483647u64 {
            return None;
        }
        return Some((acc as i32, k));
    }
}

/// The value of one hexadecimal digit character, if it is one.
fn hex_val_x(c: char) -> (r: Option<u32>)
    ensures
        r is Some <==> is_hex_digit(c),
        r matches Some(v) ==> v as int == hex_val(c) && v < 16,
{
    let u = c as u32;
    if 48 <= u && u <= 57 {
        Some(u - 48)
    } else if 97 <= u && u <= 102 {
        Some(u - 97 + 10)
    } else if 65 <= u && u <= 70 {
        Some(u - 65 + 10)
    } else {
        proof {
            assert(!is_digit(c));
            assert(!('a' <= c && c <= 'f'));
            assert(!('A' <= c && c <= 'F'));
        }
        None
    }
}

/// The character a two-character escape names, if the second character of
/// the escape names one.
fn simple_unescape_x(e: char) -> (r: Option<char>)
    ensures
        r == simple_unescape(e),
{
    match e {
        '"' => Some('"'),
        '\\' => Some('\\'),
        '/' => Some('/'),
        'b' => Some('\u{0008}'),
        'f' => Some('\u{000C}'),
        'n' => Some('\n'),
        'r' => Some('\r'),
        't' => Some('\t'),
        _ => None,
    }
}

/// Reads a JSON string literal from the given position.
fn parse_string_x(s: &str, i: usize, n: usize) -> (r: Option<(Vec<char>, usize)>)
    requires
        i <= n,
        n == s@.len(),
    ensures
        r matches Some((v, j)) ==> i <= j <= n && parse_string(s@.skip(i as int)) == Some(
            (v@, s@.skip(j as int)),
        ),
        r is None ==> parse_string(s@.skip(i as int)) is None,
{
    if !(i < n) {
        return None;
    }
    let q = s.get_char(i);
    proof {
        assert(s@.skip(i as int)[0] == q);
    }
    if q != '"' {
        return None;
    }
    proof {
        assert(s@.skip(i as int).drop_first() =~= s@.skip(i as int + 1));
    }
    let mut acc: Vec<char> = Vec::new();
    let mut cur = i + 1;
    loop
        invariant
            i + 1 <= cur <= n,
            n == s@.len(),
            parse_string(s@.skip(i as int)) == parse_string_body(s@.skip(i as int + 1)),
            parse_string_body(s@.skip(cur as int)) matches Some(p) ==> parse_string_body(
                s@.skip(i as int + 1),
            ) == Some((acc@ + p.0, p.1)),
            parse_string_body(s@.skip(cur as int)) is None ==> parse_string_body(
                s@.skip(i as int + 1),
            ) is None,
        decreases n - cur,
    {
        if !(cur < n) {
            proof {
                assert(s@.skip(cur as int).len() == 0);
            }
            return None;
        }
        let c = s.get_char(cur);
        let ghost rem = s@.skip(cur as int);
        proof {
            assert(rem[0] == c);
        }
        if c == '"' {
            proof {
                assert(parse_string_body(rem) == Some(
                    (Seq::<char>::empty(), rem.drop_first()),
                ));
                assert(acc@ + Seq::<char>::empty() =~= acc@);
                assert(rem.drop_first() =~= s@.skip(cur as int + 1));
            }
            return Some((acc, cur + 1));
        } else if c == '\\' {
            if n - cur < 2 {
                proof {
                    assert(rem.len() < 2);
                }
                return None;
            }
            let e = s.get_char(cur + 1);
            proof {
                assert(rem[1] == e);
            }
            if e == 'u' {
                if n - cur < 6 {
                    proof {
                        assert(rem.skip(2).len() < 4);
                        assert(!hex4_ok(rem.skip(2)));
                    }
                    return None;
                }
                proof {
                    assert(rem.skip(2)[0] == s@[cur as int + 2]);
                    assert(rem.skip(2)[1] == s@[cur as int + 3]);
                    assert(rem.skip(2)[2] == s@[cur as int + 4]);
                    assert(rem.skip(2)[3] == s@[cur as int + 5]);
                }
                let h0 = match hex_val_x(s.get_char(cur + 2)) {
                    Some(h) => h,
                    None => {
                        return None;
                    },
                };
                let h1 = match hex_val_x(s.get_char(cur + 3)) {
                    Some(h) => h,
                    None => {
                        return None;
                    },
                };
                let h2 = match hex_val_x(s.get_char(cur + 4)) {
                    Some(h) => h,
                    None => {
                        return None;
                    },
                };
                let h3 = match hex_val_x(s.get_char(cur + 5)) {
                    Some(h) => h,
                    None => {
                        return None;
                    },
                };
                let v = h0 * 4096 + h1 * 256 + h2 * 16 + h3;
                proof {
                    assert(hex4_ok(rem.skip(2)));
                    assert(v as int == hex4_val(rem.skip(2)));
                    assert(v < 65536);
                }
                if 0xD800 <= v && v < 0xE000 {
                    return None;
                }
                let c2 = char_from_code(v).unwrap();
                proof {
                    vstd::utf8::char_u32_cast(c2, v);
                    assert(rem.skip(6) =~= s@.skip(cur as int + 6));
                }
                let ghost a0 = acc@;
                acc.push(c2);
                proof {
                    assert(acc@ =~= a0 + seq![c2]);
                    let inner = parse_string_body(s@.skip(cur as int + 6));
                    if inner is Some {
                        let pr = inner->0;
                        let tl = pr.0;
                        let rest = pr.1;
                        assert(parse_string_body(rem) == Some((seq![c2] + tl, rest)));
                        assert(a0 + (seq![c2] + tl) =~= (a0 + seq![c2]) + tl);
                    } else {
                        assert(parse_string_body(rem) is None);
                    }
                }
                cur = cur + 6;
            } else {
                match simple_unescape_x(e) {
                    Some(c2) => {
                        let ghost a0 = acc@;
                        acc.push(c2);
                        proof {
                            assert(acc@ =~= a0 + seq![c2]);
                            assert(rem.skip(2) =~= s@.skip(cur as int + 2));
                            let inner = parse_string_body(s@.skip(cur as int + 2));
                            if inner is Some {
                                let pr = inner->0;
                                let tl = pr.0;
                                let rest = pr.1;
                                assert(parse_string_body(rem) == Some((seq![c2] + tl, rest)));
                                assert(a0 + (seq![c2] + tl) =~= (a0 + seq![c2]) + tl);
                            } else {
                                assert(parse_string_body(rem) is None);
                            }
                        }
                        cur = cur + 2;
                    },
                    None => {
                        return None;
                    },
                }
            }
        } else {
            let code = c as u32;
            if code < 32 {
                return None;
            }
            let ghost a0 = acc@;
            acc.push(c);
            proof {
                assert(acc@ =~= a0 + seq![c]);
                assert(rem.drop_first() =~= s@.skip(cur as int + 1));
                let inner = parse_string_body(s@.skip(cur as int + 1));
                if inner is Some {
                    let pr = inner->0;
                    let tl = pr.0;
                    let rest = pr.1;
                    assert(parse_string_body(rem) == Some((seq![c] + tl, rest)));
                    assert(a0 + (seq![c] + tl) =~= (a0 + seq![c]) + tl);
                } else {
                    assert(parse_string_body(rem) is None);
                }
            }
            cur = cur + 1;
        }
    }
}

/// The view of an optional vector of characters.
pub open spec fn opt_chars_view(o: Option<Vec<char>>) -> Option<Seq<char>> {
    match o {
        Some(v) => Some(v@),
        None => None,
    }
}

/// Reads `null` or a JSON string literal from the given position.
fn parse_null_or_string_x(s: &str, i: usize, n: usize) -> (r: Option<(Option<Vec<char>>, usize)>)
    requires
        i <= n,
        n == s@.len(),
    ensures
        r matches Some((v, j)) ==> i <= j <= n && parse_null_or_string(s@.skip(i as int)) == Some(
            (opt_chars_view(v), s@.skip(j as int)),
        ),
        r is None ==> parse_null_or_string(s@.skip(i as int)) is None,
{
    let ghost s0 = s@.skip(i as int);
    if !(i < n) {
        return None;
    }
    let c = s.get_char(i);
    proof {
        assert(s0[0] == c);
    }
    if c == 'n' {
        if n - i >= 4 {
            let c1 = s.get_char(i + 1);
            let c2 = s.get_char(i + 2);
            let c3 = s.get_char(i + 3);
            proof {
                assert(s0[1] == c1);
                assert(s0[2] == c2);
                assert(s0[3] == c3);
            }
            if c1 == 'u' && c2 == 'l' && c3 == 'l' {
                proof {
                    assert(s0.skip(4) =~= s@.skip(i as int + 4));
                }
                return Some((None, i + 4));
            }
        }
        return None;
    }
    match parse_string_x(s, i, n) {
        Some((v, j)) => Some((Some(v), j)),
        None => None,
    }
}

/// The fields of an image record collected so far while reading an object.
struct PartialDecode {
    id: Option<i32>,
    raw_id: Option<Option<String>>,
    sidecar_id: Option<Option<String>>,
    image_id: Option<Option<String>>,
    user_id: Option<i32>,
}

spec fn pd_view(p: PartialDecode) -> PartialImage {
    PartialImage {
        id: match p.id {
            Some(v) => Some(v as int),
            None => None,
        },
        raw_id: match p.raw_id {
            Some(v) => Some(opt_str_view(v)),
            None => None,
        },
        sidecar_id: match p.sidecar_id {
            Some(v) => Some(opt_str_view(v)),
            None => None,
        },
        image_id: match p.image_id {
            Some(v) => Some(opt_str_view(v)),
            None => None,
        },
        user_id: match p.user_id {
            Some(v) => Some(v as int),
            None => None,
        },
    }
}

/// Whether a parsed key equals a known member name.
fn key_is(kv: &Vec<char>, k: &str) -> (r: bool)
    ensures
        r == (kv@ == k@),
{
    let kn = k.unicode_len();
    if kv.len() != kn {
        proof {
            if kv@ == k@ {
                assert(kv@.len() == k@.len());
            }
        }
        return false;
    }
    let mut i: usize = 0;
    while i < kn
        invariant
            i <= kn,
            kn == k@.len(),
            kn == kv@.len(),
            forall|q: int| 0 <= q < i ==> kv@[q] == k@[q],
        decreases kn - i,
    {
        let a = kv[i];
        let b = k.get_char(i);
        if a != b {
            proof {
                if kv@ == k@ {
                    assert(kv@[i as int] == k@[i as int]);
                }
            }
            return false;
        }
        i = i + 1;
    }
    proof {
        assert(kv@ =~= k@);
    }
    true
}

/// Reads one `"key": value` member from the given position and records it.
fn parse_member_x(s: &str, i: usize, n: usize, acc: PartialDecode) -> (r: Option<
    (PartialDecode, usize),
>)
    requires
        i <= n,
        n == s@.len(),
    ensures
        r matches Some((a2, j)) ==> i <= j <= n && parse_member(s@.skip(i as int), pd_view(acc))
            == Some((pd_view(a2), s@.skip(j as int))),
        r is None ==> parse_member(s@.skip(i as int), pd_view(acc)) is None,
{
    let (kv, j1) = match parse_string_x(s, i, n) {
        Some(p) => p,
        None => {
            return None;
        },
    };
    let j2 = skip_ws_x(s, j1, n);
    if !(j2 < n) {
        return None;
    }
    let cc = s.get_char(j2);
    proof {
        assert(s@.skip(j2 as int)[0] == cc);
    }
    if cc != ':' {
        return None;
    }
    proof {
        assert(s@.skip(j2 as int).drop_first() =~= s@.skip(j2 as int + 1));
    }
    let j3 = skip_ws_x(s, j2 + 1, n);
    if key_is(&kv, "id") {
        proof {
            reveal_strlit("id");
            assert("id"@ =~= key_id());
        }
        if acc.id.is_some() {
            return None;
        }
        match parse_i32_x(s, j3, n) {
            Some((v, j4)) => {
                let a2 = PartialDecode { id: Some(v), ..acc };
                return Some((a2, j4));
            },
            None => {
                return None;
            },
        }
    } else if key_is(&kv, "user_id") {
        proof {
            reveal_strlit("id");
            reveal_strlit("user_id");
            assert("id"@ =~= key_id());
            assert("user_id"@ =~= key_user_id());
        }
        if acc.user_id.is_some() {
            return None;
        }
        match parse_i32_x(s, j3, n) {
            Some((v, j4)) => {
                let a2 = PartialDecode { user_id: Some(v), ..acc };
                return Some((a2, j4));
            },
            None => {
                return None;
            },
        }
    } else if key_is(&kv, "raw_id") {
        proof {
            reveal_strlit("id");
            reveal_strlit("user_id");
            reveal_strlit("raw_id");
            assert("id"@ =~= key_id());
            assert("user_id"@ =~= key_user_id());
            assert("raw_id"@ =~= key_raw_id());
        }
        if acc.raw_id.is_some() {
            return None;
        }
        match parse_null_or_string_x(s, j3, n) {
            Some((v, j4)) => {
                let vs = match v {
                    Some(cs) => Some(chars_to_string(&cs)),
                    None => None,
                };
                let a2 = PartialDecode { raw_id: Some(vs), ..acc };
                return Some((a2, j4));
            },
            None => {
                return None;
            },
        }
    } else if key_is(&kv, "sidecar_id") {
        proof {
            reveal_strlit("id");
            reveal_strlit("user_id");
            reveal_strlit("raw_id");
            reveal_strlit("sidecar_id");
            assert("id"@ =~= key_id());
            assert("user_id"@ =~= key_user_id());
            assert("raw_id"@ =~= key_raw_id());
            assert("sidecar_id"@ =~= key_sidecar_id());
        }
        if acc.sidecar_id.is_some() {
            return None;
        }
        match parse_null_or_string_x(s, j3, n) {
            Some((v, j4)) => {
                let vs = match v {
                    Some(cs) => Some(chars_to_string(&cs)),
                    None => None,
                };
                let a2 = PartialDecode { sidecar_id: Some(vs), ..acc };
                return Some((a2, j4));
            },
            None => {
                return None;
            },
        }
    } else if key_is(&kv, "image_id") {
        proof {
            reveal_strlit("id");
            reveal_strlit("user_id");
            reveal_strlit("raw_id");
            reveal_strlit("sidecar_id");
            reveal_strlit("image_id");
            assert("id"@ =~= key_id());
            assert("user_id"@ =~= key_user_id());
            assert("raw_id"@ =~= key_raw_id());
            assert("sidecar_id"@ =~= key_sidecar_id());
            assert("image_id"@ =~= key_image_id());
        }
        if acc.image_id.is_some() {
            return None;
        }
        match parse_null_or_string_x(s, j3, n) {
            Some((v, j4)) => {
                let vs = match v {
                    Some(cs) => Some(chars_to_string(&cs)),
                    None => None,
                };
                let a2 = PartialDecode { image_id: Some(vs), ..acc };
                return Some((a2, j4));
            },
            None => {
                return None;
            },
        }
    } else {
        proof {
            reveal_strlit("id");
            reveal_strlit("user_id");
            reveal_strlit("raw_id");
            reveal_strlit("sidecar_id");
            reveal_strlit("image_id");
            assert("id"@ =~= key_id());
            assert("user_id"@ =~= key_user_id());
            assert("raw_id"@ =~= key_raw_id());
            assert("sidecar_id"@ =~= key_sidecar_id());
            assert("image_id"@ =~= key_image_id());
        }
        return None;
    }
}

/// Reads the members of an image object, from the first key through the
/// closing brace.
fn parse_members_x(s: &str, i: usize, n: usize) -> (r: Option<(PartialDecode, usize)>)
    requires
        i <= n,
        n == s@.len(),
    ensures
        r matches Some((p, j)) ==> j <= n && parse_members(s@.skip(i as int), empty_partial(), 4)
            == Some((pd_view(p), s@.skip(j as int))),
        r is None ==> parse_members(s@.skip(i as int), empty_partial(), 4) is None,
{
    let mut acc = PartialDecode {
        id: None,
        raw_id: None,
        sidecar_id: None,
        image_id: None,
        user_id: None,
    };
    proof {
        assert(pd_view(acc) == empty_partial());
    }
    let mut cur = i;
    let mut budget: usize = 4;
    loop
        invariant
            cur <= n,
            n == s@.len(),
            budget <= 4,
            parse_members(s@.skip(cur as int), pd_view(acc), budget as nat) matches Some(q)
                ==> parse_members(s@.skip(i as int), empty_partial(), 4) == Some(q),
            parse_members(s@.skip(cur as int), pd_view(acc), budget as nat) is None
                ==> parse_members(s@.skip(i as int), empty_partial(), 4) is None,
        decreases budget,
    {
        let ghost accv = pd_view(acc);
        let ghost b0 = budget as nat;
        match parse_member_x(s, cur, n, acc) {
            None => {
                return None;
            },
            Some((a2, j)) => {
                let j2 = skip_ws_x(s, j, n);
                if j2 < n {
                    let c = s.get_char(j2);
                    proof {
                        assert(s@.skip(j2 as int)[0] == c);
                    }
                    if c == ',' {
                        if budget == 0 {
                            return None;
                        }
                        proof {
                            assert(s@.skip(j2 as int).drop_first() =~= s@.skip(j2 as int + 1));
                        }
                        let nx = skip_ws_x(s, j2 + 1, n);
                        acc = a2;
                        cur = nx;
                        budget = budget - 1;
                    } else if c == '}' {
                        proof {
                            assert(s@.skip(j2 as int).drop_first() =~= s@.skip(j2 as int + 1));
                        }
                        return Some((a2, j2 + 1));
                    } else {
                        return None;
                    }
                } else {
                    proof {
                        assert(s@.skip(j2 as int).len() == 0);
                    }
                    return None;
                }
            },
        }
    }
}

/// Decodes a response body into an image record, returning one exactly when
/// the body is a well-formed image object per `spec_decode_image`.
pub fn decode_image(s: &str) -> (r: Option<Image>)
    ensures
        r matches Some(img) ==> spec_decode_image(s@) == Some(img@),
        r is None ==> spec_decode_image(s@) is None,
{
    let n = s.unicode_len();
    proof {
        assert(s@.skip(0) =~= s@);
    }
    let i0 = skip_ws_x(s, 0, n);
    if !(i0 < n) {
        return None;
    }
    let c0 = s.get_char(i0);
    proof {
        assert(s@.skip(i0 as int)[0] == c0);
    }
    if c0 != '{' {
        return None;
    }
    proof {
        assert(s@.skip(i0 as int).drop_first() =~= s@.skip(i0 as int + 1));
    }
    let i1 = skip_ws_x(s, i0 + 1, n);
    let p: PartialDecode;
    let endpos: usize;
    if i1 < n && s.get_char(i1) == '}' {
        proof {
            assert(s@.skip(i1 as int)[0] == s@[i1 as int]);
            assert(s@.skip(i1 as int).drop_first() =~= s@.skip(i1 as int + 1));
        }
        p = PartialDecode {
            id: None,
            raw_id: None,
            sidecar_id: None,
            image_id: None,
            user_id: None,
        };
        proof {
            assert(pd_view(p) == empty_partial());
        }
        endpos = i1 + 1;
    } else {
        proof {
            if i1 < n {
                assert(s@.skip(i1 as int)[0] == s@[i1 as int]);
            }
        }
        match parse_members_x(s, i1, n) {
            Some((q, j)) => {
                p = q;
                endpos = j;
            },
            None => {
                return None;
            },
        }
    }
    let jf = skip_ws_x(s, endpos, n);
    if jf < n {
        proof {
            assert(s@.skip(jf as int).len() > 0);
        }
        return None;
    }
    proof {
        assert(s@.skip(jf as int).len() == 0);
    }
    let id = match p.id {
        Some(v) => v,
        None => {
            return None;
        },
    };
    let user_id = match p.user_id {
        Some(v) => v,
        None => {
            return None;
        },
    };
    let raw_id = match p.raw_id {
        Some(v) => v,
        None => None,
    };
    let sidecar_id = match p.sidecar_id {
        Some(v) => v,
        None => None,
    };
    let image_id = match p.image_id {
        Some(v) => v,
        None => None,
    };
    let img = Image { id, raw_id, sidecar_id, image_id, user_id };
    Some(img)
}

} // verus!
