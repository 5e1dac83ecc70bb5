//! A minimal JSON document model, a parser over raw bytes, and the escaping
//! used when the crate writes string literals into outbound request bodies.
//!
//! The wire format of the administrative endpoints is JSON, so the grammar is
//! part of this crate's own logic and is implemented here over plain bytes.

use vstd::prelude::*;

verus! {

/// One JSON value. Strings hold decoded UTF-8 bytes (escape sequences already
/// resolved); numbers keep their literal source text, since this crate only
/// ever reads unsigned integers out of them.
#[derive(Debug)]
pub enum Json {
    Null,
    Bool(bool),
    Num(Vec<u8>),
    Str(Vec<u8>),
    Arr(Vec<Json>),
    Obj(Vec<(Vec<u8>, Json)>),
}

/// The ghost mirror of a document: the same shape with mathematical
/// sequences for the containers.
pub enum JsonDoc {
    Null,
    Bool(bool),
    Num(Seq<u8>),
    Str(Seq<u8>),
    Arr(Seq<JsonDoc>),
    Obj(Seq<(Seq<u8>, JsonDoc)>),
}

/// The document a parsed value denotes.
pub open spec fn deep(j: Json) -> JsonDoc
    decreases j,
{
    match j {
        Json::Null => JsonDoc::Null,
        Json::Bool(b) => JsonDoc::Bool(b),
        Json::Num(n) => JsonDoc::Num(n@),
        Json::Str(t) => JsonDoc::Str(t@),
        Json::Arr(v) => JsonDoc::Arr(deep_list(v@)),
        Json::Obj(fs) => JsonDoc::Obj(deep_fields(fs@)),
    }
}

/// The documents a list of parsed values denotes.
pub open spec fn deep_list(l: Seq<Json>) -> Seq<JsonDoc>
    decreases l,
{
    if l.len() == 0 {
        Seq::empty()
    } else {
        deep_list(l.drop_last()).push(deep(l.last()))
    }
}

/// The members a list of parsed members denotes.
pub open spec fn deep_fields(fs: Seq<(Vec<u8>, Json)>) -> Seq<(Seq<u8>, JsonDoc)>
    decreases fs,
{
    if fs.len() == 0 {
        Seq::empty()
    } else {
        deep_fields(fs.drop_last()).push((fs.last().0@, deep(fs.last().1)))
    }
}

/// The value of the first member named `key`, if any.
pub open spec fn obj_get(fs: Seq<(Vec<u8>, Json)>, key: Seq<u8>) -> Option<Json>
    decreases fs.len(),
{
    if fs.len() == 0 {
        None
    } else if fs[0].0@ == key {
        Some(fs[0].1)
    } else {
        obj_get(fs.drop_first(), key)
    }
}

/// Looks a member up by key; the first member with that name wins.
pub fn lookup<'a>(fields: &'a Vec<(Vec<u8>, Json)>, key: &Vec<u8>) -> (r: Option<&'a Json>)
    ensures
        match r {
            Some(j) => obj_get(fields@, key@) == Some(*j),
            None => obj_get(fields@, key@) is None,
        },
{
    let mut i: usize = 0;
    proof {
        assert(fields@.skip(0) =~= fields@);
    }
    while i < fields.len()
        invariant
            i <= fields@.len(),
            obj_get(fields@, key@) == obj_get(fields@.skip(i as int), key@),
        decreases fields@.len() - i,
    {
        if &fields[i].0 == key {
            proof {
                assert(fields@.skip(i as int)[0] == fields@[i as int]);
                assert(fields@[i as int].0@ == key@);
            }
            return Some(&fields[i].1);
        }
        proof {
            assert(fields@.skip(i as int).drop_first() =~= fields@.skip(i as int + 1));
            assert(fields@.skip(i as int)[0].0@ != key@);
        }
        i = i + 1;
    }
    proof {
        assert(fields@.skip(fields@.len() as int) =~= Seq::<(Vec<u8>, Json)>::empty());
    }
    None
}

/// Like `lookup`, but yields the index of the first member named `key`.
pub fn lookup_index(fields: &Vec<(Vec<u8>, Json)>, key: &Vec<u8>) -> (r: Option<usize>)
    ensures
        match r {
            Some(i) => i < fields@.len() && fields@[i as int].0@ == key@ && obj_get(
                fields@,
                key@,
            ) == Some(fields@[i as int].1),
            None => obj_get(fields@, key@) is None,
        },
{
    let mut i: usize = 0;
    proof {
        assert(fields@.skip(0) =~= fields@);
    }
    while i < fields.len()
        invariant
            i <= fields@.len(),
            obj_get(fields@, key@) == obj_get(fields@.skip(i as int), key@),
        decreases fields@.len() - i,
    {
        if &fields[i].0 == key {
            proof {
                assert(fields@.skip(i as int)[0] == fields@[i as int]);
                assert(fields@[i as int].0@ == key@);
            }
            return Some(i);
        }
        proof {
            assert(fields@.skip(i as int).drop_first() =~= fields@.skip(i as int + 1));
            assert(fields@.skip(i as int)[0].0@ != key@);
        }
        i = i + 1;
    }
    proof {
        assert(fields@.skip(fields@.len() as int) =~= Seq::<(Vec<u8>, Json)>::empty());
    }
    None
}

/// Lower-case hexadecimal digit for a value below sixteen.
pub open spec fn hex_lower(d: u8) -> u8 {
    if d < 10 {
        (48 + d) as u8
    } else {
        (87 + d) as u8
    }
}

/// How one byte of a string is written inside a JSON string literal: quote and
/// backslash get a backslash escape, common control characters their short
/// form, other control characters the four-digit form, and everything else
/// passes through unchanged.
pub open spec fn esc_byte(b: u8) -> Seq<u8> {
    if b == 34 {
        seq![92u8, 34u8]
    } else if b == 92 {
        seq![92u8, 92u8]
    } else if b == 10 {
        seq![92u8, 110u8]
    } else if b == 13 {
        seq![92u8, 114u8]
    } else if b == 9 {
        seq![92u8, 116u8]
    } else if b < 32 {
        seq![92u8, 117u8, 48u8, 48u8, hex_lower(b / 16), hex_lower(b % 16)]
    } else {
        seq![b]
    }
}

/// The body of a JSON string literal holding exactly the bytes `s`.
pub open spec fn escape_bytes(s: Seq<u8>) -> Seq<u8>
    decreases s.len(),
{
    if s.len() == 0 {
        Seq::empty()
    } else {
        escape_bytes(s.drop_last()) + esc_byte(s.last())
    }
}

/// Appends the escaped form of `src` to `out`.
pub fn push_escaped(out: &mut Vec<u8>, src: &Vec<u8>)
    ensures
        final(out)@ == old(out)@ + escape_bytes(src@),
{
    let mut i: usize = 0;
    while i < src.len()
        invariant
            i <= src@.len(),
            out@ == old(out)@ + escape_bytes(src@.take(i as int)),
        decreases src@.len() - i,
    {
        let b = src[i];
        if b == 34 {
            out.push(92);
            out.push(34);
        } else if b == 92 {
            out.push(92);
            out.push(92);
        } else if b == 10 {
            out.push(92);
            out.push(110);
        } else if b == 13 {
            out.push(92);
            out.push(114);
        } else if b == 9 {
            out.push(92);
            out.push(116);
        } else if b < 32 {
            out.push(92);
            out.push(117);
            out.push(48);
            out.push(48);
            out.push(if b < 16 { 48 } else { 49 });
            let low = b % 16;
            out.push(if low < 10 { 48 + low } else { 87 + low });
        } else {
            out.push(b);
        }
        proof {
            let t = src@.take(i as int + 1);
            assert(t.drop_last() =~= src@.take(i as int));
            assert(t.last() == src@[i as int]);
            assert(out@ =~= old(out)@ + escape_bytes(src@.take(i as int + 1)));
        }
        i = i + 1;
    }
    proof {
        assert(src@.take(src@.len() as int) =~= src@);
    }
}

/// JSON insignificant whitespace: space, tab, line feed, carriage return.
pub open spec fn is_ws(b: u8) -> bool {
    b == 32 || b == 9 || b == 10 || b == 13
}

/// End of the whitespace run that starts at `i`.
pub open spec fn sp_ws(s: Seq<u8>, i: int) -> int
    decreases s.len() - i,
{
    if 0 <= i && i < s.len() && is_ws(s[i]) {
        sp_ws(s, i + 1)
    } else {
        i
    }
}

/// The value of one hexadecimal digit.
pub open spec fn hex_val(b: u8) -> Option<u32> {
    if 48 <= b && b <= 57 {
        Some((b - 48) as u32)
    } else if 97 <= b && b <= 102 {
        Some((b - 87) as u32)
    } else if 65 <= b && b <= 70 {
        Some((b - 55) as u32)
    } else {
        None
    }
}

/// The value of four hexadecimal digits starting at `i`, when they are there.
pub open spec fn sp_hex4(s: Seq<u8>, i: int) -> Option<u32> {
    if 0 <= i && i + 4 <= s.len() {
        match (hex_val(s[i]), hex_val(s[i + 1]), hex_val(s[i + 2]), hex_val(s[i + 3])) {
            (Some(a), Some(b), Some(c), Some(d)) => Some(
                ((a as int) * 4096 + (b as int) * 256 + (c as int) * 16 + d) as u32,
            ),
            _ => None,
        }
    } else {
        None
    }
}

/// The UTF-8 encoding of a code point below 0x110000.
pub open spec fn utf8_enc(cp: u32) -> Seq<u8> {
    if cp < 0x80 {
        seq![cp as u8]
    } else if cp < 0x800 {
        seq![(192 + cp / 64) as u8, (128 + cp % 64) as u8]
    } else if cp < 0x10000 {
        seq![(224 + cp / 4096) as u8, (128 + (cp / 64) % 64) as u8, (128 + cp % 64) as u8]
    } else {
        seq![
            (240 + cp / 262144) as u8,
            (128 + (cp / 4096) % 64) as u8,
            (128 + (cp / 64) % 64) as u8,
            (128 + cp % 64) as u8,
        ]
    }
}

/// The rest of a string literal from `j` (past the opening quote), with `acc`
/// already decoded: the decoded bytes and the position past the closing
/// quote, or nothing when the literal is malformed.
pub open spec fn sp_string_body(s: Seq<u8>, j: int, acc: Seq<u8>) -> Option<(Seq<u8>, int)>
    decreases s.len() - j,
{
    if !(0 <= j && j < s.len()) {
        None
    } else {
        let b = s[j];
        if b == 34 {
            Some((acc, j + 1))
        } else if b == 92 {
            if j + 1 >= s.len() {
                None
            } else {
                let e = s[j + 1];
                if e == 34 || e == 92 || e == 47 {
                    sp_string_body(s, j + 2, acc.push(e))
                } else if e == 98 {
                    sp_string_body(s, j + 2, acc.push(8))
                } else if e == 102 {
                    sp_string_body(s, j + 2, acc.push(12))
                } else if e == 110 {
                    sp_string_body(s, j + 2, acc.push(10))
                } else if e == 114 {
                    sp_string_body(s, j + 2, acc.push(13))
                } else if e == 116 {
                    sp_string_body(s, j + 2, acc.push(9))
                } else if e == 117 {
                    match sp_hex4(s, j + 2) {
                        None => None,
                        Some(hi) => if 0xD800 <= hi && hi < 0xDC00 {
                            if s.len() - (j + 6) < 2 || s[j + 6] != 92 || s[j + 7] != 117 {
                                None
                            } else {
                                match sp_hex4(s, j + 8) {
                                    None => None,
                                    Some(lo) => if 0xDC00 <= lo && lo < 0xE000 {
                                        sp_string_body(
                                            s,
                                            j + 12,
                                            acc + utf8_enc(
                                                (0x10000 + (hi - 0xD800) * 0x400 + (lo
                                                    - 0xDC00)) as u32,
                                            ),
                                        )
                                    } else {
                                        None
                                    },
                                }
                            }
                        } else if 0xDC00 <= hi && hi < 0xE000 {
                            None
                        } else {
                            sp_string_body(s, j + 6, acc + utf8_enc(hi))
                        },
                    }
                } else {
                    None
                }
            }
        } else if b < 32 {
            None
        } else {
            sp_string_body(s, j + 1, acc.push(b))
        }
    }
}

/// A whole string literal whose opening quote stands at `i`.
pub open spec fn sp_string(s: Seq<u8>, i: int) -> Option<(Seq<u8>, int)> {
    if 0 <= i && i < s.len() && s[i] == 34 {
        sp_string_body(s, i + 1, Seq::empty())
    } else {
        None
    }
}

/// End of the digit run that starts at `i`.
pub open spec fn sp_digits(s: Seq<u8>, i: int) -> int
    decreases s.len() - i,
{
    if 0 <= i && i < s.len() && is_digit(s[i]) {
        sp_digits(s, i + 1)
    } else {
        i
    }
}

/// End of the integer part starting at `j`: a lone zero, or a nonzero digit
/// and any further digits.
pub open spec fn sp_int_part(s: Seq<u8>, j: int) -> Option<int> {
    if !(0 <= j && j < s.len()) {
        None
    } else if s[j] == 48 {
        Some(j + 1)
    } else if 49 <= s[j] && s[j] <= 57 {
        Some(sp_digits(s, j + 1))
    } else {
        None
    }
}

/// End after an optional fraction at `j`.
pub open spec fn sp_frac_part(s: Seq<u8>, j: int) -> Option<int> {
    if 0 <= j && j < s.len() && s[j] == 46 {
        if j + 1 < s.len() && is_digit(s[j + 1]) {
            Some(sp_digits(s, j + 1))
        } else {
            None
        }
    } else {
        Some(j)
    }
}

/// End after an optional exponent at `j`.
pub open spec fn sp_exp_part(s: Seq<u8>, j: int) -> Option<int> {
    if 0 <= j && j < s.len() && (s[j] == 101 || s[j] == 69) {
        let k = if j + 1 < s.len() && (s[j + 1] == 43 || s[j + 1] == 45) {
            j + 2
        } else {
            j + 1
        };
        if k < s.len() && is_digit(s[k]) {
            Some(sp_digits(s, k))
        } else {
            None
        }
    } else {
        Some(j)
    }
}

/// End of the number literal that starts at `i`, when it is well formed.
pub open spec fn sp_number(s: Seq<u8>, i: int) -> Option<int> {
    let j = if 0 <= i && i < s.len() && s[i] == 45 {
        i + 1
    } else {
        i
    };
    match sp_int_part(s, j) {
        None => None,
        Some(j1) => match sp_frac_part(s, j1) {
            None => None,
            Some(j2) => sp_exp_part(s, j2),
        },
    }
}

/// The document of the value whose first byte stands at `i`, and the position
/// past it. The bound checks on intermediate positions always hold of the
/// runs the other functions return; they keep the recursion well founded.
pub open spec fn sp_value(s: Seq<u8>, i: int) -> Option<(JsonDoc, int)>
    decreases s.len() - i, 0int,
{
    if !(0 <= i && i < s.len()) {
        None
    } else {
        let b = s[i];
        if b == 34 {
            match sp_string(s, i) {
                Some((t, j)) => Some((JsonDoc::Str(t), j)),
                None => None,
            }
        } else if b == 45 || is_digit(b) {
            match sp_number(s, i) {
                Some(j) => Some((JsonDoc::Num(s.subrange(i, j)), j)),
                None => None,
            }
        } else if b == 116 {
            if s.len() - i > 3 && s[i + 1] == 114 && s[i + 2] == 117 && s[i + 3] == 101 {
                Some((JsonDoc::Bool(true), i + 4))
            } else {
                None
            }
        } else if b == 102 {
            if s.len() - i > 4 && s[i + 1] == 97 && s[i + 2] == 108 && s[i + 3] == 115 && s[i
                + 4] == 101 {
                Some((JsonDoc::Bool(false), i + 5))
            } else {
                None
            }
        } else if b == 110 {
            if s.len() - i > 3 && s[i + 1] == 117 && s[i + 2] == 108 && s[i + 3] == 108 {
                Some((JsonDoc::Null, i + 4))
            } else {
                None
            }
        } else if b == 91 {
            let j = sp_ws(s, i + 1);
            if j < s.len() && s[j] == 93 {
                Some((JsonDoc::Arr(Seq::empty()), j + 1))
            } else if i < j && j <= s.len() {
                match sp_items(s, j, Seq::empty()) {
                    Some((ds, end)) => Some((JsonDoc::Arr(ds), end)),
                    None => None,
                }
            } else {
                None
            }
        } else if b == 123 {
            let j = sp_ws(s, i + 1);
            if j < s.len() && s[j] == 125 {
                Some((JsonDoc::Obj(Seq::empty()), j + 1))
            } else if i < j && j <= s.len() {
                match sp_members(s, j, Seq::empty()) {
                    Some((ms, end)) => Some((JsonDoc::Obj(ms), end)),
                    None => None,
                }
            } else {
                None
            }
        } else {
            None
        }
    }
}

/// The elements of an array from the first byte of an element at `i`, with
/// `acc` already read: the elements and the position past the bracket.
pub open spec fn sp_items(s: Seq<u8>, i: int, acc: Seq<JsonDoc>) -> Option<(Seq<JsonDoc>, int)>
    decreases s.len() - i, 1int,
{
    match sp_value(s, i) {
        None => None,
        Some((v, k)) => if !(i < k && k <= s.len()) {
            None
        } else {
            let k2 = sp_ws(s, k);
            if !(k <= k2 && k2 <= s.len()) {
                None
            } else if k2 >= s.len() {
                None
            } else if s[k2] == 93 {
                Some((acc.push(v), k2 + 1))
            } else if s[k2] != 44 {
                None
            } else {
                let k3 = sp_ws(s, k2 + 1);
                if !(k2 + 1 <= k3 && k3 <= s.len()) {
                    None
                } else {
                    sp_items(s, k3, acc.push(v))
                }
            }
        },
    }
}

/// The members of an object from the first byte of a key at `i`, with `acc`
/// already read: the members and the position past the brace.
pub open spec fn sp_members(s: Seq<u8>, i: int, acc: Seq<(Seq<u8>, JsonDoc)>) -> Option<
    (Seq<(Seq<u8>, JsonDoc)>, int),
>
    decreases s.len() - i, 1int,
{
    match sp_string(s, i) {
        None => None,
        Some((key, k)) => if !(i < k && k <= s.len()) {
            None
        } else {
            let c = sp_ws(s, k);
            if !(k <= c && c <= s.len()) {
                None
            } else if c >= s.len() || s[c] != 58 {
                None
            } else {
                let v0 = sp_ws(s, c + 1);
                if !(c + 1 <= v0 && v0 <= s.len()) {
                    None
                } else {
                    match sp_value(s, v0) {
                        None => None,
                        Some((v, k1)) => if !(v0 <= k1 && k1 <= s.len()) {
                            None
                        } else {
                            let k2 = sp_ws(s, k1);
                            if !(k1 <= k2 && k2 <= s.len()) {
                                None
                            } else if k2 >= s.len() {
                                None
                            } else if s[k2] == 125 {
                                Some((acc.push((key, v)), k2 + 1))
                            } else if s[k2] != 44 {
                                None
                            } else {
                                let k3 = sp_ws(s, k2 + 1);
                                if !(k2 + 1 <= k3 && k3 <= s.len()) {
                                    None
                                } else {
                                    sp_members(s, k3, acc.push((key, v)))
                                }
                            }
                        },
                    }
                }
            }
        },
    }
}

/// The document a whole text denotes: one value, optionally surrounded by
/// whitespace, spanning the input; or nothing.
pub open spec fn sp_doc(s: Seq<u8>) -> Option<JsonDoc> {
    let i = sp_ws(s, 0);
    if 0 <= i && i <= s.len() {
        match sp_value(s, i) {
            None => None,
            Some((d, j)) => if 0 <= j && j <= s.len() && sp_ws(s, j) == s.len() {
                Some(d)
            } else {
                None
            },
        }
    } else {
        None
    }
}

/// Advances past insignificant whitespace, starting at `i`.
fn skip_ws(s: &Vec<u8>, i: usize) -> (r: usize)
    requires
        i <= s@.len(),
    ensures
        i <= r <= s@.len(),
        r as int == sp_ws(s@, i as int),
{
    let mut j = i;
    while j < s.len() && (s[j] == 32 || s[j] == 9 || s[j] == 10 || s[j] == 13)
        invariant
            i <= j <= s@.len(),
            sp_ws(s@, i as int) == sp_ws(s@, j as int),
        decreases s@.len() - j,
    {
        j = j + 1;
    }
    j
}

/// Reads one hexadecimal digit.
fn hex_digit(b: u8) -> (r: Option<u32>)
    ensures
        r == hex_val(b),
{
    if 48 <= b && b <= 57 {
        Some((b - 48) as u32)
    } else if 97 <= b && b <= 102 {
        Some((b - 87) as u32)
    } else if 65 <= b && b <= 70 {
        Some((b - 55) as u32)
    } else {
        None
    }
}

/// Reads four hexadecimal digits starting at `i`; the value is below 0x10000.
fn parse_hex4(s: &Vec<u8>, i: usize) -> (r: Option<u32>)
    ensures
        r == sp_hex4(s@, i as int),
        r matches Some(v) ==> v < 0x10000 && i + 4 <= s@.len(),
{
    if i > s.len() || s.len() - i < 4 {
        return None;
    }
    let a = match hex_digit(s[i]) {
        Some(v) => v,
        None => { return None; },
    };
    let b = match hex_digit(s[i + 1]) {
        Some(v) => v,
        None => { return None; },
    };
    let c = match hex_digit(s[i + 2]) {
        Some(v) => v,
        None => { return None; },
    };
    let d = match hex_digit(s[i + 3]) {
        Some(v) => v,
        None => { return None; },
    };
    Some(a * 4096 + b * 256 + c * 16 + d)
}

/// Appends the UTF-8 encoding of the code point `cp` to `out`.
fn push_utf8(out: &mut Vec<u8>, cp: u32)
    requires
        cp < 0x110000,
    ensures
        final(out)@ == old(out)@ + utf8_enc(cp),
{
    if cp < 0x80 {
        out.push(cp as u8);
    } else if cp < 0x800 {
        out.push((192 + cp / 64) as u8);
        out.push((128 + cp % 64) as u8);
    } else if cp < 0x10000 {
        out.push((224 + cp / 4096) as u8);
        out.push((128 + (cp / 64) % 64) as u8);
        out.push((128 + cp % 64) as u8);
    } else {
        out.push((240 + cp / 262144) as u8);
        out.push((128 + (cp / 4096) % 64) as u8);
        out.push((128 + (cp / 64) % 64) as u8);
        out.push((128 + cp % 64) as u8);
    }
}

/// Reads a JSON string literal whose opening quote stands at `i`, resolving
/// escape sequences (including surrogate pairs) into UTF-8 bytes.
fn parse_string(s: &Vec<u8>, i: usize) -> (r: Option<(Vec<u8>, usize)>)
    requires
        i < s@.len(),
    ensures
        r matches Some(p) ==> i < p.1 <= s@.len(),
        match r {
            Some(p) => sp_string(s@, i as int) == Some((p.0@, p.1 as int)),
            None => sp_string(s@, i as int) is None,
        },
{
    if s[i] != 34 {
        return None;
    }
    let n = s.len();
    let mut out: Vec<u8> = Vec::new();
    let mut j = i + 1;
    loop
        invariant
            i < j <= n == s@.len(),
            s@[i as int] == 34,
            sp_string(s@, i as int) == sp_string_body(s@, j as int, out@),
        decreases s@.len() - j,
    {
        if j >= n {
            return None;
        }
        let b = s[j];
        if b == 34 {
            return Some((out, j + 1));
        } else if b == 92 {
            if j + 1 >= s.len() {
                return None;
            }
            let e = s[j + 1];
            if e == 34 || e == 92 || e == 47 {
                out.push(e);
                j = j + 2;
            } else if e == 98 {
                out.push(8);
                j = j + 2;
            } else if e == 102 {
                out.push(12);
                j = j + 2;
            } else if e == 110 {
                out.push(10);
                j = j + 2;
            } else if e == 114 {
                out.push(13);
                j = j + 2;
            } else if e == 116 {
                out.push(9);
                j = j + 2;
            } else if e == 117 {
                let hi = match parse_hex4(s, j + 2) {
                    Some(v) => v,
                    None => { return None; },
                };
                if 0xD800 <= hi && hi < 0xDC00 {
                    // a high surrogate must be followed by an escaped low one
                    if s.len() - (j + 6) < 2 || s[j + 6] != 92 || s[j + 7] != 117 {
                        return None;
                    }
                    let lo = match parse_hex4(s, j + 8) {
                        Some(v) => v,
                        None => { return None; },
                    };
                    if !(0xDC00 <= lo && lo < 0xE000) {
                        return None;
                    }
                    let cp = 0x10000 + (hi - 0xD800) * 0x400 + (lo - 0xDC00);
                    push_utf8(&mut out, cp);
                    j = j + 12;
                } else if 0xDC00 <= hi && hi < 0xE000 {
                    return None;
                } else {
                    push_utf8(&mut out, hi);
                    j = j + 6;
                }
            } else {
                return None;
            }
        } else if b < 32 {
            return None;
        } else {
            out.push(b);
            j = j + 1;
        }
    }
}

/// True of an ASCII decimal digit.
pub open spec fn is_digit(b: u8) -> bool {
    48 <= b <= 57
}

/// Advances past the digit run that starts at `i`.
fn digits_end(s: &Vec<u8>, i: usize) -> (r: usize)
    requires
        i <= s@.len(),
    ensures
        i <= r <= s@.len(),
        r as int == sp_digits(s@, i as int),
{
    let mut j = i;
    while j < s.len() && 48 <= s[j] && s[j] <= 57
        invariant
            i <= j <= s@.len(),
            sp_digits(s@, i as int) == sp_digits(s@, j as int),
        decreases s@.len() - j,
    {
        j = j + 1;
    }
    j
}

/// Reads a JSON number literal starting at `i` and returns its source text.
fn parse_number(s: &Vec<u8>, i: usize) -> (r: Option<(Vec<u8>, usize)>)
    requires
        i < s@.len(),
    ensures
        r matches Some(p) ==> i < p.1 <= s@.len() && p.0@ == s@.subrange(i as int, p.1 as int),
        match r {
            Some(p) => sp_number(s@, i as int) == Some(p.1 as int),
            None => sp_number(s@, i as int) is None,
        },
{
    let n = s.len();
    let mut j = i;
    if s[j] == 45 {
        j = j + 1;
    }
    if j >= n {
        return None;
    }
    if s[j] == 48 {
        j = j + 1;
    } else if 49 <= s[j] && s[j] <= 57 {
        j = digits_end(s, j + 1);
    } else {
        return None;
    }
    if j < n && s[j] == 46 {
        if j + 1 >= n || !(48 <= s[j + 1] && s[j + 1] <= 57) {
            return None;
        }
        j = digits_end(s, j + 1);
    }
    if j < n && (s[j] == 101 || s[j] == 69) {
        let mut k = j + 1;
        if k < n && (s[k] == 43 || s[k] == 45) {
            k = k + 1;
        }
        if k >= n || !(48 <= s[k] && s[k] <= 57) {
            return None;
        }
        j = digits_end(s, k);
    }
    Some((crate::bytes::copy_range(s, i, j), j))
}

/// Reads one JSON value whose first byte stands at `i`.
fn json_parse_at(s: &Vec<u8>, i: usize) -> (r: Option<(Json, usize)>)
    requires
        i <= s@.len(),
    ensures
        r matches Some(p) ==> i < p.1 <= s@.len(),
        match r {
            Some(p) => sp_value(s@, i as int) == Some((deep(p.0), p.1 as int)),
            None => sp_value(s@, i as int) is None,
        },
    decreases s@.len() - i,
{
    if i >= s.len() {
        return None;
    }
    let b = s[i];
    if b == 34 {
        match parse_string(s, i) {
            Some((t, j)) => Some((Json::Str(t), j)),
            None => None,
        }
    } else if b == 45 || (48 <= b && b <= 57) {
        match parse_number(s, i) {
            Some((t, j)) => Some((Json::Num(t), j)),
            None => None,
        }
    } else if b == 116 {
        if s.len() - i > 3 && s[i + 1] == 114 && s[i + 2] == 117 && s[i + 3] == 101 {
            Some((Json::Bool(true), i + 4))
        } else {
            None
        }
    } else if b == 102 {
        if s.len() - i > 4 && s[i + 1] == 97 && s[i + 2] == 108 && s[i + 3] == 115 && s[i + 4]
            == 101 {
            Some((Json::Bool(false), i + 5))
        } else {
            None
        }
    } else if b == 110 {
        if s.len() - i > 3 && s[i + 1] == 117 && s[i + 2] == 108 && s[i + 3] == 108 {
            Some((Json::Null, i + 4))
        } else {
            None
        }
    } else if b == 91 {
        let mut items: Vec<Json> = Vec::new();
        let mut j = skip_ws(s, i + 1);
        if j < s.len() && s[j] == 93 {
            proof {
                assert(deep_list(items@) =~= Seq::<JsonDoc>::empty());
            }
            return Some((Json::Arr(items), j + 1));
        }
        loop
            invariant
                i < j <= s@.len(),
                s@[i as int] == 91,
                (match sp_items(s@, j as int, deep_list(items@)) {
                    Some((ds, end)) => sp_value(s@, i as int) == Some((JsonDoc::Arr(ds), end)),
                    None => sp_value(s@, i as int) is None,
                }),
            decreases s@.len() - j,
        {
            let (v, nj) = match json_parse_at(s, j) {
                Some(p) => p,
                None => { return None; },
            };
            let ghost items0 = items@;
            items.push(v);
            let j2 = skip_ws(s, nj);
            proof {
                assert(items@.drop_last() =~= items0);
                assert(deep_list(items@) =~= deep_list(items0).push(deep(v)));
            }
            if j2 >= s.len() {
                return None;
            }
            if s[j2] == 93 {
                return Some((Json::Arr(items), j2 + 1));
            }
            if s[j2] != 44 {
                return None;
            }
            j = skip_ws(s, j2 + 1);
        }
    } else if b == 123 {
        let mut fields: Vec<(Vec<u8>, Json)> = Vec::new();
        let mut j = skip_ws(s, i + 1);
        if j < s.len() && s[j] == 125 {
            proof {
                assert(deep_fields(fields@) =~= Seq::<(Seq<u8>, JsonDoc)>::empty());
            }
            return Some((Json::Obj(fields), j + 1));
        }
        loop
            invariant
                i < j <= s@.len(),
                s@[i as int] == 123,
                (match sp_members(s@, j as int, deep_fields(fields@)) {
                    Some((ms, end)) => sp_value(s@, i as int) == Some((JsonDoc::Obj(ms), end)),
                    None => sp_value(s@, i as int) is None,
                }),
            decreases s@.len() - j,
        {
            if j >= s.len() {
                return None;
            }
            let (key, kj) = match parse_string(s, j) {
                Some(p) => p,
                None => { return None; },
            };
            let cj = skip_ws(s, kj);
            if cj >= s.len() || s[cj] != 58 {
                return None;
            }
            let vj = skip_ws(s, cj + 1);
            let (v, nj) = match json_parse_at(s, vj) {
                Some(p) => p,
                None => { return None; },
            };
            let ghost fields0 = fields@;
            let ghost key0 = key@;
            fields.push((key, v));
            let j2 = skip_ws(s, nj);
            proof {
                assert(fields@.drop_last() =~= fields0);
                assert(deep_fields(fields@) =~= deep_fields(fields0).push((key0, deep(v))));
            }
            if j2 >= s.len() {
                return None;
            }
            if s[j2] == 125 {
                return Some((Json::Obj(fields), j2 + 1));
            }
            if s[j2] != 44 {
                return None;
            }
            j = skip_ws(s, j2 + 1);
        }
    } else {
        None
    }
}

/// Parses a complete JSON document: one value, optionally surrounded by
/// whitespace, spanning the whole input. The result denotes exactly the
/// document `sp_doc` reads out of the same bytes.
pub fn json_parse(s: &Vec<u8>) -> (r: Option<Json>)
    ensures
        match r {
            Some(j) => sp_doc(s@) == Some(deep(j)),
            None => sp_doc(s@) is None,
        },
{
    let i = skip_ws(s, 0);
    match json_parse_at(s, i) {
        None => None,
        Some((v, j)) => {
            let k = skip_ws(s, j);
            if k == s.len() {
                Some(v)
            } else {
                None
            }
        },
    }
}

} // verus!
