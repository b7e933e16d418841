//! JSON values and a parser for one JSON value at the head of a byte buffer.
//!
//! The parser distinguishes a syntactically wrong input (`Invalid`) from an
//! input that is a proper prefix of some well-formed value (`Incomplete`):
//! the stream decoders rely on that distinction to tell "wait for more bytes"
//! apart from a terminal decode failure.  Strings are unescaped to UTF-8
//! bytes; numbers keep their raw bytes, no caller ever reads a numeric value.

use vstd::prelude::*;

verus! {

broadcast use vstd::std_specs::vec::axiom_vec_index_decreases;

/// Mathematical model of a JSON value.
pub enum JsonV {
    Null,
    Bool(bool),
    Num(Seq<u8>),
    Str(Seq<u8>),
    Arr(Seq<JsonV>),
    Obj(Seq<(Seq<u8>, JsonV)>),
}

/// Executable JSON value; `json_view` maps it to its `JsonV` model.
pub enum Json {
    Null,
    Bool(bool),
    Num(Vec<u8>),
    Str(Vec<u8>),
    Arr(Vec<Json>),
    Obj(Vec<(Vec<u8>, Json)>),
}

/// The `JsonV` that an executable `Json` stands for.
pub open spec fn json_view(j: Json) -> JsonV
    decreases j,
{
    match j {
        Json::Null => JsonV::Null,
        Json::Bool(b) => JsonV::Bool(b),
        Json::Num(n) => JsonV::Num(n@),
        Json::Str(s) => JsonV::Str(s@),
        Json::Arr(items) => JsonV::Arr(views_of(items)),
        Json::Obj(entries) => JsonV::Obj(entry_views_of(entries)),
    }
}

/// Views of the elements of an executable value vector.
pub open spec fn views_of(items: Vec<Json>) -> Seq<JsonV>
    decreases items,
{
    Seq::new(
        items@.len(),
        |i: int|
            if 0 <= i < items@.len() {
                json_view(items[i])
            } else {
                JsonV::Null
            },
    )
}

/// Views of the members of an executable object entry vector.
pub open spec fn entry_views_of(entries: Vec<(Vec<u8>, Json)>) -> Seq<(Seq<u8>, JsonV)>
    decreases entries,
{
    Seq::new(
        entries@.len(),
        |i: int|
            if 0 <= i < entries@.len() {
                (entries[i].0@, json_view(entries[i].1))
            } else {
                (Seq::empty(), JsonV::Null)
            },
    )
}

/// Outcome of parsing one value in the model: the value and the index just
/// past it, or why no value could be cut off the buffer head.
pub enum ParseV {
    Found(JsonV, int),
    Incomplete,
    Invalid,
}

pub enum ItemsV {
    Found(Seq<JsonV>, int),
    Incomplete,
    Invalid,
}

pub enum MembersV {
    Found(Seq<(Seq<u8>, JsonV)>, int),
    Incomplete,
    Invalid,
}

pub enum StrV {
    Found(Seq<u8>, int),
    Incomplete,
    Invalid,
}

/// A frame larger than this is rejected as malformed rather than parsed.
pub const MAX_FRAME_LEN: usize = 0x0800_0000;

/// Fuel that suffices for any value of `n` bytes: nesting can consume at most
/// two fuel units per byte of input.
pub open spec fn sp_fuel(n: int) -> nat {
    (2 * n + 2) as nat
}

pub open spec fn is_ws(b: u8) -> bool {
    b == 0x20 || b == 0x09 || b == 0x0a || b == 0x0d
}

pub open spec fn is_digit(b: u8) -> bool {
    0x30 <= b <= 0x39
}

/// Value of one hex digit, or `None` for any other byte.
pub open spec fn sp_hex_digit(b: u8) -> Option<u8> {
    if 0x30 <= b <= 0x39 {
        Some((b - 0x30) as u8)
    } else if 0x61 <= b <= 0x66 {
        Some((b - 0x61 + 10) as u8)
    } else if 0x41 <= b <= 0x46 {
        Some((b - 0x41 + 10) as u8)
    } else {
        None
    }
}

/// First index at or after `i` holding a byte that is not JSON whitespace.
pub open spec fn sp_skip_ws(s: Seq<u8>, i: int) -> int
    decreases s.len() - i,
{
    if i < 0 || i >= s.len() {
        i
    } else if is_ws(s[i]) {
        sp_skip_ws(s, i + 1)
    } else {
        i
    }
}

/// First index at or after `i` holding a non-digit byte.
pub open spec fn sp_scan_digits(s: Seq<u8>, i: int) -> int
    decreases s.len() - i,
{
    if i < 0 || i >= s.len() {
        i
    } else if is_digit(s[i]) {
        sp_scan_digits(s, i + 1)
    } else {
        i
    }
}

pub enum LitV {
    Yes,
    Part,
    No,
}

/// Does `s` continue with `lit` at position `i + k` (comparing from `k` on)?
/// `Part` means the buffer ended while it still agreed with `lit`.
pub open spec fn sp_match_lit(s: Seq<u8>, i: int, lit: Seq<u8>, k: int) -> LitV
    decreases lit.len() - k,
{
    if k < 0 || k >= lit.len() {
        LitV::Yes
    } else if i + k >= s.len() {
        LitV::Part
    } else if i + k >= 0 && s[i + k] == lit[k] {
        sp_match_lit(s, i, lit, k + 1)
    } else {
        LitV::No
    }
}

pub open spec fn lit_null() -> Seq<u8> {
    seq![0x6eu8, 0x75u8, 0x6cu8, 0x6cu8]
}

pub open spec fn lit_true() -> Seq<u8> {
    seq![0x74u8, 0x72u8, 0x75u8, 0x65u8]
}

pub open spec fn lit_false() -> Seq<u8> {
    seq![0x66u8, 0x61u8, 0x6cu8, 0x73u8, 0x65u8]
}

pub open spec fn sp_parse_lit(s: Seq<u8>, i: int, lit: Seq<u8>, v: JsonV) -> ParseV {
    match sp_match_lit(s, i, lit, 0) {
        LitV::Yes => ParseV::Found(v, i + lit.len()),
        LitV::Part => ParseV::Incomplete,
        LitV::No => ParseV::Invalid,
    }
}

/// UTF-8 encoding of a code point below 0x110000.
pub open spec fn sp_utf8(cp: nat) -> Seq<u8> {
    if cp < 0x80 {
        seq![cp as u8]
    } else if cp < 0x800 {
        seq![(0xc0 + cp / 0x40) as u8, (0x80 + cp % 0x40) as u8]
    } else if cp < 0x10000 {
        seq![
            (0xe0 + cp / 0x1000) as u8,
            (0x80 + (cp / 0x40) % 0x40) as u8,
            (0x80 + cp % 0x40) as u8,
        ]
    } else {
        seq![
            (0xf0 + cp / 0x40000) as u8,
            (0x80 + (cp / 0x1000) % 0x40) as u8,
            (0x80 + (cp / 0x40) % 0x40) as u8,
            (0x80 + cp % 0x40) as u8,
        ]
    }
}

/// Replacement byte for the single-character escapes.
pub open spec fn sp_simple_escape(b: u8) -> Option<u8> {
    if b == 0x22 {
        Some(0x22u8)
    } else if b == 0x5c {
        Some(0x5cu8)
    } else if b == 0x2f {
        Some(0x2fu8)
    } else if b == 0x62 {
        Some(0x08u8)
    } else if b == 0x66 {
        Some(0x0cu8)
    } else if b == 0x6e {
        Some(0x0au8)
    } else if b == 0x72 {
        Some(0x0du8)
    } else if b == 0x74 {
        Some(0x09u8)
    } else {
        None
    }
}

/// Value of the four hex digits at `i`, or `None` if any of them is missing
/// or is not a hex digit.
pub open spec fn sp_hex4(s: Seq<u8>, i: int) -> Option<nat> {
    if i < 0 || i + 4 > s.len() {
        None
    } else {
        match (
            sp_hex_digit(s[i]),
            sp_hex_digit(s[i + 1]),
            sp_hex_digit(s[i + 2]),
            sp_hex_digit(s[i + 3]),
        ) {
            (Some(a), Some(b), Some(c), Some(d)) => Some(
                (a as nat) * 0x1000 + (b as nat) * 0x100 + (c as nat) * 0x10 + (d as nat),
            ),
            _ => None,
        }
    }
}

/// All bytes from `i` to the end of `s` are hex digits.
pub open spec fn sp_hex_to_end(s: Seq<u8>, i: int) -> bool {
    forall|k: int| i <= k < s.len() ==> sp_hex_digit(s[k]) is Some
}

/// The bytes from `i` on are consistent with being the start of `\uXXXX`
/// escaping a low surrogate (used to tell `Incomplete` from `Invalid` when
/// the buffer ends inside a surrogate pair).
pub open spec fn sp_low_escape_prefix(s: Seq<u8>, i: int) -> bool {
    &&& (i < s.len() ==> s[i] == 0x5c)
    &&& (i + 1 < s.len() ==> s[i + 1] == 0x75)
    &&& sp_hex_to_end(s, i + 2)
}

pub open spec fn sp_cons_str(pre: Seq<u8>, rest: StrV) -> StrV {
    match rest {
        StrV::Found(t, e) => StrV::Found(pre + t, e),
        StrV::Incomplete => StrV::Incomplete,
        StrV::Invalid => StrV::Invalid,
    }
}

/// Unescape the body of a string literal, starting just past the opening
/// quote; on success the index is just past the closing quote.
pub open spec fn sp_string_body(s: Seq<u8>, i: int) -> StrV
    decreases s.len() - i,
{
    if i < 0 || i >= s.len() {
        StrV::Incomplete
    } else if s[i] == 0x22 {
        StrV::Found(Seq::empty(), i + 1)
    } else if s[i] == 0x5c {
        if i + 1 >= s.len() {
            StrV::Incomplete
        } else if sp_simple_escape(s[i + 1]) is Some {
            sp_cons_str(seq![sp_simple_escape(s[i + 1]).unwrap()], sp_string_body(s, i + 2))
        } else if s[i + 1] == 0x75 {
            if s.len() - i < 6 {
                if sp_hex_to_end(s, i + 2) {
                    StrV::Incomplete
                } else {
                    StrV::Invalid
                }
            } else {
                match sp_hex4(s, i + 2) {
                    None => StrV::Invalid,
                    Some(cp) => if 0xd800 <= cp < 0xdc00 {
                        // High surrogate: a low-surrogate escape must follow.
                        if s.len() - i < 12 {
                            if sp_low_escape_prefix(s, i + 6) {
                                StrV::Incomplete
                            } else {
                                StrV::Invalid
                            }
                        } else if s[i + 6] == 0x5c && s[i + 7] == 0x75 {
                            match sp_hex4(s, i + 8) {
                                None => StrV::Invalid,
                                Some(lo) => if 0xdc00 <= lo < 0xe000 {
                                    sp_cons_str(
                                        sp_utf8(
                                            (0x10000 + (cp - 0xd800) * 0x400 + (lo
                                                - 0xdc00)) as nat,
                                        ),
                                        sp_string_body(s, i + 12),
                                    )
                                } else {
                                    StrV::Invalid
                                },
                            }
                        } else {
                            StrV::Invalid
                        }
                    } else if 0xdc00 <= cp < 0xe000 {
                        StrV::Invalid
                    } else {
                        sp_cons_str(sp_utf8(cp), sp_string_body(s, i + 6))
                    },
                }
            }
        } else {
            StrV::Invalid
        }
    } else if s[i] < 0x20 {
        StrV::Invalid
    } else {
        sp_cons_str(seq![s[i]], sp_string_body(s, i + 1))
    }
}

/// Parse a string literal whose opening quote stands at `i`.
pub open spec fn sp_parse_string(s: Seq<u8>, i: int) -> StrV {
    if i < 0 || i >= s.len() {
        StrV::Incomplete
    } else if s[i] != 0x22 {
        StrV::Invalid
    } else {
        sp_string_body(s, i + 1)
    }
}

/// Parse the exponent-or-end of a number that started at `start` and whose
/// mantissa digits end at `p`, with `p` known to be in range.
pub open spec fn sp_number_tail(s: Seq<u8>, start: int, p: int) -> ParseV {
    if p < s.len() && (s[p] == 0x65 || s[p] == 0x45) {
        let q = if p + 1 < s.len() && (s[p + 1] == 0x2b || s[p + 1] == 0x2d) {
            p + 2
        } else {
            p + 1
        };
        if q >= s.len() {
            ParseV::Incomplete
        } else if !is_digit(s[q]) {
            ParseV::Invalid
        } else {
            let r = sp_scan_digits(s, q);
            if r >= s.len() {
                ParseV::Incomplete
            } else {
                ParseV::Found(JsonV::Num(s.subrange(start, r)), r)
            }
        }
    } else {
        ParseV::Found(JsonV::Num(s.subrange(start, p)), p)
    }
}

/// Parse a number whose first byte (`-` or a digit) stands at `i`.  A number
/// that runs to the very end of the buffer is `Incomplete`: more digits may
/// still arrive.
pub open spec fn sp_parse_number(s: Seq<u8>, i: int) -> ParseV {
    let p0 = if 0 <= i < s.len() && s[i] == 0x2d {
        i + 1
    } else {
        i
    };
    if p0 >= s.len() {
        ParseV::Incomplete
    } else if !is_digit(s[p0]) {
        ParseV::Invalid
    } else {
        let p1 = sp_scan_digits(s, p0);
        if p1 >= s.len() {
            ParseV::Incomplete
        } else if s[p1] == 0x2e {
            if p1 + 1 >= s.len() {
                ParseV::Incomplete
            } else if !is_digit(s[p1 + 1]) {
                ParseV::Invalid
            } else {
                let p2 = sp_scan_digits(s, p1 + 1);
                if p2 >= s.len() {
                    ParseV::Incomplete
                } else {
                    sp_number_tail(s, i, p2)
                }
            }
        } else {
            sp_number_tail(s, i, p1)
        }
    }
}

/// Parse one JSON value whose first byte stands at `i` (callers skip
/// whitespace first).  `fuel` bounds container nesting; `sp_fuel(s.len())`
/// is always enough.
pub open spec fn sp_parse_value(s: Seq<u8>, i: int, fuel: nat) -> ParseV
    decreases fuel,
{
    if i < 0 || i >= s.len() {
        ParseV::Incomplete
    } else {
        let b = s[i];
        if b == 0x6e {
            sp_parse_lit(s, i, lit_null(), JsonV::Null)
        } else if b == 0x74 {
            sp_parse_lit(s, i, lit_true(), JsonV::Bool(true))
        } else if b == 0x66 {
            sp_parse_lit(s, i, lit_false(), JsonV::Bool(false))
        } else if b == 0x22 {
            match sp_parse_string(s, i) {
                StrV::Found(t, e) => ParseV::Found(JsonV::Str(t), e),
                StrV::Incomplete => ParseV::Incomplete,
                StrV::Invalid => ParseV::Invalid,
            }
        } else if b == 0x2d || is_digit(b) {
            sp_parse_number(s, i)
        } else if b == 0x5b {
            if fuel == 0 {
                ParseV::Invalid
            } else {
                let j = sp_skip_ws(s, i + 1);
                if j >= s.len() {
                    ParseV::Incomplete
                } else if s[j] == 0x5d {
                    ParseV::Found(JsonV::Arr(Seq::empty()), j + 1)
                } else {
                    match sp_parse_items(s, j, (fuel - 1) as nat) {
                        ItemsV::Found(vs, e) => ParseV::Found(JsonV::Arr(vs), e),
                        ItemsV::Incomplete => ParseV::Incomplete,
                        ItemsV::Invalid => ParseV::Invalid,
                    }
                }
            }
        } else if b == 0x7b {
            if fuel == 0 {
                ParseV::Invalid
            } else {
                let j = sp_skip_ws(s, i + 1);
                if j >= s.len() {
                    ParseV::Incomplete
                } else if s[j] == 0x7d {
                    ParseV::Found(JsonV::Obj(Seq::empty()), j + 1)
                } else {
                    match sp_parse_members(s, j, (fuel - 1) as nat) {
                        MembersV::Found(ms, e) => ParseV::Found(JsonV::Obj(ms), e),
                        MembersV::Incomplete => ParseV::Incomplete,
                        MembersV::Invalid => ParseV::Invalid,
                    }
                }
            }
        } else {
            ParseV::Invalid
        }
    }
}

/// Parse the elements of a non-empty array, the first one starting at `i`;
/// on success the index is just past the closing bracket.
pub open spec fn sp_parse_items(s: Seq<u8>, i: int, fuel: nat) -> ItemsV
    decreases fuel,
{
    if fuel == 0 {
        ItemsV::Invalid
    } else {
        match sp_parse_value(s, i, (fuel - 1) as nat) {
            ParseV::Incomplete => ItemsV::Incomplete,
            ParseV::Invalid => ItemsV::Invalid,
            ParseV::Found(v, e) => {
                let k = sp_skip_ws(s, e);
                if k >= s.len() {
                    ItemsV::Incomplete
                } else if s[k] == 0x2c {
                    let m = sp_skip_ws(s, k + 1);
                    match sp_parse_items(s, m, (fuel - 1) as nat) {
                        ItemsV::Found(vs, e2) => ItemsV::Found(seq![v] + vs, e2),
                        ItemsV::Incomplete => ItemsV::Incomplete,
                        ItemsV::Invalid => ItemsV::Invalid,
                    }
                } else if s[k] == 0x5d {
                    ItemsV::Found(seq![v], k + 1)
                } else {
                    ItemsV::Invalid
                }
            },
        }
    }
}

/// Parse the members of a non-empty object, the first key starting at `i`;
/// on success the index is just past the closing brace.
pub open spec fn sp_parse_members(s: Seq<u8>, i: int, fuel: nat) -> MembersV
    decreases fuel,
{
    if fuel == 0 {
        MembersV::Invalid
    } else if i < 0 || i >= s.len() {
        MembersV::Incomplete
    } else if s[i] != 0x22 {
        MembersV::Invalid
    } else {
        match sp_parse_string(s, i) {
            StrV::Incomplete => MembersV::Incomplete,
            StrV::Invalid => MembersV::Invalid,
            StrV::Found(key, e) => {
                let c = sp_skip_ws(s, e);
                if c >= s.len() {
                    MembersV::Incomplete
                } else if s[c] != 0x3a {
                    MembersV::Invalid
                } else {
                    let j = sp_skip_ws(s, c + 1);
                    match sp_parse_value(s, j, (fuel - 1) as nat) {
                        ParseV::Incomplete => MembersV::Incomplete,
                        ParseV::Invalid => MembersV::Invalid,
                        ParseV::Found(v, e2) => {
                            let k = sp_skip_ws(s, e2);
                            if k >= s.len() {
                                MembersV::Incomplete
                            } else if s[k] == 0x2c {
                                let m = sp_skip_ws(s, k + 1);
                                match sp_parse_members(s, m, (fuel - 1) as nat) {
                                    MembersV::Found(ms, e3) => MembersV::Found(
                                        seq![(key, v)] + ms,
                                        e3,
                                    ),
                                    MembersV::Incomplete => MembersV::Incomplete,
                                    MembersV::Invalid => MembersV::Invalid,
                                }
                            } else if s[k] == 0x7d {
                                MembersV::Found(seq![(key, v)], k + 1)
                            } else {
                                MembersV::Invalid
                            }
                        },
                    }
                }
            },
        }
    }
}

/// First value bound to `key` in an object's member list.
pub open spec fn sp_obj_field(ms: Seq<(Seq<u8>, JsonV)>, key: Seq<u8>) -> Option<JsonV>
    decreases ms.len(),
{
    if ms.len() == 0 {
        None
    } else if ms[0].0 == key {
        Some(ms[0].1)
    } else {
        sp_obj_field(ms.drop_first(), key)
    }
}

/// The whole of `s` is one JSON value, possibly surrounded by whitespace.
pub open spec fn sp_document(s: Seq<u8>) -> Option<JsonV> {
    if s.len() > MAX_FRAME_LEN {
        None
    } else {
        match sp_parse_value(s, sp_skip_ws(s, 0), sp_fuel(s.len() as int)) {
            ParseV::Found(v, e) => if sp_skip_ws(s, e) == s.len() {
                Some(v)
            } else {
                None
            },
            _ => None,
        }
    }
}

pub enum ParseOut {
    Found(Json, usize),
    Incomplete,
    Invalid,
}

pub enum ItemsOut {
    Found(Vec<Json>, usize),
    Incomplete,
    Invalid,
}

pub enum MembersOut {
    Found(Vec<(Vec<u8>, Json)>, usize),
    Incomplete,
    Invalid,
}

pub enum StrOut {
    Found(Vec<u8>, usize),
    Incomplete,
    Invalid,
}

proof fn lemma_cons_assoc(a: Seq<u8>, b: Seq<u8>, r: StrV)
    ensures
        sp_cons_str(a, sp_cons_str(b, r)) == sp_cons_str(a + b, r),
{
    match r {
        StrV::Found(t, e) => {
            assert(a + (b + t) =~= (a + b) + t);
        },
        _ => {},
    }
}

proof fn lemma_cons_empty(r: StrV)
    ensures
        sp_cons_str(Seq::empty(), r) == r,
{
    match r {
        StrV::Found(t, e) => {
            assert(Seq::empty() + t =~= t);
        },
        _ => {},
    }
}

fn skip_ws(s: &Vec<u8>, i: usize) -> (r: usize)
    requires
        i <= s@.len(),
    ensures
        r as int == sp_skip_ws(s@, i as int),
        i <= r <= s@.len(),
{
    let mut j = i;
    while j < s.len() && (s[j] == 0x20 || s[j] == 0x09 || s[j] == 0x0a || s[j] == 0x0d)
        invariant
            i <= j <= s@.len(),
            sp_skip_ws(s@, i as int) == sp_skip_ws(s@, j as int),
        decreases s@.len() - j,
    {
        j += 1;
    }
    j
}

fn scan_digits(s: &Vec<u8>, i: usize) -> (r: usize)
    requires
        i <= s@.len(),
    ensures
        r as int == sp_scan_digits(s@, i as int),
        i <= r <= s@.len(),
        i < s@.len() && is_digit(s@[i as int]) ==> r > i,
{
    let mut j = i;
    while j < s.len() && 0x30 <= s[j] && s[j] <= 0x39
        invariant
            i <= j <= s@.len(),
            sp_scan_digits(s@, i as int) == sp_scan_digits(s@, j as int),
        decreases s@.len() - j,
    {
        j += 1;
    }
    j
}

fn hex_digit(b: u8) -> (r: Option<u8>)
    ensures
        r == sp_hex_digit(b),
{
    if 0x30 <= b && b <= 0x39 {
        Some(b - 0x30)
    } else if 0x61 <= b && b <= 0x66 {
        Some(b - 0x61 + 10)
    } else if 0x41 <= b && b <= 0x46 {
        Some(b - 0x41 + 10)
    } else {
        None
    }
}

fn hex4(s: &Vec<u8>, i: usize) -> (r: Option<u32>)
    requires
        s@.len() - i >= 4,
    ensures
        match r {
            Some(v) => sp_hex4(s@, i as int) == Some(v as nat) && v < 0x10000,
            None => sp_hex4(s@, i as int) is None,
        },
{
    let n = s.len();
    assert(i + 4 <= n);
    let a = hex_digit(s[i]);
    let b = hex_digit(s[i + 1]);
    let c = hex_digit(s[i + 2]);
    let d = hex_digit(s[i + 3]);
    match (a, b, c, d) {
        (Some(a), Some(b), Some(c), Some(d)) => Some(
            (a as u32) * 0x1000 + (b as u32) * 0x100 + (c as u32) * 0x10 + (d as u32),
        ),
        _ => None,
    }
}

fn hex_to_end(s: &Vec<u8>, i: usize) -> (r: bool)
    requires
        i <= s@.len(),
    ensures
        r == sp_hex_to_end(s@, i as int),
{
    let mut j = i;
    while j < s.len()
        invariant
            i <= j <= s@.len(),
            forall|k: int| i <= k < j ==> sp_hex_digit(s@[k]) is Some,
        decreases s@.len() - j,
    {
        if hex_digit(s[j]).is_none() {
            return false;
        }
        j += 1;
    }
    true
}

/// Append the UTF-8 encoding of `cp` to `dst`.
fn push_utf8(dst: &mut Vec<u8>, cp: u32)
    requires
        cp < 0x110000,
    ensures
        final(dst)@ == old(dst)@ + sp_utf8(cp as nat),
{
    if cp < 0x80 {
        dst.push(cp as u8);
        assert(final(dst)@ =~= old(dst)@ + sp_utf8(cp as nat));
    } else if cp < 0x800 {
        dst.push((0xc0 + cp / 0x40) as u8);
        dst.push((0x80 + cp % 0x40) as u8);
        assert(final(dst)@ =~= old(dst)@ + sp_utf8(cp as nat));
    } else if cp < 0x10000 {
        dst.push((0xe0 + cp / 0x1000) as u8);
        dst.push((0x80 + (cp / 0x40) % 0x40) as u8);
        dst.push((0x80 + cp % 0x40) as u8);
        assert(final(dst)@ =~= old(dst)@ + sp_utf8(cp as nat));
    } else {
        dst.push((0xf0 + cp / 0x40000) as u8);
        dst.push((0x80 + (cp / 0x1000) % 0x40) as u8);
        dst.push((0x80 + (cp / 0x40) % 0x40) as u8);
        dst.push((0x80 + cp % 0x40) as u8);
        assert(final(dst)@ =~= old(dst)@ + sp_utf8(cp as nat));
    }
}

/// Unescape a string literal whose opening quote stands at `i`.
fn parse_string_at(s: &Vec<u8>, i: usize) -> (r: StrOut)
    requires
        i < s@.len(),
        s@[i as int] == 0x22,
    ensures
        match r {
            StrOut::Found(t, e) => sp_parse_string(s@, i as int) == StrV::Found(t@, e as int)
                && i < e <= s@.len(),
            StrOut::Incomplete => sp_parse_string(s@, i as int) is Incomplete,
            StrOut::Invalid => sp_parse_string(s@, i as int) is Invalid,
        },
{
    let n = s.len();
    let mut acc: Vec<u8> = Vec::new();
    let mut j = i + 1;
    proof {
        lemma_cons_empty(sp_string_body(s@, j as int));
    }
    loop
        invariant
            i < s@.len(),
            s@[i as int] == 0x22,
            i + 1 <= j <= n == s@.len(),
            sp_string_body(s@, (i + 1) as int) == sp_cons_str(acc@, sp_string_body(s@, j as int)),
        decreases s@.len() - j,
    {
        if j >= n {
            return StrOut::Incomplete;
        }
        let b = s[j];
        if b == 0x22 {
            proof {
                assert(acc@ + Seq::<u8>::empty() =~= acc@);
            }
            return StrOut::Found(acc, j + 1);
        } else if b == 0x5c {
            if n - j < 2 {
                return StrOut::Incomplete;
            }
            let e = s[j + 1];
            let rep: Option<u8> = if e == 0x22 {
                Some(0x22)
            } else if e == 0x5c {
                Some(0x5c)
            } else if e == 0x2f {
                Some(0x2f)
            } else if e == 0x62 {
                Some(0x08)
            } else if e == 0x66 {
                Some(0x0c)
            } else if e == 0x6e {
                Some(0x0a)
            } else if e == 0x72 {
                Some(0x0d)
            } else if e == 0x74 {
                Some(0x09)
            } else {
                None
            };
            assert(rep == sp_simple_escape(e));
            match rep {
                Some(rb) => {
                    let ghost acc0 = acc@;
                    proof {
                        lemma_cons_assoc(acc0, seq![rb], sp_string_body(s@, j + 2));
                    }
                    acc.push(rb);
                    proof {
                        assert(acc@ =~= acc0 + seq![rb]);
                    }
                    j += 2;
                },
                None => {
                    if e != 0x75 {
                        return StrOut::Invalid;
                    }
                    if n - j < 6 {
                        if hex_to_end(s, j + 2) {
                            return StrOut::Incomplete;
                        } else {
                            return StrOut::Invalid;
                        }
                    }
                    let cp = match hex4(s, j + 2) {
                        None => {
                            return StrOut::Invalid;
                        },
                        Some(cp) => cp,
                    };
                    if 0xd800 <= cp && cp < 0xdc00 {
                        if n - j < 12 {
                            let pfx_ok = (n - j <= 6 || s[j + 6] == 0x5c) && (n - j <= 7 || s[j
                                + 7] == 0x75) && (n - j < 8 || hex_to_end(s, j + 8));
                            assert(pfx_ok == sp_low_escape_prefix(s@, j + 6));
                            if pfx_ok {
                                return StrOut::Incomplete;
                            } else {
                                return StrOut::Invalid;
                            }
                        }
                        if !(s[j + 6] == 0x5c && s[j + 7] == 0x75) {
                            return StrOut::Invalid;
                        }
                        let lo = match hex4(s, j + 8) {
                            None => {
                                return StrOut::Invalid;
                            },
                            Some(lo) => lo,
                        };
                        if !(0xdc00 <= lo && lo < 0xe000) {
                            return StrOut::Invalid;
                        }
                        let cp2: u32 = 0x10000 + (cp - 0xd800) * 0x400 + (lo - 0xdc00);
                        proof {
                            lemma_cons_assoc(acc@, sp_utf8(cp2 as nat), sp_string_body(s@, j + 12));
                        }
                        push_utf8(&mut acc, cp2);
                        j += 12;
                    } else if 0xdc00 <= cp && cp < 0xe000 {
                        return StrOut::Invalid;
                    } else {
                        proof {
                            lemma_cons_assoc(acc@, sp_utf8(cp as nat), sp_string_body(s@, j + 6));
                        }
                        push_utf8(&mut acc, cp);
                        j += 6;
                    }
                },
            }
        } else if b < 0x20 {
            return StrOut::Invalid;
        } else {
            let ghost acc0 = acc@;
            proof {
                lemma_cons_assoc(acc0, seq![b], sp_string_body(s@, j + 1));
            }
            acc.push(b);
            proof {
                assert(acc@ =~= acc0 + seq![b]);
            }
            j += 1;
        }
    }
}

/// Copy of the bytes `s[from..to]`.
pub fn copy_range(s: &Vec<u8>, from: usize, to: usize) -> (r: Vec<u8>)
    requires
        from <= to <= s@.len(),
    ensures
        r@ == s@.subrange(from as int, to as int),
{
    vstd::slice::slice_to_vec(vstd::slice::slice_subrange(s.as_slice(), from, to))
}

fn match_lit(s: &Vec<u8>, i: usize, lit: &Vec<u8>) -> (r: LitV)
    requires
        i <= s@.len(),
    ensures
        r == sp_match_lit(s@, i as int, lit@, 0),
        r is Yes ==> i + lit@.len() <= s@.len(),
{
    let n = s.len();
    let m = lit.len();
    let mut k: usize = 0;
    loop
        invariant
            0 <= k <= m == lit@.len(),
            i <= n == s@.len(),
            i + k <= n,
            sp_match_lit(s@, i as int, lit@, 0) == sp_match_lit(s@, i as int, lit@, k as int),
        decreases m - k,
    {
        if k >= m {
            return LitV::Yes;
        }
        if n - i <= k {
            return LitV::Part;
        }
        if s[i + k] != lit[k] {
            return LitV::No;
        }
        k += 1;
    }
}

fn lit_null_vec() -> (v: Vec<u8>)
    ensures
        v@ == lit_null(),
{
    let mut v: Vec<u8> = Vec::new();
    v.push(0x6e);
    v.push(0x75);
    v.push(0x6c);
    v.push(0x6c);
    proof {
        assert(v@ =~= lit_null());
    }
    v
}

fn lit_true_vec() -> (v: Vec<u8>)
    ensures
        v@ == lit_true(),
{
    let mut v: Vec<u8> = Vec::new();
    v.push(0x74);
    v.push(0x72);
    v.push(0x75);
    v.push(0x65);
    proof {
        assert(v@ =~= lit_true());
    }
    v
}

fn lit_false_vec() -> (v: Vec<u8>)
    ensures
        v@ == lit_false(),
{
    let mut v: Vec<u8> = Vec::new();
    v.push(0x66);
    v.push(0x61);
    v.push(0x6c);
    v.push(0x73);
    v.push(0x65);
    proof {
        assert(v@ =~= lit_false());
    }
    v
}

/// Exponent-or-end of a number: mirror of `sp_number_tail`.
fn number_tail(s: &Vec<u8>, start: usize, p: usize) -> (r: ParseOut)
    requires
        start < p < s@.len(),
    ensures
        match r {
            ParseOut::Found(v, e) => sp_number_tail(s@, start as int, p as int) == ParseV::Found(
                json_view(v),
                e as int,
            ) && start < e <= s@.len(),
            ParseOut::Incomplete => sp_number_tail(s@, start as int, p as int) is Incomplete,
            ParseOut::Invalid => sp_number_tail(s@, start as int, p as int) is Invalid,
        },
        r is Found ==> p <= s@.len(),
{
    let n = s.len();
    if s[p] == 0x65 || s[p] == 0x45 {
        let q = if n - p >= 2 && (s[p + 1] == 0x2b || s[p + 1] == 0x2d) {
            p + 2
        } else {
            p + 1
        };
        if q >= n {
            return ParseOut::Incomplete;
        }
        if !(0x30 <= s[q] && s[q] <= 0x39) {
            return ParseOut::Invalid;
        }
        let r = scan_digits(s, q);
        if r >= n {
            ParseOut::Incomplete
        } else {
            ParseOut::Found(Json::Num(copy_range(s, start, r)), r)
        }
    } else {
        ParseOut::Found(Json::Num(copy_range(s, start, p)), p)
    }
}

/// Parse a number whose first byte stands at `i`: mirror of
/// `sp_parse_number`.
fn parse_number_at(s: &Vec<u8>, i: usize) -> (r: ParseOut)
    requires
        i < s@.len(),
    ensures
        match r {
            ParseOut::Found(v, e) => sp_parse_number(s@, i as int) == ParseV::Found(
                json_view(v),
                e as int,
            ) && i < e <= s@.len(),
            ParseOut::Incomplete => sp_parse_number(s@, i as int) is Incomplete,
            ParseOut::Invalid => sp_parse_number(s@, i as int) is Invalid,
        },
{
    let n = s.len();
    let p0 = if s[i] == 0x2d {
        i + 1
    } else {
        i
    };
    if p0 >= n {
        return ParseOut::Incomplete;
    }
    if !(0x30 <= s[p0] && s[p0] <= 0x39) {
        return ParseOut::Invalid;
    }
    let p1 = scan_digits(s, p0);
    if p1 >= n {
        return ParseOut::Incomplete;
    }
    if s[p1] == 0x2e {
        if n - p1 < 2 {
            return ParseOut::Incomplete;
        }
        if !(0x30 <= s[p1 + 1] && s[p1 + 1] <= 0x39) {
            return ParseOut::Invalid;
        }
        let p2 = scan_digits(s, p1 + 1);
        if p2 >= n {
            return ParseOut::Incomplete;
        }
        number_tail(s, i, p2)
    } else {
        number_tail(s, i, p1)
    }
}

/// Parse one JSON value whose first byte stands at `i`: mirror of
/// `sp_parse_value`.
pub fn parse_value_at(s: &Vec<u8>, i: usize, fuel: usize) -> (r: ParseOut)
    requires
        i <= s@.len(),
    ensures
        match r {
            ParseOut::Found(v, e) => sp_parse_value(s@, i as int, fuel as nat) == ParseV::Found(
                json_view(v),
                e as int,
            ) && i < e <= s@.len(),
            ParseOut::Incomplete => sp_parse_value(s@, i as int, fuel as nat) is Incomplete,
            ParseOut::Invalid => sp_parse_value(s@, i as int, fuel as nat) is Invalid,
        },
    decreases fuel,
{
    let n = s.len();
    if i >= n {
        return ParseOut::Incomplete;
    }
    let b = s[i];
    if b == 0x6e {
        let lit = lit_null_vec();
        match match_lit(s, i, &lit) {
            LitV::Yes => ParseOut::Found(Json::Null, i + 4),
            LitV::Part => ParseOut::Incomplete,
            LitV::No => ParseOut::Invalid,
        }
    } else if b == 0x74 {
        let lit = lit_true_vec();
        match match_lit(s, i, &lit) {
            LitV::Yes => ParseOut::Found(Json::Bool(true), i + 4),
            LitV::Part => ParseOut::Incomplete,
            LitV::No => ParseOut::Invalid,
        }
    } else if b == 0x66 {
        let lit = lit_false_vec();
        match match_lit(s, i, &lit) {
            LitV::Yes => ParseOut::Found(Json::Bool(false), i + 5),
            LitV::Part => ParseOut::Incomplete,
            LitV::No => ParseOut::Invalid,
        }
    } else if b == 0x22 {
        match parse_string_at(s, i) {
            StrOut::Found(t, e) => ParseOut::Found(Json::Str(t), e),
            StrOut::Incomplete => ParseOut::Incomplete,
            StrOut::Invalid => ParseOut::Invalid,
        }
    } else if b == 0x2d || (0x30 <= b && b <= 0x39) {
        parse_number_at(s, i)
    } else if b == 0x5b {
        if fuel == 0 {
            return ParseOut::Invalid;
        }
        let j = skip_ws(s, i + 1);
        if j >= n {
            return ParseOut::Incomplete;
        }
        if s[j] == 0x5d {
            let items: Vec<Json> = Vec::new();
            proof {
                assert(views_of(items) =~= Seq::<JsonV>::empty());
            }
            return ParseOut::Found(Json::Arr(items), j + 1);
        }
        match parse_items_at(s, j, fuel - 1) {
            ItemsOut::Found(vs, e) => ParseOut::Found(Json::Arr(vs), e),
            ItemsOut::Incomplete => ParseOut::Incomplete,
            ItemsOut::Invalid => ParseOut::Invalid,
        }
    } else if b == 0x7b {
        if fuel == 0 {
            return ParseOut::Invalid;
        }
        let j = skip_ws(s, i + 1);
        if j >= n {
            return ParseOut::Incomplete;
        }
        if s[j] == 0x7d {
            let entries: Vec<(Vec<u8>, Json)> = Vec::new();
            proof {
                assert(entry_views_of(entries) =~= Seq::<(Seq<u8>, JsonV)>::empty());
            }
            return ParseOut::Found(Json::Obj(entries), j + 1);
        }
        match parse_members_at(s, j, fuel - 1) {
            MembersOut::Found(ms, e) => ParseOut::Found(Json::Obj(ms), e),
            MembersOut::Incomplete => ParseOut::Incomplete,
            MembersOut::Invalid => ParseOut::Invalid,
        }
    } else {
        ParseOut::Invalid
    }
}

/// Parse the elements of a non-empty array: mirror of `sp_parse_items`.
fn parse_items_at(s: &Vec<u8>, i: usize, fuel: usize) -> (r: ItemsOut)
    requires
        i <= s@.len(),
    ensures
        match r {
            ItemsOut::Found(vs, e) => sp_parse_items(s@, i as int, fuel as nat) == ItemsV::Found(
                views_of(vs),
                e as int,
            ) && i < e <= s@.len(),
            ItemsOut::Incomplete => sp_parse_items(s@, i as int, fuel as nat) is Incomplete,
            ItemsOut::Invalid => sp_parse_items(s@, i as int, fuel as nat) is Invalid,
        },
    decreases fuel,
{
    if fuel == 0 {
        return ItemsOut::Invalid;
    }
    let n = s.len();
    match parse_value_at(s, i, fuel - 1) {
        ParseOut::Incomplete => ItemsOut::Incomplete,
        ParseOut::Invalid => ItemsOut::Invalid,
        ParseOut::Found(v, e) => {
            let ghost vv = json_view(v);
            let k = skip_ws(s, e);
            if k >= n {
                return ItemsOut::Incomplete;
            }
            if s[k] == 0x2c {
                let m = skip_ws(s, k + 1);
                match parse_items_at(s, m, fuel - 1) {
                    ItemsOut::Incomplete => ItemsOut::Incomplete,
                    ItemsOut::Invalid => ItemsOut::Invalid,
                    ItemsOut::Found(mut vs, e2) => {
                        let ghost rest = views_of(vs);
                        vs.insert(0, v);
                        proof {
                            assert(views_of(vs) =~= seq![vv] + rest);
                        }
                        ItemsOut::Found(vs, e2)
                    },
                }
            } else if s[k] == 0x5d {
                let mut vs: Vec<Json> = Vec::new();
                vs.push(v);
                proof {
                    assert(views_of(vs) =~= seq![vv]);
                }
                ItemsOut::Found(vs, k + 1)
            } else {
                ItemsOut::Invalid
            }
        },
    }
}

/// Parse the members of a non-empty object: mirror of `sp_parse_members`.
fn parse_members_at(s: &Vec<u8>, i: usize, fuel: usize) -> (r: MembersOut)
    requires
        i <= s@.len(),
    ensures
        match r {
            MembersOut::Found(ms, e) => sp_parse_members(s@, i as int, fuel as nat)
                == MembersV::Found(entry_views_of(ms), e as int) && i < e <= s@.len(),
            MembersOut::Incomplete => sp_parse_members(s@, i as int, fuel as nat) is Incomplete,
            MembersOut::Invalid => sp_parse_members(s@, i as int, fuel as nat) is Invalid,
        },
    decreases fuel,
{
    if fuel == 0 {
        return MembersOut::Invalid;
    }
    let n = s.len();
    if i >= n {
        return MembersOut::Incomplete;
    }
    if s[i] != 0x22 {
        return MembersOut::Invalid;
    }
    match parse_string_at(s, i) {
        StrOut::Incomplete => MembersOut::Incomplete,
        StrOut::Invalid => MembersOut::Invalid,
        StrOut::Found(key, e) => {
            let ghost kv = key@;
            let c = skip_ws(s, e);
            if c >= n {
                return MembersOut::Incomplete;
            }
            if s[c] != 0x3a {
                return MembersOut::Invalid;
            }
            let j = skip_ws(s, c + 1);
            match parse_value_at(s, j, fuel - 1) {
                ParseOut::Incomplete => MembersOut::Incomplete,
                ParseOut::Invalid => MembersOut::Invalid,
                ParseOut::Found(v, e2) => {
                    let ghost vv = json_view(v);
                    let k = skip_ws(s, e2);
                    if k >= n {
                        return MembersOut::Incomplete;
                    }
                    if s[k] == 0x2c {
                        let m = skip_ws(s, k + 1);
                        match parse_members_at(s, m, fuel - 1) {
                            MembersOut::Incomplete => MembersOut::Incomplete,
                            MembersOut::Invalid => MembersOut::Invalid,
                            MembersOut::Found(mut ms, e3) => {
                                let ghost rest = entry_views_of(ms);
                                ms.insert(0, (key, v));
                                proof {
                                    assert(entry_views_of(ms) =~= seq![(kv, vv)] + rest);
                                }
                                MembersOut::Found(ms, e3)
                            },
                        }
                    } else if s[k] == 0x7d {
                        let mut ms: Vec<(Vec<u8>, Json)> = Vec::new();
                        ms.push((key, v));
                        proof {
                            assert(entry_views_of(ms) =~= seq![(kv, vv)]);
                        }
                        MembersOut::Found(ms, k + 1)
                    } else {
                        MembersOut::Invalid
                    }
                },
            }
        },
    }
}

/// Byte-for-byte equality of two byte vectors.
pub fn bytes_eq(a: &Vec<u8>, b: &Vec<u8>) -> (r: bool)
    ensures
        r == (a@ == b@),
{
    if a.len() != b.len() {
        return false;
    }
    let n = a.len();
    let mut i: usize = 0;
    while i < n
        invariant
            0 <= i <= n,
            n == a@.len() == b@.len(),
            forall|k: int| 0 <= k < i ==> a@[k] == b@[k],
        decreases n - i,
    {
        if a[i] != b[i] {
            return false;
        }
        i += 1;
    }
    proof {
        assert(a@ =~= b@);
    }
    true
}

/// First value bound to `key` among `entries`: mirror of `sp_obj_field`.
pub fn obj_field<'a>(entries: &'a Vec<(Vec<u8>, Json)>, key: &Vec<u8>) -> (r: Option<&'a Json>)
    ensures
        match r {
            Some(j) => sp_obj_field(entry_views_of(*entries), key@) == Some(json_view(*j)),
            None => sp_obj_field(entry_views_of(*entries), key@) is None,
        },
{
    let ghost full = entry_views_of(*entries);
    let n = entries.len();
    let mut i: usize = 0;
    proof {
        assert(full.skip(0) =~= full);
    }
    while i < n
        invariant
            0 <= i <= n == entries@.len(),
            full == entry_views_of(*entries),
            sp_obj_field(full, key@) == sp_obj_field(full.skip(i as int), key@),
        decreases n - i,
    {
        let e = &entries[i];
        proof {
            assert(full.skip(i as int)[0] == full[i as int]);
            assert(full.skip(i as int).drop_first() =~= full.skip(i as int + 1));
        }
        if bytes_eq(&e.0, key) {
            return Some(&e.1);
        }
        i += 1;
    }
    proof {
        assert(full.skip(n as int) =~= Seq::<(Seq<u8>, JsonV)>::empty());
    }
    None
}

/// Hex digit (lower case) for a value below 16.
pub open spec fn sp_hex_char(v: u8) -> u8 {
    if v < 10 {
        (0x30 + v) as u8
    } else {
        (0x61 + v - 10) as u8
    }
}

/// Serialization of one string byte: the two-character escapes JSON names,
/// `\u00XX` for the other control bytes, everything else verbatim.
pub open spec fn sp_escape_byte(b: u8) -> Seq<u8> {
    if b == 0x22 {
        seq![0x5cu8, 0x22u8]
    } else if b == 0x5c {
        seq![0x5cu8, 0x5cu8]
    } else if b == 0x08 {
        seq![0x5cu8, 0x62u8]
    } else if b == 0x09 {
        seq![0x5cu8, 0x74u8]
    } else if b == 0x0a {
        seq![0x5cu8, 0x6eu8]
    } else if b == 0x0c {
        seq![0x5cu8, 0x66u8]
    } else if b == 0x0d {
        seq![0x5cu8, 0x72u8]
    } else if b < 0x20 {
        seq![0x5cu8, 0x75u8, 0x30u8, 0x30u8, sp_hex_char(b / 16), sp_hex_char(b % 16)]
    } else {
        seq![b]
    }
}

/// A string's bytes escaped for inclusion in a JSON string literal.
pub open spec fn sp_escape(s: Seq<u8>) -> Seq<u8>
    decreases s.len(),
{
    if s.len() == 0 {
        Seq::empty()
    } else {
        sp_escape_byte(s[0]) + sp_escape(s.subrange(1, s.len() as int))
    }
}

/// Serialization of a JSON value, with no added whitespace.
pub open spec fn sp_ser(v: JsonV) -> Seq<u8>
    decreases v,
{
    match v {
        JsonV::Null => lit_null(),
        JsonV::Bool(b) => if b {
            lit_true()
        } else {
            lit_false()
        },
        JsonV::Num(raw) => raw,
        JsonV::Str(s) => seq![0x22u8] + sp_escape(s) + seq![0x22u8],
        JsonV::Arr(items) => seq![0x5bu8] + sp_ser_items(items) + seq![0x5du8],
        JsonV::Obj(ms) => seq![0x7bu8] + sp_ser_members(ms) + seq![0x7du8],
    }
}

pub open spec fn sp_ser_items(items: Seq<JsonV>) -> Seq<u8>
    decreases items,
{
    if items.len() == 0 {
        Seq::empty()
    } else if items.len() == 1 {
        sp_ser(items[0])
    } else {
        sp_ser(items[0]) + seq![0x2cu8] + sp_ser_items(items.subrange(1, items.len() as int))
    }
}

pub open spec fn sp_ser_members(ms: Seq<(Seq<u8>, JsonV)>) -> Seq<u8>
    decreases ms,
{
    if ms.len() == 0 {
        Seq::empty()
    } else {
        let entry = seq![0x22u8] + sp_escape(ms[0].0) + seq![0x22u8, 0x3au8] + sp_ser(ms[0].1);
        if ms.len() == 1 {
            entry
        } else {
            entry + seq![0x2cu8] + sp_ser_members(ms.subrange(1, ms.len() as int))
        }
    }
}

/// Append the escaped form of `s` to `dst`: mirror of `sp_escape`.
fn escape_into(dst: &mut Vec<u8>, s: &Vec<u8>)
    ensures
        final(dst)@ == old(dst)@ + sp_escape(s@),
{
    let n = s.len();
    let mut i: usize = 0;
    let ghost base = dst@;
    proof {
        assert(s@.subrange(0, n as int) =~= s@);
        assert(base + Seq::<u8>::empty() =~= base);
    }
    while i < n
        invariant
            0 <= i <= n == s@.len(),
            dst@ + sp_escape(s@.subrange(i as int, n as int)) == base + sp_escape(s@),
        decreases n - i,
    {
        let ghost pre = dst@;
        let ghost rest = s@.subrange(i as int, n as int);
        proof {
            assert(rest[0] == s@[i as int]);
            assert(rest.subrange(1, rest.len() as int) =~= s@.subrange(i as int + 1, n as int));
        }
        let b = s[i];
        if b == 0x22 {
            dst.push(0x5c);
            dst.push(0x22);
        } else if b == 0x5c {
            dst.push(0x5c);
            dst.push(0x5c);
        } else if b == 0x08 {
            dst.push(0x5c);
            dst.push(0x62);
        } else if b == 0x09 {
            dst.push(0x5c);
            dst.push(0x74);
        } else if b == 0x0a {
            dst.push(0x5c);
            dst.push(0x6e);
        } else if b == 0x0c {
            dst.push(0x5c);
            dst.push(0x66);
        } else if b == 0x0d {
            dst.push(0x5c);
            dst.push(0x72);
        } else if b < 0x20 {
            dst.push(0x5c);
            dst.push(0x75);
            dst.push(0x30);
            dst.push(0x30);
            let hi = b / 16;
            let lo = b % 16;
            dst.push(
                if hi < 10 {
                    0x30 + hi
                } else {
                    0x61 + hi - 10
                },
            );
            dst.push(
                if lo < 10 {
                    0x30 + lo
                } else {
                    0x61 + lo - 10
                },
            );
        } else {
            dst.push(b);
        }
        proof {
            assert(dst@ =~= pre + sp_escape_byte(s@[i as int]));
            assert(pre + (sp_escape_byte(s@[i as int]) + sp_escape(
                s@.subrange(i as int + 1, n as int),
            )) =~= (pre + sp_escape_byte(s@[i as int])) + sp_escape(
                s@.subrange(i as int + 1, n as int),
            ));
        }
        i += 1;
    }
    proof {
        assert(s@.subrange(n as int, n as int) =~= Seq::<u8>::empty());
        assert(dst@ + Seq::<u8>::empty() =~= dst@);
    }
}

/// Serialize a JSON value, with no added whitespace: mirror of `sp_ser`.
#[verifier::loop_isolation(false)]
pub fn json_serialize_into(dst: &mut Vec<u8>, j: &Json)
    ensures
        final(dst)@ == old(dst)@ + sp_ser(json_view(*j)),
    decreases *j,
{
    match j {
        Json::Null => {
            let ghost pre = dst@;
            dst.push(0x6e);
            dst.push(0x75);
            dst.push(0x6c);
            dst.push(0x6c);
            proof {
                assert(dst@ =~= pre + lit_null());
            }
        },
        Json::Bool(b) => {
            let ghost pre = dst@;
            if *b {
                dst.push(0x74);
                dst.push(0x72);
                dst.push(0x75);
                dst.push(0x65);
                proof {
                    assert(dst@ =~= pre + lit_true());
                }
            } else {
                dst.push(0x66);
                dst.push(0x61);
                dst.push(0x6c);
                dst.push(0x73);
                dst.push(0x65);
                proof {
                    assert(dst@ =~= pre + lit_false());
                }
            }
        },
        Json::Num(raw) => {
            dst.extend_from_slice(raw.as_slice());
        },
        Json::Str(s) => {
            let ghost pre = dst@;
            dst.push(0x22);
            escape_into(dst, s);
            dst.push(0x22);
            proof {
                assert(dst@ =~= pre + (seq![0x22u8] + sp_escape(s@) + seq![0x22u8]));
            }
        },
        Json::Arr(items) => {
            let ghost pre = dst@;
            dst.push(0x5b);
            let ghost full = views_of(*items);
            let n = items.len();
            let mut i: usize = 0;
            proof {
                assert(full.subrange(0, n as int) =~= full);
                assert(dst@ =~= pre + seq![0x5bu8]);
            }
            while i < n
                invariant
                    0 <= i <= n == items@.len(),
                    full == views_of(*items),
                    dst@ + sp_ser_items(full.subrange(i as int, n as int)) == pre + seq![0x5bu8]
                        + sp_ser_items(full),
                decreases n - i,
            {
                let ghost mid = dst@;
                let ghost rest = full.subrange(i as int, n as int);
                proof {
                    assert(rest[0] == full[i as int]);
                    assert(rest.subrange(1, rest.len() as int) =~= full.subrange(
                        i as int + 1,
                        n as int,
                    ));
                    assert(decreases_to!(*j => (*j)->Arr_0));
                    assert((*j)->Arr_0 == *items);
                    assert(decreases_to!(*items => items[i as int]));
                }
                json_serialize_into(dst, &items[i]);
                if i + 1 < n {
                    dst.push(0x2c);
                    proof {
                        assert(dst@ =~= mid + (sp_ser(full[i as int]) + seq![0x2cu8]));
                        assert(mid + (sp_ser(full[i as int]) + seq![0x2cu8] + sp_ser_items(
                            full.subrange(i as int + 1, n as int),
                        )) =~= (mid + (sp_ser(full[i as int]) + seq![0x2cu8])) + sp_ser_items(
                            full.subrange(i as int + 1, n as int),
                        ));
                    }
                } else {
                    proof {
                        assert(rest.len() == 1);
                        assert(full.subrange(n as int, n as int) =~= Seq::<JsonV>::empty());
                        assert(dst@ + Seq::<u8>::empty() =~= dst@);
                        assert(mid + (sp_ser(full[i as int]) + Seq::<u8>::empty()) =~= mid
                            + sp_ser(full[i as int]));
                    }
                }
                i += 1;
            }
            dst.push(0x5d);
            proof {
                assert(full.subrange(n as int, n as int) =~= Seq::<JsonV>::empty());
                assert(dst@ =~= pre + (seq![0x5bu8] + sp_ser_items(full) + seq![0x5du8]));
            }
        },
        Json::Obj(entries) => {
            let ghost pre = dst@;
            dst.push(0x7b);
            let ghost full = entry_views_of(*entries);
            let n = entries.len();
            let mut i: usize = 0;
            proof {
                assert(full.subrange(0, n as int) =~= full);
                assert(dst@ =~= pre + seq![0x7bu8]);
            }
            while i < n
                invariant
                    0 <= i <= n == entries@.len(),
                    full == entry_views_of(*entries),
                    dst@ + sp_ser_members(full.subrange(i as int, n as int)) == pre + seq![0x7bu8]
                        + sp_ser_members(full),
                decreases n - i,
            {
                let ghost mid = dst@;
                let ghost rest = full.subrange(i as int, n as int);
                let ghost entry = seq![0x22u8] + sp_escape(full[i as int].0) + seq![
                    0x22u8,
                    0x3au8,
                ] + sp_ser(full[i as int].1);
                proof {
                    assert(rest[0] == full[i as int]);
                    assert(rest.subrange(1, rest.len() as int) =~= full.subrange(
                        i as int + 1,
                        n as int,
                    ));
                }
                let e = &entries[i];
                proof {
                    assert(decreases_to!(*j => (*j)->Obj_0));
                    assert((*j)->Obj_0 == *entries);
                    assert(decreases_to!(*entries => entries[i as int]));
                    assert(decreases_to!(entries[i as int] => entries[i as int].1));
                }
                dst.push(0x22);
                escape_into(dst, &e.0);
                dst.push(0x22);
                dst.push(0x3a);
                json_serialize_into(dst, &e.1);
                proof {
                    assert(dst@ =~= mid + entry);
                }
                if i + 1 < n {
                    dst.push(0x2c);
                    proof {
                        assert(dst@ =~= mid + (entry + seq![0x2cu8]));
                        assert(mid + (entry + seq![0x2cu8] + sp_ser_members(
                            full.subrange(i as int + 1, n as int),
                        )) =~= (mid + (entry + seq![0x2cu8])) + sp_ser_members(
                            full.subrange(i as int + 1, n as int),
                        ));
                    }
                } else {
                    proof {
                        assert(rest.len() == 1);
                        assert(full.subrange(n as int, n as int) =~= Seq::<(
                            Seq<u8>,
                            JsonV,
                        )>::empty());
                        assert(mid + (entry + Seq::<u8>::empty()) =~= mid + entry);
                    }
                }
                i += 1;
            }
            dst.push(0x7d);
            proof {
                assert(full.subrange(n as int, n as int) =~= Seq::<(Seq<u8>, JsonV)>::empty());
                assert(dst@ =~= pre + (seq![0x7bu8] + sp_ser_members(full) + seq![0x7du8]));
            }
        },
    }
}

/// Parse the whole of `s` as one JSON value: mirror of `sp_document`.
pub fn parse_document(s: &Vec<u8>) -> (r: Option<Json>)
    ensures
        match r {
            Some(j) => sp_document(s@) == Some(json_view(j)),
            None => sp_document(s@) is None,
        },
{
    let n = s.len();
    if n > MAX_FRAME_LEN {
        return None;
    }
    let st = skip_ws(s, 0);
    let fuel: usize = 2 * n + 2;
    match parse_value_at(s, st, fuel) {
        ParseOut::Found(v, e) => {
            if skip_ws(s, e) == n {
                Some(v)
            } else {
                None
            }
        },
        _ => None,
    }
}

} // verus!
