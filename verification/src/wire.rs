//! Interpretation of one complete wire frame per backend format: a
//! newline-delimited JSON object, one Server-Sent-Events block, or one
//! element batch of a streamed JSON array.

use vstd::prelude::*;
use crate::json::{
    copy_range, json_view, obj_field, parse_document, sp_document, sp_obj_field, views_of, is_ws,
    Json, JsonV,
};

verus! {

// Field names used by the three wire formats.
pub open spec fn key_response() -> Seq<u8> {
    seq![0x72u8, 0x65u8, 0x73u8, 0x70u8, 0x6fu8, 0x6eu8, 0x73u8, 0x65u8]
}

pub open spec fn key_done() -> Seq<u8> {
    seq![0x64u8, 0x6fu8, 0x6eu8, 0x65u8]
}

pub open spec fn key_choices() -> Seq<u8> {
    seq![0x63u8, 0x68u8, 0x6fu8, 0x69u8, 0x63u8, 0x65u8, 0x73u8]
}

pub open spec fn key_delta() -> Seq<u8> {
    seq![0x64u8, 0x65u8, 0x6cu8, 0x74u8, 0x61u8]
}

pub open spec fn key_content() -> Seq<u8> {
    seq![0x63u8, 0x6fu8, 0x6eu8, 0x74u8, 0x65u8, 0x6eu8, 0x74u8]
}

pub open spec fn key_candidates() -> Seq<u8> {
    seq![0x63u8, 0x61u8, 0x6eu8, 0x64u8, 0x69u8, 0x64u8, 0x61u8, 0x74u8, 0x65u8, 0x73u8]
}

pub open spec fn key_parts() -> Seq<u8> {
    seq![0x70u8, 0x61u8, 0x72u8, 0x74u8, 0x73u8]
}

pub open spec fn key_text() -> Seq<u8> {
    seq![0x74u8, 0x65u8, 0x78u8, 0x74u8]
}

/// The `data:` line prefix of a Server-Sent-Events frame.
pub open spec fn sse_data_prefix() -> Seq<u8> {
    seq![0x64u8, 0x61u8, 0x74u8, 0x61u8, 0x3au8]
}

/// The `[DONE]` sentinel payload that ends an SSE stream.
pub open spec fn sse_done_sentinel() -> Seq<u8> {
    seq![0x5bu8, 0x44u8, 0x4fu8, 0x4eu8, 0x45u8, 0x5du8]
}

fn key_response_vec() -> (v: Vec<u8>)
    ensures
        v@ == key_response(),
{
    let mut v: Vec<u8> = Vec::new();
    v.push(0x72);
    v.push(0x65);
    v.push(0x73);
    v.push(0x70);
    v.push(0x6f);
    v.push(0x6e);
    v.push(0x73);
    v.push(0x65);
    proof {
        assert(v@ =~= key_response());
    }
    v
}

fn key_done_vec() -> (v: Vec<u8>)
    ensures
        v@ == key_done(),
{
    let mut v: Vec<u8> = Vec::new();
    v.push(0x64);
    v.push(0x6f);
    v.push(0x6e);
    v.push(0x65);
    proof {
        assert(v@ =~= key_done());
    }
    v
}

fn key_choices_vec() -> (v: Vec<u8>)
    ensures
        v@ == key_choices(),
{
    let mut v: Vec<u8> = Vec::new();
    v.push(0x63);
    v.push(0x68);
    v.push(0x6f);
    v.push(0x69);
    v.push(0x63);
    v.push(0x65);
    v.push(0x73);
    proof {
        assert(v@ =~= key_choices());
    }
    v
}

fn key_delta_vec() -> (v: Vec<u8>)
    ensures
        v@ == key_delta(),
{
    let mut v: Vec<u8> = Vec::new();
    v.push(0x64);
    v.push(0x65);
    v.push(0x6c);
    v.push(0x74);
    v.push(0x61);
    proof {
        assert(v@ =~= key_delta());
    }
    v
}

pub(crate) fn key_content_vec() -> (v: Vec<u8>)
    ensures
        v@ == key_content(),
{
    let mut v: Vec<u8> = Vec::new();
    v.push(0x63);
    v.push(0x6f);
    v.push(0x6e);
    v.push(0x74);
    v.push(0x65);
    v.push(0x6e);
    v.push(0x74);
    proof {
        assert(v@ =~= key_content());
    }
    v
}

pub(crate) fn key_candidates_vec() -> (v: Vec<u8>)
    ensures
        v@ == key_candidates(),
{
    let mut v: Vec<u8> = Vec::new();
    v.push(0x63);
    v.push(0x61);
    v.push(0x6e);
    v.push(0x64);
    v.push(0x69);
    v.push(0x64);
    v.push(0x61);
    v.push(0x74);
    v.push(0x65);
    v.push(0x73);
    proof {
        assert(v@ =~= key_candidates());
    }
    v
}

pub(crate) fn key_parts_vec() -> (v: Vec<u8>)
    ensures
        v@ == key_parts(),
{
    let mut v: Vec<u8> = Vec::new();
    v.push(0x70);
    v.push(0x61);
    v.push(0x72);
    v.push(0x74);
    v.push(0x73);
    proof {
        assert(v@ =~= key_parts());
    }
    v
}

pub(crate) fn key_text_vec() -> (v: Vec<u8>)
    ensures
        v@ == key_text(),
{
    let mut v: Vec<u8> = Vec::new();
    v.push(0x74);
    v.push(0x65);
    v.push(0x78);
    v.push(0x74);
    proof {
        assert(v@ =~= key_text());
    }
    v
}

// ---------------------------------------------------------------------------
// Newline-delimited JSON: one object per line with a text field and an
// end-of-stream flag.

/// What one complete line contributes: a chunk to emit (never empty) and
/// whether the stream is finished.  The line must be a JSON object; its
/// `response`, if present, must be a string, and its `done`, if present,
/// must be a boolean (absent means the stream stays open).  Any other line
/// is skipped whole, deliberately: a malformed field voids the entire line,
/// so a `done` beside a non-string `response` does not end the stream, and a
/// line that is not valid JSON at all does not fail the stream either - the
/// next line gets its chance.  This keeps one garbled line from either
/// ending or killing an otherwise healthy stream.
pub open spec fn sp_line_eval(line: Seq<u8>) -> (Option<Seq<u8>>, bool) {
    match sp_document(line) {
        Some(JsonV::Obj(ms)) => {
            let done = match sp_obj_field(ms, key_done()) {
                None => Some(false),
                Some(JsonV::Bool(d)) => Some(d),
                Some(_) => None,
            };
            match done {
                None => (None, false),
                Some(d) => match sp_obj_field(ms, key_response()) {
                    None => (None, d),
                    Some(JsonV::Str(t)) => if t.len() > 0 {
                        (Some(t), d)
                    } else {
                        (None, d)
                    },
                    Some(_) => (None, false),
                },
            }
        },
        _ => (None, false),
    }
}

/// Mirror of `sp_line_eval`.
pub fn line_eval(line: &Vec<u8>) -> (r: (Option<Vec<u8>>, bool))
    ensures
        r.1 == sp_line_eval(line@).1,
        match r.0 {
            Some(t) => sp_line_eval(line@).0 == Some(t@) && t@.len() > 0,
            None => sp_line_eval(line@).0 is None,
        },
{
    let doc = parse_document(line);
    match doc {
        Some(Json::Obj(ms)) => {
            let kd = key_done_vec();
            let done_field: Option<bool> = match obj_field(&ms, &kd) {
                None => Some(false),
                Some(Json::Bool(d)) => Some(*d),
                Some(_) => None,
            };
            match done_field {
                None => (None, false),
                Some(done) => {
                    let kr = key_response_vec();
                    match obj_field(&ms, &kr) {
                        None => (None, done),
                        Some(Json::Str(t)) => if t.len() > 0 {
                            (Some(copy_range(t, 0, t.len())), done)
                        } else {
                            (None, done)
                        },
                        Some(_) => (None, false),
                    }
                },
            }
        },
        _ => (None, false),
    }
}

// ---------------------------------------------------------------------------
// Server-Sent Events: a frame is one event block; its `data:` lines carry
// JSON payloads shaped `{"choices":[{"delta":{"content": ...}}, ...]}`.

/// What one SSE event block yields.
pub enum EventOutV {
    Chunk(Seq<u8>),
    Nothing,
    Done,
}

/// What one `data:` line within a block contributes.
pub enum SseLineV {
    Text(Seq<u8>),
    Skip,
    Bad,
    Done,
}

/// Concatenated `delta.content` texts of the `choices` of one payload, or
/// `None` if the payload is not shaped as expected.
pub open spec fn sp_choices_text(cs: Seq<JsonV>) -> Option<Seq<u8>>
    decreases cs.len(),
{
    if cs.len() == 0 {
        Some(Seq::empty())
    } else {
        match cs[0] {
            JsonV::Obj(cm) => match sp_obj_field(cm, key_delta()) {
                Some(JsonV::Obj(dm)) => {
                    let head = match sp_obj_field(dm, key_content()) {
                        None => Some(Seq::<u8>::empty()),
                        Some(JsonV::Null) => Some(Seq::<u8>::empty()),
                        Some(JsonV::Str(t)) => Some(t),
                        Some(_) => None,
                    };
                    match (head, sp_choices_text(cs.drop_first())) {
                        (Some(h), Some(r)) => Some(h + r),
                        _ => None,
                    }
                },
                _ => None,
            },
            _ => None,
        }
    }
}

/// Text carried by one SSE JSON payload, or `None` if it is malformed.
pub open spec fn sp_sse_payload_text(v: JsonV) -> Option<Seq<u8>> {
    match v {
        JsonV::Obj(ms) => match sp_obj_field(ms, key_choices()) {
            Some(JsonV::Arr(cs)) => sp_choices_text(cs),
            _ => None,
        },
        _ => None,
    }
}

/// Leading and trailing ASCII whitespace removed.
pub open spec fn sp_trim(s: Seq<u8>) -> Seq<u8>
    decreases s.len(),
{
    if s.len() == 0 {
        s
    } else if is_ws(s[0]) {
        sp_trim(s.drop_first())
    } else if is_ws(s.last()) {
        sp_trim(s.drop_last())
    } else {
        s
    }
}

/// The trimmed payload of a `data:` line (its trailing carriage return
/// stripped first), or `None` for any other line.
pub open spec fn sp_sse_payload_of(line0: Seq<u8>) -> Option<Seq<u8>> {
    let line = if line0.len() > 0 && line0.last() == 0x0d {
        line0.drop_last()
    } else {
        line0
    };
    if line.len() >= 5 && line.subrange(0, 5) == sse_data_prefix() {
        Some(sp_trim(line.skip(5)))
    } else {
        None
    }
}

/// What one line of an SSE block contributes.  Lines without the `data:`
/// prefix are ignored; `[DONE]` ends the stream; a payload that fails to
/// parse or is shaped wrongly spoils the whole block.
pub open spec fn sp_sse_line(line0: Seq<u8>) -> SseLineV {
    match sp_sse_payload_of(line0) {
        None => SseLineV::Skip,
        Some(payload) => if payload == sse_done_sentinel() {
            SseLineV::Done
        } else if payload.len() == 0 {
            SseLineV::Skip
        } else {
            match sp_document(payload) {
                Some(v) => match sp_sse_payload_text(v) {
                    Some(t) => SseLineV::Text(t),
                    None => SseLineV::Bad,
                },
                None => SseLineV::Bad,
            }
        },
    }
}

/// Index of the first newline byte at or after `i`, or the length.
pub open spec fn sp_find_nl(s: Seq<u8>, i: int) -> int
    decreases s.len() - i,
{
    if i < 0 || i >= s.len() {
        i
    } else if s[i] == 0x0a {
        i
    } else {
        sp_find_nl(s, i + 1)
    }
}

/// Walk the lines of an event block from `i` on, accumulating text.
pub open spec fn sp_sse_from(event: Seq<u8>, i: int, acc: Seq<u8>) -> EventOutV
    decreases event.len() - i,
{
    if i < 0 || i >= event.len() {
        if acc.len() > 0 {
            EventOutV::Chunk(acc)
        } else {
            EventOutV::Nothing
        }
    } else {
        let k0 = sp_find_nl(event, i);
        let k = if k0 < i {
            i
        } else if k0 > event.len() {
            event.len() as int
        } else {
            k0
        };
        let nxt = if k + 1 > event.len() {
            event.len() as int
        } else {
            k + 1
        };
        let line = event.subrange(i, k);
        match sp_sse_line(line) {
            SseLineV::Done => EventOutV::Done,
            SseLineV::Bad => EventOutV::Nothing,
            SseLineV::Text(t) => sp_sse_from(event, nxt, acc + t),
            SseLineV::Skip => sp_sse_from(event, nxt, acc),
        }
    }
}

/// What one complete SSE event block yields.
pub open spec fn sp_event_eval(event: Seq<u8>) -> EventOutV {
    sp_sse_from(event, 0, Seq::empty())
}

pub enum SseEventOut {
    Chunk(Vec<u8>),
    Nothing,
    Done,
}

fn find_nl(s: &Vec<u8>, i: usize) -> (r: usize)
    requires
        i <= s@.len(),
    ensures
        r as int == sp_find_nl(s@, i as int),
        i <= r <= s@.len(),
{
    let n = s.len();
    let mut j = i;
    while j < n && s[j] != 0x0a
        invariant
            i <= j <= n == s@.len(),
            sp_find_nl(s@, i as int) == sp_find_nl(s@, j as int),
        decreases n - j,
    {
        j += 1;
    }
    j
}

/// Mirror of `sp_trim`.
pub fn trim(s: &Vec<u8>) -> (r: Vec<u8>)
    ensures
        r@ == sp_trim(s@),
{
    let n = s.len();
    let mut lo: usize = 0;
    let mut hi: usize = n;
    proof {
        assert(s@.subrange(0, n as int) =~= s@);
    }
    while lo < hi && (s[lo] == 0x20 || s[lo] == 0x09 || s[lo] == 0x0a || s[lo] == 0x0d)
        invariant
            0 <= lo <= hi <= n == s@.len(),
            sp_trim(s@) == sp_trim(s@.subrange(lo as int, hi as int)),
        decreases hi - lo,
    {
        proof {
            let cur = s@.subrange(lo as int, hi as int);
            assert(cur.drop_first() =~= s@.subrange(lo as int + 1, hi as int));
        }
        lo += 1;
    }
    while lo < hi && (s[hi - 1] == 0x20 || s[hi - 1] == 0x09 || s[hi - 1] == 0x0a || s[hi - 1]
        == 0x0d)
        invariant
            0 <= lo <= hi <= n == s@.len(),
            sp_trim(s@) == sp_trim(s@.subrange(lo as int, hi as int)),
            lo < hi ==> !is_ws(s@[lo as int]),
        decreases hi - lo,
    {
        proof {
            let cur = s@.subrange(lo as int, hi as int);
            assert(cur.drop_last() =~= s@.subrange(lo as int, hi as int - 1));
        }
        hi -= 1;
    }
    proof {
        let cur = s@.subrange(lo as int, hi as int);
        assert(sp_trim(cur) == cur);
    }
    copy_range(s, lo, hi)
}

/// Mirror of `sp_sse_payload_of`.
#[verifier::rlimit(50)]
fn sse_payload_of(line0: &Vec<u8>) -> (r: Option<Vec<u8>>)
    ensures
        match r {
            Some(p) => sp_sse_payload_of(line0@) == Some(p@),
            None => sp_sse_payload_of(line0@) is None,
        },
{
    let n0 = line0.len();
    let end = if n0 > 0 && line0[n0 - 1] == 0x0d {
        n0 - 1
    } else {
        n0
    };
    proof {
        if end < n0 {
            assert(line0@.drop_last() =~= line0@.subrange(0, end as int));
        } else {
            assert(line0@ =~= line0@.subrange(0, end as int));
        }
    }
    let ghost line = line0@.subrange(0, end as int);
    if end < 5 {
        return None;
    }
    if !(line0[0] == 0x64 && line0[1] == 0x61 && line0[2] == 0x74 && line0[3] == 0x61 && line0[4]
        == 0x3a) {
        proof {
            assert(line.subrange(0, 5) != sse_data_prefix());
        }
        return None;
    }
    proof {
        assert(line.subrange(0, 5) =~= sse_data_prefix());
    }
    let raw = copy_range(line0, 5, end);
    proof {
        assert(raw@ =~= line.skip(5));
    }
    Some(trim(&raw))
}

/// Mirror of `sp_sse_line`.
#[verifier::rlimit(50)]
fn sse_line_eval(line0: &Vec<u8>) -> (r: SseEventLineOut)
    ensures
        match r {
            SseEventLineOut::Text(t) => sp_sse_line(line0@) == SseLineV::Text(t@),
            SseEventLineOut::Skip => sp_sse_line(line0@) is Skip,
            SseEventLineOut::Bad => sp_sse_line(line0@) is Bad,
            SseEventLineOut::Done => sp_sse_line(line0@) is Done,
        },
{
    let payload = match sse_payload_of(line0) {
        None => {
            return SseEventLineOut::Skip;
        },
        Some(p) => p,
    };
    let is_done = payload.len() == 6 && payload[0] == 0x5b && payload[1] == 0x44 && payload[2]
        == 0x4f && payload[3] == 0x4e && payload[4] == 0x45 && payload[5] == 0x5d;
    proof {
        if is_done {
            assert(payload@ =~= sse_done_sentinel());
        } else {
            assert(payload@ != sse_done_sentinel());
        }
    }
    if is_done {
        return SseEventLineOut::Done;
    }
    if payload.len() == 0 {
        return SseEventLineOut::Skip;
    }
    match parse_document(&payload) {
        Some(v) => match sse_payload_text(&v) {
            Some(t) => SseEventLineOut::Text(t),
            None => SseEventLineOut::Bad,
        },
        None => SseEventLineOut::Bad,
    }
}

pub enum SseEventLineOut {
    Text(Vec<u8>),
    Skip,
    Bad,
    Done,
}

/// Mirror of `sp_sse_payload_text`.
fn sse_payload_text(v: &Json) -> (r: Option<Vec<u8>>)
    ensures
        match r {
            Some(t) => sp_sse_payload_text(json_view(*v)) == Some(t@),
            None => sp_sse_payload_text(json_view(*v)) is None,
        },
{
    match v {
        Json::Obj(ms) => {
            let kc = key_choices_vec();
            match obj_field(ms, &kc) {
                Some(Json::Arr(cs)) => choices_text(cs),
                _ => None,
            }
        },
        _ => None,
    }
}

/// Mirror of `sp_choices_text`.
fn choices_text(cs: &Vec<Json>) -> (r: Option<Vec<u8>>)
    ensures
        match r {
            Some(t) => sp_choices_text(views_of(*cs)) == Some(t@),
            None => sp_choices_text(views_of(*cs)) is None,
        },
{
    let ghost full = views_of(*cs);
    let n = cs.len();
    let mut acc: Vec<u8> = Vec::new();
    let mut i: usize = 0;
    proof {
        assert(full.skip(0) =~= full);
    }
    while i < n
        invariant
            0 <= i <= n == cs@.len(),
            full == views_of(*cs),
            match sp_choices_text(full.skip(i as int)) {
                Some(rest) => sp_choices_text(full) == Some(acc@ + rest),
                None => sp_choices_text(full) is None,
            },
        decreases n - i,
    {
        proof {
            assert(full.skip(i as int)[0] == full[i as int]);
            assert(full.skip(i as int).drop_first() =~= full.skip(i as int + 1));
        }
        let head: Option<Vec<u8>> = match &cs[i] {
            Json::Obj(cm) => {
                let kd = key_delta_vec();
                match obj_field(cm, &kd) {
                    Some(Json::Obj(dm)) => {
                        let kc = key_content_vec();
                        match obj_field(dm, &kc) {
                            None => Some(Vec::new()),
                            Some(Json::Null) => Some(Vec::new()),
                            Some(Json::Str(t)) => Some(copy_range(t, 0, t.len())),
                            Some(_) => None,
                        }
                    },
                    _ => None,
                }
            },
            _ => None,
        };
        match head {
            None => {
                return None;
            },
            Some(mut h) => {
                let ghost acc0 = acc@;
                let ghost h0 = h@;
                acc.append(&mut h);
                proof {
                    if sp_choices_text(full.skip(i as int + 1)) is Some {
                        let rest = sp_choices_text(full.skip(i as int + 1)).unwrap();
                        assert(acc0 + (h0 + rest) =~= (acc0 + h0) + rest);
                    }
                }
            },
        }
        i += 1;
    }
    proof {
        assert(full.skip(n as int) =~= Seq::<JsonV>::empty());
        assert(acc@ + Seq::<u8>::empty() =~= acc@);
    }
    Some(acc)
}

/// Mirror of `sp_event_eval`.
pub fn event_eval(event: &Vec<u8>) -> (r: SseEventOut)
    ensures
        match r {
            SseEventOut::Chunk(t) => sp_event_eval(event@) == EventOutV::Chunk(t@) && t@.len() > 0,
            SseEventOut::Nothing => sp_event_eval(event@) is Nothing,
            SseEventOut::Done => sp_event_eval(event@) is Done,
        },
{
    let n = event.len();
    let mut acc: Vec<u8> = Vec::new();
    let mut i: usize = 0;
    while i < n
        invariant
            0 <= i <= n == event@.len(),
            sp_event_eval(event@) == sp_sse_from(event@, i as int, acc@),
        decreases n - i,
    {
        let k = find_nl(event, i);
        let line = copy_range(event, i, k);
        match sse_line_eval(&line) {
            SseEventLineOut::Done => {
                return SseEventOut::Done;
            },
            SseEventLineOut::Bad => {
                return SseEventOut::Nothing;
            },
            SseEventLineOut::Text(mut t) => {
                let ghost acc0 = acc@;
                let ghost t0 = t@;
                acc.append(&mut t);
                proof {
                    assert(acc@ =~= acc0 + t0);
                }
                if k >= n {
                    proof {
                        assert(sp_sse_from(event@, k as int + 1, acc@) == sp_sse_from(
                            event@,
                            n as int,
                            acc@,
                        ));
                    }
                    i = n;
                } else {
                    i = k + 1;
                }
            },
            SseEventLineOut::Skip => {
                if k >= n {
                    proof {
                        assert(sp_sse_from(event@, k as int + 1, acc@) == sp_sse_from(
                            event@,
                            n as int,
                            acc@,
                        ));
                    }
                    i = n;
                } else {
                    i = k + 1;
                }
            },
        }
    }
    if acc.len() > 0 {
        SseEventOut::Chunk(acc)
    } else {
        SseEventOut::Nothing
    }
}

// ---------------------------------------------------------------------------
// Fragmented JSON array: a frame is one complete top-level array whose
// elements may carry `candidates[].content.parts[].text`.

/// Concatenated texts of the `parts` of one candidate's content, or `None`
/// if a part lacks a string `text`.
pub open spec fn sp_parts_text(ps: Seq<JsonV>) -> Option<Seq<u8>>
    decreases ps.len(),
{
    if ps.len() == 0 {
        Some(Seq::empty())
    } else {
        match ps[0] {
            JsonV::Obj(pm) => match sp_obj_field(pm, key_text()) {
                Some(JsonV::Str(t)) => match sp_parts_text(ps.drop_first()) {
                    Some(r) => Some(t + r),
                    None => None,
                },
                _ => None,
            },
            _ => None,
        }
    }
}

/// Concatenated texts of a candidate list; `content` and `parts` may be
/// absent or null, which contributes nothing.
pub open spec fn sp_cands_text(cs: Seq<JsonV>) -> Option<Seq<u8>>
    decreases cs.len(),
{
    if cs.len() == 0 {
        Some(Seq::empty())
    } else {
        match cs[0] {
            JsonV::Obj(cm) => {
                let head = match sp_obj_field(cm, key_content()) {
                    None => Some(Seq::<u8>::empty()),
                    Some(JsonV::Null) => Some(Seq::<u8>::empty()),
                    Some(JsonV::Obj(km)) => match sp_obj_field(km, key_parts()) {
                        None => Some(Seq::<u8>::empty()),
                        Some(JsonV::Null) => Some(Seq::<u8>::empty()),
                        Some(JsonV::Arr(ps)) => sp_parts_text(ps),
                        Some(_) => None,
                    },
                    Some(_) => None,
                };
                match (head, sp_cands_text(cs.drop_first())) {
                    (Some(h), Some(r)) => Some(h + r),
                    _ => None,
                }
            },
            _ => None,
        }
    }
}

/// Concatenated texts of the elements of one array frame; each element must
/// be an object, whose `candidates`, if present, is an array of objects.
pub open spec fn sp_frag_elems(es: Seq<JsonV>) -> Option<Seq<u8>>
    decreases es.len(),
{
    if es.len() == 0 {
        Some(Seq::empty())
    } else {
        match es[0] {
            JsonV::Obj(em) => {
                let head = match sp_obj_field(em, key_candidates()) {
                    None => Some(Seq::<u8>::empty()),
                    Some(JsonV::Null) => Some(Seq::<u8>::empty()),
                    Some(JsonV::Arr(cs)) => sp_cands_text(cs),
                    Some(_) => None,
                };
                match (head, sp_frag_elems(es.drop_first())) {
                    (Some(h), Some(r)) => Some(h + r),
                    _ => None,
                }
            },
            _ => None,
        }
    }
}

/// Text carried by one complete array frame, or `None` for a frame that is
/// not shaped as the wire format promises (a terminal decode failure).
pub open spec fn sp_frag_eval(frame: Seq<u8>) -> Option<Seq<u8>> {
    match sp_document(frame) {
        Some(JsonV::Arr(es)) => sp_frag_elems(es),
        _ => None,
    }
}

/// Mirror of `sp_parts_text`.
fn parts_text(ps: &Vec<Json>) -> (r: Option<Vec<u8>>)
    ensures
        match r {
            Some(t) => sp_parts_text(views_of(*ps)) == Some(t@),
            None => sp_parts_text(views_of(*ps)) is None,
        },
{
    let ghost full = views_of(*ps);
    let n = ps.len();
    let mut acc: Vec<u8> = Vec::new();
    let mut i: usize = 0;
    proof {
        assert(full.skip(0) =~= full);
    }
    while i < n
        invariant
            0 <= i <= n == ps@.len(),
            full == views_of(*ps),
            match sp_parts_text(full.skip(i as int)) {
                Some(rest) => sp_parts_text(full) == Some(acc@ + rest),
                None => sp_parts_text(full) is None,
            },
        decreases n - i,
    {
        proof {
            assert(full.skip(i as int)[0] == full[i as int]);
            assert(full.skip(i as int).drop_first() =~= full.skip(i as int + 1));
        }
        let head: Option<Vec<u8>> = match &ps[i] {
            Json::Obj(pm) => {
                let kt = key_text_vec();
                match obj_field(pm, &kt) {
                    Some(Json::Str(t)) => Some(copy_range(t, 0, t.len())),
                    _ => None,
                }
            },
            _ => None,
        };
        match head {
            None => {
                return None;
            },
            Some(mut h) => {
                let ghost acc0 = acc@;
                let ghost h0 = h@;
                acc.append(&mut h);
                proof {
                    if sp_parts_text(full.skip(i as int + 1)) is Some {
                        let rest = sp_parts_text(full.skip(i as int + 1)).unwrap();
                        assert(acc0 + (h0 + rest) =~= (acc0 + h0) + rest);
                    }
                }
            },
        }
        i += 1;
    }
    proof {
        assert(full.skip(n as int) =~= Seq::<JsonV>::empty());
        assert(acc@ + Seq::<u8>::empty() =~= acc@);
    }
    Some(acc)
}

/// Mirror of `sp_cands_text`.
fn cands_text(cs: &Vec<Json>) -> (r: Option<Vec<u8>>)
    ensures
        match r {
            Some(t) => sp_cands_text(views_of(*cs)) == Some(t@),
            None => sp_cands_text(views_of(*cs)) is None,
        },
{
    let ghost full = views_of(*cs);
    let n = cs.len();
    let mut acc: Vec<u8> = Vec::new();
    let mut i: usize = 0;
    proof {
        assert(full.skip(0) =~= full);
    }
    while i < n
        invariant
            0 <= i <= n == cs@.len(),
            full == views_of(*cs),
            match sp_cands_text(full.skip(i as int)) {
                Some(rest) => sp_cands_text(full) == Some(acc@ + rest),
                None => sp_cands_text(full) is None,
            },
        decreases n - i,
    {
        proof {
            assert(full.skip(i as int)[0] == full[i as int]);
            assert(full.skip(i as int).drop_first() =~= full.skip(i as int + 1));
        }
        let head: Option<Vec<u8>> = match &cs[i] {
            Json::Obj(cm) => {
                let kc = key_content_vec();
                match obj_field(cm, &kc) {
                    None => Some(Vec::new()),
                    Some(Json::Null) => Some(Vec::new()),
                    Some(Json::Obj(km)) => {
                        let kp = key_parts_vec();
                        match obj_field(km, &kp) {
                            None => Some(Vec::new()),
                            Some(Json::Null) => Some(Vec::new()),
                            Some(Json::Arr(ps)) => parts_text(ps),
                            Some(_) => None,
                        }
                    },
                    Some(_) => None,
                }
            },
            _ => None,
        };
        match head {
            None => {
                return None;
            },
            Some(mut h) => {
                let ghost acc0 = acc@;
                let ghost h0 = h@;
                acc.append(&mut h);
                proof {
                    if sp_cands_text(full.skip(i as int + 1)) is Some {
                        let rest = sp_cands_text(full.skip(i as int + 1)).unwrap();
                        assert(acc0 + (h0 + rest) =~= (acc0 + h0) + rest);
                    }
                }
            },
        }
        i += 1;
    }
    proof {
        assert(full.skip(n as int) =~= Seq::<JsonV>::empty());
        assert(acc@ + Seq::<u8>::empty() =~= acc@);
    }
    Some(acc)
}

/// Mirror of `sp_frag_elems`.
fn frag_elems(es: &Vec<Json>) -> (r: Option<Vec<u8>>)
    ensures
        match r {
            Some(t) => sp_frag_elems(views_of(*es)) == Some(t@),
            None => sp_frag_elems(views_of(*es)) is None,
        },
{
    let ghost full = views_of(*es);
    let n = es.len();
    let mut acc: Vec<u8> = Vec::new();
    let mut i: usize = 0;
    proof {
        assert(full.skip(0) =~= full);
    }
    while i < n
        invariant
            0 <= i <= n == es@.len(),
            full == views_of(*es),
            match sp_frag_elems(full.skip(i as int)) {
                Some(rest) => sp_frag_elems(full) == Some(acc@ + rest),
                None => sp_frag_elems(full) is None,
            },
        decreases n - i,
    {
        proof {
            assert(full.skip(i as int)[0] == full[i as int]);
            assert(full.skip(i as int).drop_first() =~= full.skip(i as int + 1));
        }
        let head: Option<Vec<u8>> = match &es[i] {
            Json::Obj(em) => {
                let kc = key_candidates_vec();
                match obj_field(em, &kc) {
                    None => Some(Vec::new()),
                    Some(Json::Null) => Some(Vec::new()),
                    Some(Json::Arr(cs)) => cands_text(cs),
                    Some(_) => None,
                }
            },
            _ => None,
        };
        match head {
            None => {
                return None;
            },
            Some(mut h) => {
                let ghost acc0 = acc@;
                let ghost h0 = h@;
                acc.append(&mut h);
                proof {
                    if sp_frag_elems(full.skip(i as int + 1)) is Some {
                        let rest = sp_frag_elems(full.skip(i as int + 1)).unwrap();
                        assert(acc0 + (h0 + rest) =~= (acc0 + h0) + rest);
                    }
                }
            },
        }
        i += 1;
    }
    proof {
        assert(full.skip(n as int) =~= Seq::<JsonV>::empty());
        assert(acc@ + Seq::<u8>::empty() =~= acc@);
    }
    Some(acc)
}

/// Mirror of `sp_frag_eval`.
pub fn frag_eval(frame: &Vec<u8>) -> (r: Option<Vec<u8>>)
    ensures
        match r {
            Some(t) => sp_frag_eval(frame@) == Some(t@),
            None => sp_frag_eval(frame@) is None,
        },
{
    match parse_document(frame) {
        Some(Json::Arr(es)) => frag_elems(&es),
        _ => None,
    }
}

} // verus!
