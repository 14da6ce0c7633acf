//! Tracked sessions and the decoder for the session body.
//!
//! The body is a JSON array of session records.  A record carries a
//! required non-negative integer `id`, a required wire timestamp `start`,
//! an optional wire timestamp `end` (absent means the session is still
//! open), a required array of string `tags`, and an optional string (or
//! null) `annotation`.  Unknown members are skipped; duplicate members are
//! refused; wire timestamps are decoded to local wall-clock time.

use vstd::prelude::*;

use core::cmp::Ordering;
use vstd::std_specs::cmp::PartialOrdSpec;
use crate::error::ReportError;
use crate::json::parse_string_body;
use crate::json::parse_uint_from;
use crate::json::scan_string;
use crate::json::scan_uint;
use crate::json::scan_value;
use crate::json::skip_value;
use crate::json::skip_ws;
use crate::json::ws_end;
use crate::time::clock_of_wire;
use crate::time::is_digit;
use crate::time::timestamp_wf;
use crate::time::wire_ok;
use crate::time::Timestamp;
use crate::time::WallClock;

verus! {

/// The mathematical reading of one decoded session record: the UTC wall
/// clocks it names and its plain values.
pub struct SessionModel {
    pub id: int,
    pub start: WallClock,
    pub end: Option<WallClock>,
    pub tags: Seq<Seq<char>>,
    pub annotation: Option<Seq<char>>,
}

/// The fields gathered while walking the members of one record.
pub struct PartialSession {
    pub id: Option<int>,
    pub start: Option<WallClock>,
    pub end: Option<WallClock>,
    pub tags: Option<Seq<Seq<char>>>,
    pub annotation: Option<Seq<char>>,
    pub annotation_seen: bool,
}

pub open spec fn empty_partial() -> PartialSession {
    PartialSession {
        id: None,
        start: None,
        end: None,
        tags: None,
        annotation: None,
        annotation_seen: false,
    }
}

/// A record is complete once `id`, `start` and `tags` have been seen.
pub open spec fn finish_partial(acc: PartialSession) -> Option<SessionModel> {
    if acc.id is Some && acc.start is Some && acc.tags is Some {
        Some(
            SessionModel {
                id: acc.id->0,
                start: acc.start->0,
                end: acc.end,
                tags: acc.tags->0,
                annotation: acc.annotation,
            },
        )
    } else {
        None
    }
}

pub open spec fn strs_view(v: Seq<String>) -> Seq<Seq<char>> {
    v.map_values(|x: String| x@)
}

/// A wall clock a wire timestamp can denote: a real date in a four-digit
/// year.
pub open spec fn clock_wf(w: WallClock) -> bool {
    crate::time::valid_clock(w) && 0 <= w.year <= 9999
}

/// The wall clocks of a decoded record are ones wire timestamps denote.
pub open spec fn ws_wf(w: WireSession) -> bool {
    clock_wf(w.start) && (w.end matches Some(e) ==> clock_wf(e))
}

spec fn px_wf(p: PartialX) -> bool {
    (p.start matches Some(w) ==> clock_wf(w)) && (p.end matches Some(e) ==> clock_wf(e))
}

/// The tag strings of a `tags` array, the first element of which starts
/// exactly at `i`; consumes the closing bracket.
pub open spec fn parse_tag_items(s: Seq<char>, i: int, acc: Seq<Seq<char>>) -> Option<
    (Seq<Seq<char>>, int),
>
    decreases s.len() - i,
{
    if !(0 <= i < s.len() && s[i] == '"') {
        None
    } else {
        match parse_string_body(s, i + 1) {
            None => None,
            Some(p) => {
                if !(i < p.1 <= s.len()) {
                    None
                } else {
                    let m = skip_ws(s, p.1);
                    if m < s.len() && s[m] == ',' {
                        let n = skip_ws(s, m + 1);
                        if i < n {
                            parse_tag_items(s, n, acc.push(p.0))
                        } else {
                            None
                        }
                    } else if m < s.len() && s[m] == ']' {
                        Some((acc.push(p.0), m + 1))
                    } else {
                        None
                    }
                }
            },
        }
    }
}

/// The tag strings of a `tags` array whose opening bracket stands just
/// before `i`.
pub open spec fn parse_tags(s: Seq<char>, i: int) -> Option<(Seq<Seq<char>>, int)> {
    let j = skip_ws(s, i);
    if j < s.len() && s[j] == ']' {
        Some((Seq::empty(), j + 1))
    } else {
        parse_tag_items(s, j, Seq::empty())
    }
}

/// One member value at `v` under the decoded `key`, folded into `acc`.
pub open spec fn member_value(s: Seq<char>, v: int, key: Seq<char>, acc: PartialSession) -> Option<
    (PartialSession, int),
> {
    if key == "id"@ {
        if acc.id is Some {
            None
        } else if v < s.len() && is_digit(s[v]) && !(s[v] == '0' && v + 1 < s.len() && is_digit(
            s[v + 1],
        )) {
            match parse_uint_from(s, v, 0) {
                None => None,
                Some(p) => Some((PartialSession { id: Some(p.0), ..acc }, p.1)),
            }
        } else {
            None
        }
    } else if key == "start"@ {
        if acc.start is Some {
            None
        } else if v < s.len() && s[v] == '"' {
            match parse_string_body(s, v + 1) {
                None => None,
                Some(p) => if wire_ok(p.0) {
                    Some((PartialSession { start: Some(clock_of_wire(p.0)), ..acc }, p.1))
                } else {
                    None
                },
            }
        } else {
            None
        }
    } else if key == "end"@ {
        if acc.end is Some {
            None
        } else if v < s.len() && s[v] == '"' {
            match parse_string_body(s, v + 1) {
                None => None,
                Some(p) => if wire_ok(p.0) {
                    Some((PartialSession { end: Some(clock_of_wire(p.0)), ..acc }, p.1))
                } else {
                    None
                },
            }
        } else {
            None
        }
    } else if key == "tags"@ {
        if acc.tags is Some {
            None
        } else if v < s.len() && s[v] == '[' {
            match parse_tags(s, v + 1) {
                None => None,
                Some(p) => Some((PartialSession { tags: Some(p.0), ..acc }, p.1)),
            }
        } else {
            None
        }
    } else if key == "annotation"@ {
        if acc.annotation_seen {
            None
        } else if v < s.len() && s[v] == '"' {
            match parse_string_body(s, v + 1) {
                None => None,
                Some(p) => Some(
                    (PartialSession { annotation: Some(p.0), annotation_seen: true, ..acc }, p.1),
                ),
            }
        } else if 0 <= v && v + 4 <= s.len() && s[v] == 'n' && s[v + 1] == 'u' && s[v + 2] == 'l'
            && s[v + 3] == 'l' {
            Some((PartialSession { annotation: None, annotation_seen: true, ..acc }, v + 4))
        } else {
            None
        }
    } else {
        match skip_value(s, v) {
            None => None,
            Some(k) => Some((acc, k)),
        }
    }
}

/// The record that the members starting at `i` (at a key's opening quote)
/// complete, given the fields gathered so far; consumes the closing brace.
pub open spec fn parse_members(s: Seq<char>, i: int, acc: PartialSession) -> Option<
    (SessionModel, int),
>
    decreases s.len() - i,
{
    if !(0 <= i < s.len() && s[i] == '"') {
        None
    } else {
        match parse_string_body(s, i + 1) {
            None => None,
            Some(kp) => {
                if !(i < kp.1 <= s.len()) {
                    None
                } else {
                    let m = skip_ws(s, kp.1);
                    if !(m < s.len() && s[m] == ':') {
                        None
                    } else {
                        let v = skip_ws(s, m + 1);
                        if !(i < v) {
                            None
                        } else {
                            match member_value(s, v, kp.0, acc) {
                                None => None,
                                Some(st) => {
                                    if !(v < st.1 <= s.len()) {
                                        None
                                    } else {
                                        let q = skip_ws(s, st.1);
                                        if q < s.len() && s[q] == ',' {
                                            let n = skip_ws(s, q + 1);
                                            if i < n {
                                                parse_members(s, n, st.0)
                                            } else {
                                                None
                                            }
                                        } else if q < s.len() && s[q] == '}' {
                                            match finish_partial(st.0) {
                                                Some(m2) => Some((m2, q + 1)),
                                                None => None,
                                            }
                                        } else {
                                            None
                                        }
                                    }
                                },
                            }
                        }
                    }
                }
            },
        }
    }
}

/// The record of one session object whose opening brace stands at `i`.
pub open spec fn parse_record_at(s: Seq<char>, i: int) -> Option<(SessionModel, int)> {
    if !(0 <= i < s.len() && s[i] == '{') {
        None
    } else {
        let j = skip_ws(s, i + 1);
        parse_members(s, j, empty_partial())
    }
}

/// The records of the session array, the first object of which starts at
/// `i`; consumes the closing bracket.
pub open spec fn parse_session_items(s: Seq<char>, i: int, acc: Seq<SessionModel>) -> Option<
    (Seq<SessionModel>, int),
>
    decreases s.len() - i,
{
    match parse_record_at(s, i) {
        None => None,
        Some(p) => {
            if !(i < p.1 <= s.len()) {
                None
            } else {
                let q = skip_ws(s, p.1);
                if q < s.len() && s[q] == ',' {
                    let n = skip_ws(s, q + 1);
                    if i < n {
                        parse_session_items(s, n, acc.push(p.0))
                    } else {
                        None
                    }
                } else if q < s.len() && s[q] == ']' {
                    Some((acc.push(p.0), q + 1))
                } else {
                    None
                }
            }
        },
    }
}

/// The sessions denoted by a body text: one JSON array of session records
/// covering the whole text, whitespace aside.
pub open spec fn parse_body(s: Seq<char>) -> Option<Seq<SessionModel>> {
    let i = skip_ws(s, 0);
    if !(i < s.len() && s[i] == '[') {
        None
    } else {
        let j = skip_ws(s, i + 1);
        let r = if j < s.len() && s[j] == ']' {
            Some((Seq::<SessionModel>::empty(), j + 1))
        } else {
            parse_session_items(s, j, Seq::empty())
        };
        match r {
            None => None,
            Some(p) => if skip_ws(s, p.1) == s.len() {
                Some(p.0)
            } else {
                None
            },
        }
    }
}

/// The record denoted by a text holding one session object and nothing
/// else, whitespace aside.
pub open spec fn parse_record(s: Seq<char>) -> Option<SessionModel> {
    let i = skip_ws(s, 0);
    match parse_record_at(s, i) {
        None => None,
        Some(p) => if skip_ws(s, p.1) == s.len() {
            Some(p.0)
        } else {
            None
        },
    }
}

/// One decoded record before its timestamps are localized.
pub struct WireSession {
    pub id: usize,
    pub start: WallClock,
    pub end: Option<WallClock>,
    pub tags: Vec<String>,
    pub annotation: Option<String>,
}

/// The mathematical reading of a decoded record.
pub open spec fn ws_model(w: WireSession) -> SessionModel {
    SessionModel {
        id: w.id as int,
        start: w.start,
        end: w.end,
        tags: strs_view(w.tags@),
        annotation: match w.annotation {
            Some(a) => Some(a@),
            None => None,
        },
    }
}

struct PartialX {
    id: Option<usize>,
    start: Option<WallClock>,
    end: Option<WallClock>,
    tags: Option<Vec<String>>,
    annotation: Option<String>,
    annotation_seen: bool,
}

spec fn px_model(p: PartialX) -> PartialSession {
    PartialSession {
        id: match p.id {
            Some(v) => Some(v as int),
            None => None,
        },
        start: p.start,
        end: p.end,
        tags: match p.tags {
            Some(v) => Some(strs_view(v@)),
            None => None,
        },
        annotation: match p.annotation {
            Some(a) => Some(a@),
            None => None,
        },
        annotation_seen: p.annotation_seen,
    }
}

fn empty_px() -> (r: PartialX)
    ensures
        px_model(r) == empty_partial(),
{
    PartialX {
        id: None,
        start: None,
        end: None,
        tags: None,
        annotation: None,
        annotation_seen: false,
    }
}

fn is_key(key: &String, lit: &str) -> (r: bool)
    ensures
        r == (key@ == lit@),
{
    let l = String::from_str(lit);
    *key == l
}

fn scan_tag_items(s: &str, i: usize, acc: Vec<String>) -> (r: Option<(Vec<String>, usize)>)
    requires
        i <= s@.len() <= usize::MAX,
    ensures
        r is Some <==> parse_tag_items(s@, i as int, strs_view(acc@)) is Some,
        r is Some ==> ({
            let p = parse_tag_items(s@, i as int, strs_view(acc@))->0;
            strs_view((r->0).0@) == p.0 && (r->0).1 == p.1 && (i as int) < p.1 && p.1 <= s@.len()
        }),
    decreases s@.len() - i,
{
    let n = s.unicode_len();
    if !(i < n && s.get_char(i) == '"') {
        return None;
    }
    let mut tag = String::new();
    let j = match scan_string(s, i + 1, &mut tag) {
        Some(j) => j,
        None => {
            return None;
        },
    };
    let ghost tseq = (parse_string_body(s@, i as int + 1)->0).0;
    let mut acc2 = acc;
    acc2.push(tag);
    proof {
        assert(strs_view(acc2@) =~= strs_view(acc@).push(tseq));
    }
    let m = ws_end(s, j);
    if m < n && s.get_char(m) == ',' {
        let nx = ws_end(s, m + 1);
        scan_tag_items(s, nx, acc2)
    } else if m < n && s.get_char(m) == ']' {
        Some((acc2, m + 1))
    } else {
        None
    }
}

fn scan_tags(s: &str, i: usize) -> (r: Option<(Vec<String>, usize)>)
    requires
        0 < i <= s@.len() <= usize::MAX,
    ensures
        r is Some <==> parse_tags(s@, i as int) is Some,
        r is Some ==> ({
            let p = parse_tags(s@, i as int)->0;
            strs_view((r->0).0@) == p.0 && (r->0).1 == p.1 && p.1 <= s@.len()
        }),
{
    let n = s.unicode_len();
    let j = ws_end(s, i);
    if j < n && s.get_char(j) == ']' {
        proof {
            assert(strs_view(Seq::<String>::empty()) =~= Seq::<Seq<char>>::empty());
        }
        Some((Vec::new(), j + 1))
    } else {
        proof {
            assert(strs_view(Seq::<String>::empty()) =~= Seq::<Seq<char>>::empty());
        }
        scan_tag_items(s, j, Vec::new())
    }
}

fn scan_member_value(s: &str, v: usize, key: &String, acc: PartialX) -> (r: Result<
    (PartialX, usize),
    String,
>)
    requires
        0 < v <= s@.len() <= usize::MAX,
        px_wf(acc),
    ensures
        r is Ok <==> member_value(s@, v as int, key@, px_model(acc)) is Some,
        r is Ok ==> ({
            let p = member_value(s@, v as int, key@, px_model(acc))->0;
            px_model((r->Ok_0).0) == p.0 && (r->Ok_0).1 == p.1 && p.1 <= s@.len()
        }),
        r is Ok ==> px_wf((r->Ok_0).0),
{
    let n = s.unicode_len();
    if is_key(key, "id") {
        if acc.id.is_some() {
            return Err(String::from_str("duplicate field: id"));
        }
        if !(v < n && digit_at(s, v)) {
            return Err(String::from_str("invalid session id"));
        }
        if s.get_char(v) == '0' && v + 1 < n && digit_at(s, v + 1) {
            return Err(String::from_str("invalid session id"));
        }
        match scan_uint(s, v, 0) {
            Some(p) => Ok((PartialX { id: Some(p.0), ..acc }, p.1)),
            None => Err(String::from_str("session id out of range")),
        }
    } else if is_key(key, "start") {
        if acc.start.is_some() {
            return Err(String::from_str("duplicate field: start"));
        }
        match scan_stamp(s, v) {
            Ok(p) => Ok((PartialX { start: Some(p.0), ..acc }, p.1)),
            Err(msg) => Err(msg),
        }
    } else if is_key(key, "end") {
        if acc.end.is_some() {
            return Err(String::from_str("duplicate field: end"));
        }
        match scan_stamp(s, v) {
            Ok(p) => Ok((PartialX { end: Some(p.0), ..acc }, p.1)),
            Err(msg) => Err(msg),
        }
    } else if is_key(key, "tags") {
        if acc.tags.is_some() {
            return Err(String::from_str("duplicate field: tags"));
        }
        if !(v < n && s.get_char(v) == '[') {
            return Err(String::from_str("tags must be an array of strings"));
        }
        match scan_tags(s, v + 1) {
            Some(p) => Ok((PartialX { tags: Some(p.0), ..acc }, p.1)),
            None => Err(String::from_str("tags must be an array of strings")),
        }
    } else if is_key(key, "annotation") {
        if acc.annotation_seen {
            return Err(String::from_str("duplicate field: annotation"));
        }
        if v < n && s.get_char(v) == '"' {
            let mut text = String::new();
            match scan_string(s, v + 1, &mut text) {
                Some(j) => Ok(
                    (PartialX { annotation: Some(text), annotation_seen: true, ..acc }, j),
                ),
                None => Err(String::from_str("invalid annotation string")),
            }
        } else if n - v >= 4 && s.get_char(v) == 'n' && s.get_char(v + 1) == 'u' && s.get_char(
            v + 2,
        ) == 'l' && s.get_char(v + 3) == 'l' {
            Ok((PartialX { annotation: None, annotation_seen: true, ..acc }, v + 4))
        } else {
            Err(String::from_str("invalid annotation"))
        }
    } else {
        match scan_value(s, v) {
            Some(k) => Ok((acc, k)),
            None => Err(String::from_str("malformed value in session object")),
        }
    }
}

/// Scan one wire timestamp string and check it against the fixed pattern.
fn scan_stamp(s: &str, v: usize) -> (r: Result<(WallClock, usize), String>)
    requires
        v <= s@.len() <= usize::MAX,
    ensures
        r is Ok <==> (v < s@.len() && s@[v as int] == '"' && parse_string_body(s@, v as int + 1)
            is Some && wire_ok((parse_string_body(s@, v as int + 1)->0).0)),
        r is Ok ==> ({
            let p = parse_string_body(s@, v as int + 1)->0;
            (r->Ok_0).0 == clock_of_wire(p.0) && (r->Ok_0).1 == p.1 && p.1 <= s@.len()
        }),
        r is Ok ==> clock_wf((r->Ok_0).0),
{
    let n = s.unicode_len();
    if !(v < n && s.get_char(v) == '"') {
        return Err(String::from_str("timestamp must be a string"));
    }
    let mut text = String::new();
    let j = match scan_string(s, v + 1, &mut text) {
        Some(j) => j,
        None => {
            return Err(String::from_str("invalid timestamp string"));
        },
    };
    match crate::time::parse_wire(text.as_str()) {
        Some(w) => Ok((w, j)),
        None => Err(String::from_str("invalid timestamp: ").concat(text.as_str())),
    }
}

fn digit_at(s: &str, i: usize) -> (r: bool)
    requires
        i < s@.len() <= usize::MAX,
    ensures
        r == is_digit(s@[i as int]),
{
    let u = s.get_char(i) as u32;
    48 <= u && u <= 57
}

#[verifier::rlimit(80)]
fn scan_members(s: &str, i: usize, acc: PartialX) -> (r: Result<(WireSession, usize), String>)
    requires
        i <= s@.len() <= usize::MAX,
        px_wf(acc),
    ensures
        r is Ok <==> parse_members(s@, i as int, px_model(acc)) is Some,
        r is Ok ==> ({
            let p = parse_members(s@, i as int, px_model(acc))->0;
            ws_model((r->Ok_0).0) == p.0 && (r->Ok_0).1 == p.1 && (i as int) < p.1 && p.1
                <= s@.len()
        }),
        r is Ok ==> ws_wf((r->Ok_0).0),
    decreases s@.len() - i,
{
    let n = s.unicode_len();
    if !(i < n && s.get_char(i) == '"') {
        return Err(String::from_str("expected a member name in session object"));
    }
    let mut key = String::new();
    let j = match scan_string(s, i + 1, &mut key) {
        Some(j) => j,
        None => {
            return Err(String::from_str("invalid member name in session object"));
        },
    };
    let m = ws_end(s, j);
    if !(m < n && s.get_char(m) == ':') {
        return Err(String::from_str("expected ':' in session object"));
    }
    let v = ws_end(s, m + 1);
    let st = match scan_member_value(s, v, &key, acc) {
        Ok(st) => st,
        Err(msg) => {
            return Err(msg);
        },
    };
    // mirrors the specification's position check; a successful member
    // value always ends past where it began
    if !(v < st.1) {
        return Err(String::from_str("expected progress in session object"));
    }
    let q = ws_end(s, st.1);
    if q < n && s.get_char(q) == ',' {
        let nx = ws_end(s, q + 1);
        scan_members(s, nx, st.0)
    } else if q < n && s.get_char(q) == '}' {
        let px = st.0;
        match (px.id, px.start, px.tags) {
            (Some(id), Some(start), Some(tags)) => Ok(
                (
                    WireSession {
                        id,
                        start,
                        end: px.end,
                        tags,
                        annotation: px.annotation,
                    },
                    q + 1,
                ),
            ),
            _ => Err(String::from_str("session object is missing a required field")),
        }
    } else {
        return Err(String::from_str("expected ',' or '}' in session object"));
    }
}

fn scan_record_at(s: &str, i: usize) -> (r: Result<(WireSession, usize), String>)
    requires
        i <= s@.len() <= usize::MAX,
    ensures
        r is Ok <==> parse_record_at(s@, i as int) is Some,
        r is Ok ==> ({
            let p = parse_record_at(s@, i as int)->0;
            ws_model((r->Ok_0).0) == p.0 && (r->Ok_0).1 == p.1 && (i as int) < p.1 && p.1
                <= s@.len()
        }),
        r is Ok ==> ws_wf((r->Ok_0).0),
{
    let n = s.unicode_len();
    if !(i < n && s.get_char(i) == '{') {
        return Err(String::from_str("expected a session object"));
    }
    let j = ws_end(s, i + 1);
    scan_members(s, j, empty_px())
}

pub open spec fn wss_models(v: Seq<WireSession>) -> Seq<SessionModel> {
    v.map_values(|w: WireSession| ws_model(w))
}

fn scan_session_items(s: &str, i: usize, acc: Vec<WireSession>) -> (r: Result<
    (Vec<WireSession>, usize),
    String,
>)
    requires
        i <= s@.len() <= usize::MAX,
        forall|k: int| 0 <= k < acc@.len() ==> ws_wf(#[trigger] acc@[k]),
    ensures
        r is Ok <==> parse_session_items(s@, i as int, wss_models(acc@)) is Some,
        r is Ok ==> ({
            let p = parse_session_items(s@, i as int, wss_models(acc@))->0;
            wss_models((r->Ok_0).0@) == p.0 && (r->Ok_0).1 == p.1 && p.1 <= s@.len()
        }),
        r is Ok ==> forall|k: int| 0 <= k < (r->Ok_0).0@.len() ==> ws_wf(#[trigger] (r->Ok_0).0@[k]),
    decreases s@.len() - i,
{
    let n = s.unicode_len();
    let p = match scan_record_at(s, i) {
        Ok(p) => p,
        Err(msg) => {
            return Err(msg);
        },
    };
    let ghost model = (parse_record_at(s@, i as int)->0).0;
    let mut acc2 = acc;
    acc2.push(p.0);
    proof {
        assert(wss_models(acc2@) =~= wss_models(acc@).push(model));
    }
    let q = ws_end(s, p.1);
    if q < n && s.get_char(q) == ',' {
        let nx = ws_end(s, q + 1);
        scan_session_items(s, nx, acc2)
    } else if q < n && s.get_char(q) == ']' {
        Ok((acc2, q + 1))
    } else {
        Err(String::from_str("expected ',' or ']' in session array"))
    }
}

/// Decode the whole session body into wire-level records.
pub fn decode_body(s: &str) -> (r: Result<Vec<WireSession>, String>)
    ensures
        r is Ok <==> parse_body(s@) is Some,
        r is Ok ==> wss_models((r->Ok_0)@) == parse_body(s@)->0,
        r is Ok ==> forall|k: int| 0 <= k < (r->Ok_0)@.len() ==> ws_wf(#[trigger] (r->Ok_0)@[k]),
{
    let n = s.unicode_len();
    let i = ws_end(s, 0);
    if !(i < n && s.get_char(i) == '[') {
        return Err(String::from_str("the session body must be a JSON array"));
    }
    let j = ws_end(s, i + 1);
    let p = if j < n && s.get_char(j) == ']' {
        proof {
            assert(wss_models(Seq::<WireSession>::empty()) =~= Seq::<SessionModel>::empty());
        }
        (Vec::<WireSession>::new(), j + 1)
    } else {
        proof {
            assert(wss_models(Seq::<WireSession>::empty()) =~= Seq::<SessionModel>::empty());
        }
        match scan_session_items(s, j, Vec::new()) {
            Ok(p) => p,
            Err(msg) => {
                return Err(msg);
            },
        }
    };
    if ws_end(s, p.1) == n {
        Ok(p.0)
    } else {
        Err(String::from_str("unexpected text after the session array"))
    }
}

/// Decode a single session record standing alone in the text.
pub fn decode_record(s: &str) -> (r: Result<WireSession, String>)
    ensures
        r is Ok <==> parse_record(s@) is Some,
        r is Ok ==> ws_model(r->Ok_0) == parse_record(s@)->0,
        r is Ok ==> ws_wf(r->Ok_0),
{
    let n = s.unicode_len();
    let i = ws_end(s, 0);
    let p = match scan_record_at(s, i) {
        Ok(p) => p,
        Err(msg) => {
            return Err(msg);
        },
    };
    if ws_end(s, p.1) == n {
        Ok(p.0)
    } else {
        Err(String::from_str("unexpected text after the session object"))
    }
}

/// A tracked session from Timewarrior.
#[derive(Debug)]
pub struct Session {
    /// ID of the session within Timewarrior.
    pub id: usize,
    /// Start time of the session, localized.
    pub start: Timestamp,
    /// End time of the session; `None` while the session is still open.
    pub end: Option<Timestamp>,
    /// Tags attached to the session, in the order the report gave them.
    pub tags: Vec<String>,
    /// Annotation of the session, if it has one.
    pub annotation: Option<String>,
}

/// The session realizes a decoded record: the same plain values, and each
/// timestamp a well-formed localization of the record's UTC reading.
pub open spec fn session_matches(s: Session, m: SessionModel) -> bool {
    &&& s.id as int == m.id
    &&& timestamp_wf(s.start) && s.start.utc == m.start
    &&& match (s.end, m.end) {
        (Option::None, Option::None) => true,
        (Option::Some(t), Option::Some(w)) => timestamp_wf(t) && t.utc == w,
        _ => false,
    }
    &&& strs_view(s.tags@) == m.tags
    &&& match (s.annotation, m.annotation) {
        (Option::None, Option::None) => true,
        (Option::Some(a), Option::Some(b)) => a@ == b,
        _ => false,
    }
}

/// As `session_matches`, with every timestamp localized by the one given
/// offset, which pins the session completely.
pub open spec fn session_built_with(s: Session, m: SessionModel, off: int) -> bool {
    &&& session_matches(s, m)
    &&& s.start.offset_seconds == off
    &&& (s.end matches Some(t) ==> t.offset_seconds == off)
}

pub open spec fn sessions_match(ss: Seq<Session>, ms: Seq<SessionModel>) -> bool {
    ss.len() == ms.len() && forall|k: int|
        0 <= k < ms.len() ==> session_matches(#[trigger] ss[k], ms[k])
}

pub open spec fn sessions_built_with(ss: Seq<Session>, ms: Seq<SessionModel>, off: int) -> bool {
    ss.len() == ms.len() && forall|k: int|
        0 <= k < ms.len() ==> session_built_with(#[trigger] ss[k], ms[k], off)
}

fn localize(w: WireSession, off: Option<i32>) -> (r: Session)
    requires
        ws_wf(w),
        off matches Some(o) ==> -86400 < o < 86400,
    ensures
        session_matches(r, ws_model(w)),
        off matches Some(o) ==> session_built_with(r, ws_model(w), o as int),
{
    let so = match off {
        Some(o) => o,
        None => crate::time::local_offset_seconds(&w.start),
    };
    let start = Timestamp::from_utc(w.start, so);
    let end = match w.end {
        Some(e) => {
            let eo = match off {
                Some(o) => o,
                None => crate::time::local_offset_seconds(&e),
            };
            Some(Timestamp::from_utc(e, eo))
        },
        None => None,
    };
    Session { id: w.id, start, end, tags: w.tags, annotation: w.annotation }
}

fn localize_all(ws: Vec<WireSession>, off: Option<i32>) -> (r: Vec<Session>)
    requires
        forall|k: int| 0 <= k < ws@.len() ==> ws_wf(#[trigger] ws@[k]),
        off matches Some(o) ==> -86400 < o < 86400,
    ensures
        sessions_match(r@, wss_models(ws@)),
        off matches Some(o) ==> sessions_built_with(r@, wss_models(ws@), o as int),
{
    let ghost all = ws@;
    let mut rest = ws;
    let mut out: Vec<Session> = Vec::new();
    while rest.len() > 0
        invariant
            rest@ == all.subrange(out@.len() as int, all.len() as int),
            out@.len() <= all.len(),
            forall|k: int| 0 <= k < all.len() ==> ws_wf(#[trigger] all[k]),
            off matches Some(o) ==> -86400 < o < 86400,
            forall|k: int|
                0 <= k < out@.len() ==> session_matches(#[trigger] out@[k], ws_model(all[k])),
            off matches Some(o) ==> forall|k: int|
                0 <= k < out@.len() ==> session_built_with(
                    #[trigger] out@[k],
                    ws_model(all[k]),
                    o as int,
                ),
        decreases rest@.len(),
    {
        let ghost done = out@.len() as int;
        let w = rest.remove(0);
        proof {
            assert(w == all[done]);
            assert(rest@ =~= all.subrange(done + 1, all.len() as int));
        }
        let s = localize(w, off);
        out.push(s);
    }
    proof {
        assert(wss_models(all).len() == all.len());
    }
    out
}

impl Session {
    /// Decode the session body — a JSON array of session records — and
    /// localize each timestamp with the process time zone.
    pub fn from_json(data: &str) -> (r: Result<Vec<Session>, ReportError>)
        ensures
            r is Ok <==> parse_body(data@) is Some,
            r is Ok ==> sessions_match((r->Ok_0)@, parse_body(data@)->0),
            r is Err ==> r->Err_0 is Decode,
    {
        match decode_body(data) {
            Ok(ws) => Ok(localize_all(ws, None)),
            Err(msg) => Err(ReportError::Decode(msg)),
        }
    }

    /// Decode the session body and localize every timestamp with the one
    /// given offset (seconds east of UTC), which makes the result a pure
    /// function of the text.
    pub fn from_json_with_offset(data: &str, offset_seconds: i32) -> (r: Result<
        Vec<Session>,
        ReportError,
    >)
        requires
            -86400 < offset_seconds < 86400,
        ensures
            r is Ok <==> parse_body(data@) is Some,
            r is Ok ==> sessions_built_with(
                (r->Ok_0)@,
                parse_body(data@)->0,
                offset_seconds as int,
            ),
            r is Err ==> r->Err_0 is Decode,
    {
        match decode_body(data) {
            Ok(ws) => Ok(localize_all(ws, Some(offset_seconds))),
            Err(msg) => Err(ReportError::Decode(msg)),
        }
    }

    /// Decode one session record standing alone in the text, localized
    /// with the process time zone.
    pub fn from_json_record(data: &str) -> (r: Result<Session, ReportError>)
        ensures
            r is Ok <==> parse_record(data@) is Some,
            r is Ok ==> session_matches(r->Ok_0, parse_record(data@)->0),
            r is Err ==> r->Err_0 is Decode,
    {
        match decode_record(data) {
            Ok(w) => Ok(localize(w, None)),
            Err(msg) => Err(ReportError::Decode(msg)),
        }
    }
}

fn string_vec_eq(a: &Vec<String>, b: &Vec<String>) -> (r: bool)
    ensures
        r == (strs_view(a@) == strs_view(b@)),
{
    if a.len() != b.len() {
        proof {
            assert(strs_view(a@).len() == a@.len());
            assert(strs_view(b@).len() == b@.len());
        }
        return false;
    }
    let mut i: usize = 0;
    while i < a.len()
        invariant
            i <= a@.len(),
            a@.len() == b@.len(),
            forall|k: int| 0 <= k < i ==> a@[k]@ == b@[k]@,
        decreases a@.len() - i,
    {
        if !(a[i] == b[i]) {
            proof {
                assert(strs_view(a@)[i as int] != strs_view(b@)[i as int]);
            }
            return false;
        }
        i += 1;
    }
    proof {
        assert(strs_view(a@) =~= strs_view(b@));
    }
    true
}

fn opt_string_eq(a: &Option<String>, b: &Option<String>) -> (r: bool)
    ensures
        r == match (a, b) {
            (Option::Some(x), Option::Some(y)) => x@ == y@,
            (Option::None, Option::None) => true,
            _ => false,
        },
{
    match (a, b) {
        (Some(x), Some(y)) => *x == *y,
        (None, None) => true,
        _ => false,
    }
}

/// Equality of sessions checks every field: start, end, id, tags and
/// annotation, with strings compared by their text.
pub open spec fn session_eq_spec(a: Session, b: Session) -> bool {
    &&& a.start == b.start
    &&& a.end == b.end
    &&& a.id == b.id
    &&& strs_view(a.tags@) == strs_view(b.tags@)
    &&& match (a.annotation, b.annotation) {
        (Option::Some(x), Option::Some(y)) => x@ == y@,
        (Option::None, Option::None) => true,
        _ => false,
    }
}

impl PartialEq for Session {
    fn eq(&self, other: &Session) -> (r: bool) {
        self.id == other.id && self.start == other.start && match (&self.end, &other.end) {
            (Some(x), Some(y)) => *x == *y,
            (None, None) => true,
            _ => false,
        } && string_vec_eq(&self.tags, &other.tags) && opt_string_eq(
            &self.annotation,
            &other.annotation,
        )
    }
}

impl vstd::std_specs::cmp::PartialEqSpecImpl for Session {
    open spec fn obeys_eq_spec() -> bool {
        true
    }

    open spec fn eq_spec(&self, other: &Session) -> bool {
        session_eq_spec(*self, *other)
    }
}

/// Ordering of sessions consults the id alone, ascending.
pub open spec fn session_order(a: Session, b: Session) -> Ordering {
    if a.id < b.id {
        Ordering::Less
    } else if a.id == b.id {
        Ordering::Equal
    } else {
        Ordering::Greater
    }
}

impl PartialOrd for Session {
    fn partial_cmp(&self, other: &Session) -> (r: Option<Ordering>) {
        if self.id < other.id {
            Some(Ordering::Less)
        } else if self.id == other.id {
            Some(Ordering::Equal)
        } else {
            Some(Ordering::Greater)
        }
    }
}

impl vstd::std_specs::cmp::PartialOrdSpecImpl for Session {
    open spec fn obeys_partial_cmp_spec() -> bool {
        true
    }

    open spec fn partial_cmp_spec(&self, other: &Session) -> Option<Ordering> {
        Some(session_order(*self, *other))
    }
}

/// Ordering consults only the id, while equality checks every field: two
/// sessions with the same id are order-equivalent, and if their tags
/// differ they are nevertheless unequal.
pub proof fn lemma_ordering_by_id_only(a: Session, b: Session)
    requires
        a.id == b.id,
    ensures
        a.partial_cmp_spec(&b) == Some(Ordering::Equal),
        strs_view(a.tags@) != strs_view(b.tags@) ==> !session_eq_spec(a, b),
{
}

} // verus!
