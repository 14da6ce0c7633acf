//! The report model and its fallible construction.
//!
//! The raw input is a configuration header, the first blank-line
//! separator, and a session body.  Construction is all-or-nothing: a
//! missing separator or a header line without `": "` is `MalformedInput`,
//! a body that is not a session array is `Decode`, and a failed read of
//! the input stream (reported by the caller that did the reading) is `IO`.

use vstd::prelude::*;

use crate::config::Config;
use crate::error::ReportError;
use crate::session::parse_body;
use crate::session::session_eq_spec;
use crate::session::sessions_built_with;
use crate::session::sessions_match;
use crate::session::session_built_with;
use crate::session::Session;
use crate::session::SessionModel;

verus! {

/// The position of the first blank-line separator (`"\n\n"`) at or after
/// `i`.
pub open spec fn first_sep(s: Seq<char>, i: int) -> Option<int>
    decreases s.len() - i,
{
    if i < 0 || i + 2 > s.len() {
        None
    } else if s[i] == '\n' && s[i + 1] == '\n' {
        Some(i)
    } else {
        first_sep(s, i + 1)
    }
}

/// Header and body: the text before the first blank-line separator, and
/// everything after it (later blank lines stay in the body).
pub open spec fn spec_split(s: Seq<char>) -> Option<(Seq<char>, Seq<char>)> {
    match first_sep(s, 0) {
        Some(i) => Some((s.subrange(0, i), s.subrange(i + 2, s.len() as int))),
        None => None,
    }
}

fn find_sep(s: &str, i: usize) -> (r: Option<usize>)
    requires
        i <= s@.len() <= usize::MAX,
    ensures
        r is Some <==> first_sep(s@, i as int) is Some,
        r is Some ==> r->0 as int == first_sep(s@, i as int)->0 && i <= r->0 && r->0 + 2
            <= s@.len(),
    decreases s@.len() - i,
{
    if s.unicode_len() - i < 2 {
        None
    } else if s.get_char(i) == '\n' && s.get_char(i + 1) == '\n' {
        Some(i)
    } else {
        find_sep(s, i + 1)
    }
}

/// The end of the line starting at `i`: the next newline, or the end of
/// the text.
pub open spec fn line_end(s: Seq<char>, i: int) -> int
    decreases s.len() - i,
{
    if 0 <= i < s.len() && s[i] != '\n' {
        let r = line_end(s, i + 1);
        if r < i + 1 {
            i + 1
        } else if r > s.len() {
            s.len() as int
        } else {
            r
        }
    } else {
        i
    }
}

fn line_end_x(s: &str, i: usize) -> (j: usize)
    requires
        i <= s@.len() <= usize::MAX,
    ensures
        j == line_end(s@, i as int),
        i <= j <= s@.len(),
    decreases s@.len() - i,
{
    if i < s.unicode_len() && s.get_char(i) != '\n' {
        line_end_x(s, i + 1)
    } else {
        i
    }
}

/// The first `": "` separator within the line `[i, e)`.
pub open spec fn find_colon(s: Seq<char>, i: int, e: int) -> Option<int>
    decreases e - i,
{
    if i < 0 || i + 2 > e || e > s.len() {
        None
    } else if s[i] == ':' && s[i + 1] == ' ' {
        Some(i)
    } else {
        find_colon(s, i + 1, e)
    }
}

fn find_colon_x(s: &str, i: usize, e: usize) -> (r: Option<usize>)
    requires
        i <= e <= s@.len() <= usize::MAX,
    ensures
        r is Some <==> find_colon(s@, i as int, e as int) is Some,
        r is Some ==> r->0 as int == find_colon(s@, i as int, e as int)->0 && i <= r->0 && r->0
            + 2 <= e,
    decreases e - i,
{
    if e - i < 2 {
        None
    } else if s.get_char(i) == ':' && s.get_char(i + 1) == ' ' {
        Some(i)
    } else {
        find_colon_x(s, i + 1, e)
    }
}

/// The configuration that the header lines from `i` on fold onto `acc`:
/// each line splits at its first `": "` into a key and a value, a later
/// line for the same key winning.  `None` when a line has no `": "`.
pub open spec fn parse_header(s: Seq<char>, i: int, acc: Map<Seq<char>, Seq<char>>) -> Option<
    Map<Seq<char>, Seq<char>>,
>
    decreases s.len() - i,
{
    if i < 0 {
        None
    } else if i >= s.len() {
        Some(acc)
    } else {
        let e = line_end(s, i);
        match find_colon(s, i, e) {
            None => None,
            Some(c) => {
                let acc2 = acc.insert(s.subrange(i, c), s.subrange(c + 2, e));
                if e < s.len() {
                    if i < e + 1 {
                        parse_header(s, e + 1, acc2)
                    } else {
                        None
                    }
                } else {
                    Some(acc2)
                }
            },
        }
    }
}

fn scan_header(s: &str, i: usize, cfg: Config) -> (r: Option<Config>)
    requires
        i <= s@.len() <= usize::MAX,
    ensures
        r is Some <==> parse_header(s@, i as int, cfg@) is Some,
        r is Some ==> (r->0)@ == parse_header(s@, i as int, cfg@)->0,
    decreases s@.len() - i,
{
    let n = s.unicode_len();
    if i >= n {
        return Some(cfg);
    }
    let e = line_end_x(s, i);
    let c = match find_colon_x(s, i, e) {
        Some(c) => c,
        None => {
            return None;
        },
    };
    let key = String::from_str(s.substring_char(i, c));
    let value = String::from_str(s.substring_char(c + 2, e));
    let cfg2 = cfg.insert(key, value);
    if e < n {
        scan_header(s, e + 1, cfg2)
    } else {
        Some(cfg2)
    }
}

/// A representation of the data within the report.
#[derive(Debug)]
pub struct TimewarriorData {
    /// The configurations passed to the report.
    pub config: Config,
    /// All tracked sessions within the report, in report order.
    pub sessions: Vec<Session>,
}

/// The header part of the input splits into `key: value` lines.
pub open spec fn header_ok(s: Seq<char>) -> bool {
    spec_split(s) is Some && parse_header((spec_split(s)->0).0, 0, Map::empty()) is Some
}

/// The whole input decodes: it splits, every header line splits, and the
/// body is a session array.
pub open spec fn report_ok(s: Seq<char>) -> bool {
    header_ok(s) && parse_body((spec_split(s)->0).1) is Some
}

/// The configuration mapping a decodable input denotes.
pub open spec fn config_model(s: Seq<char>) -> Map<Seq<char>, Seq<char>> {
    parse_header((spec_split(s)->0).0, 0, Map::empty())->0
}

/// The session records a decodable input denotes.
pub open spec fn body_models(s: Seq<char>) -> Seq<SessionModel> {
    parse_body((spec_split(s)->0).1)->0
}

/// The model a successful parse returns for the input.
pub open spec fn report_matches(d: TimewarriorData, s: Seq<char>) -> bool {
    d.config@ == config_model(s) && sessions_match(d.sessions@, body_models(s))
}

/// As `report_matches`, with every timestamp localized by the one given
/// offset, which pins the model completely.
pub open spec fn report_built_with(d: TimewarriorData, s: Seq<char>, off: int) -> bool {
    d.config@ == config_model(s) && sessions_built_with(d.sessions@, body_models(s), off)
}

impl TimewarriorData {
    fn parse_parts(s: &str, off: Option<i32>) -> (r: Result<TimewarriorData, ReportError>)
        requires
            off matches Some(o) ==> -86400 < o < 86400,
        ensures
            r is Ok <==> report_ok(s@),
            r is Ok ==> report_matches(r->Ok_0, s@),
            r is Ok && (off matches Some(o)) ==> report_built_with(r->Ok_0, s@, off->0 as int),
            r is Err ==> {
                let e = r->Err_0;
                &&& !(e is IO)
                &&& (e is MalformedInput <==> !header_ok(s@))
                &&& (e is Decode <==> header_ok(s@) && !report_ok(s@))
            },
    {
        let n = s.unicode_len();
        let sep = match find_sep(s, 0) {
            Some(p) => p,
            None => {
                return Err(
                    ReportError::MalformedInput(
                        String::from_str("missing blank-line separator between header and body"),
                    ),
                );
            },
        };
        let header = s.substring_char(0, sep);
        let body = s.substring_char(sep + 2, n);
        let cfg = match scan_header(header, 0, Config::new()) {
            Some(c) => c,
            None => {
                return Err(
                    ReportError::MalformedInput(
                        String::from_str("a header line is missing its ': ' separator"),
                    ),
                );
            },
        };
        let parsed = match off {
            Some(o) => Session::from_json_with_offset(body, o),
            None => Session::from_json(body),
        };
        match parsed {
            Ok(sessions) => Ok(TimewarriorData { config: cfg, sessions }),
            Err(e) => Err(e),
        }
    }

    /// Read the report from a given string; the process time zone
    /// localizes the timestamps.
    pub fn from_string(input: String) -> (r: Result<TimewarriorData, ReportError>)
        ensures
            r is Ok <==> report_ok(input@),
            r is Ok ==> report_matches(r->Ok_0, input@),
            r is Err ==> {
                let e = r->Err_0;
                &&& !(e is IO)
                &&& (e is MalformedInput <==> !header_ok(input@))
                &&& (e is Decode <==> header_ok(input@) && !report_ok(input@))
            },
    {
        Self::parse_parts(input.as_str(), None)
    }

    /// Read the report from a given string, localizing every timestamp
    /// with the one given offset (seconds east of UTC); the model is then
    /// a pure function of the text.
    pub fn from_string_with_offset(input: String, offset_seconds: i32) -> (r: Result<
        TimewarriorData,
        ReportError,
    >)
        requires
            -86400 < offset_seconds < 86400,
        ensures
            r is Ok <==> report_ok(input@),
            r is Ok ==> report_built_with(r->Ok_0, input@, offset_seconds as int),
            r is Err ==> {
                let e = r->Err_0;
                &&& !(e is IO)
                &&& (e is MalformedInput <==> !header_ok(input@))
                &&& (e is Decode <==> header_ok(input@) && !report_ok(input@))
            },
    {
        Self::parse_parts(input.as_str(), Some(offset_seconds))
    }
}

/// Equality of report models: the configuration mappings are equal and
/// the session sequences are equal, order-sensitively.
pub open spec fn report_eq_spec(a: TimewarriorData, b: TimewarriorData) -> bool {
    &&& a.config@ == b.config@
    &&& a.sessions@.len() == b.sessions@.len()
    &&& forall|k: int|
        0 <= k < a.sessions@.len() ==> session_eq_spec(#[trigger] a.sessions@[k], b.sessions@[k])
}

impl PartialEq for TimewarriorData {
    fn eq(&self, other: &TimewarriorData) -> (r: bool) {
        if !(self.config == other.config) {
            return false;
        }
        if self.sessions.len() != other.sessions.len() {
            return false;
        }
        let mut i: usize = 0;
        while i < self.sessions.len()
            invariant
                i <= self.sessions@.len(),
                self.sessions@.len() == other.sessions@.len(),
                self.config@ == other.config@,
                forall|k: int|
                    0 <= k < i ==> session_eq_spec(
                        #[trigger] self.sessions@[k],
                        other.sessions@[k],
                    ),
            decreases self.sessions@.len() - i,
        {
            if !(self.sessions[i] == other.sessions[i]) {
                return false;
            }
            i += 1;
        }
        true
    }
}

impl vstd::std_specs::cmp::PartialEqSpecImpl for TimewarriorData {
    open spec fn obeys_eq_spec() -> bool {
        true
    }

    open spec fn eq_spec(&self, other: &TimewarriorData) -> bool {
        report_eq_spec(*self, *other)
    }
}

/// Parsing is deterministic: two report models decoded from the same text
/// under the same time-zone offset are equal.
pub proof fn lemma_parse_deterministic(
    a: TimewarriorData,
    b: TimewarriorData,
    s: Seq<char>,
    off: int,
)
    requires
        report_built_with(a, s, off),
        report_built_with(b, s, off),
    ensures
        report_eq_spec(a, b),
{
    assert forall|k: int| 0 <= k < a.sessions@.len() implies session_eq_spec(
        #[trigger] a.sessions@[k],
        b.sessions@[k],
    ) by {
        let m = body_models(s)[k];
        let x = a.sessions@[k];
        let y = b.sessions@[k];
        assert(session_built_with(x, m, off));
        assert(session_built_with(y, m, off));
        assert(x.start == y.start);
        match m.end {
            Some(_) => {
                assert(x.end->0 == y.end->0);
            },
            None => {
                assert(x.end is None && y.end is None);
            },
        }
    }
}

} // verus!

