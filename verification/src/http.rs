//! What the HTTP endpoints answer.

use crate::json::{json_fields, no_fields, object_insert, object_new, text_value, JsonView};
use crate::player::{basename, Player};
use crate::text;
use vstd::prelude::*;

verus! {

pub const OK: u16 = 200;

pub const SERVICE_UNAVAILABLE: u16 = 503;

/// Content type of the pipeline's Graphviz dump.
pub const GRAPHVIZ: &'static str = "text/vnd.graphviz";

/// The port served when none is set.
pub const DEFAULT_PORT: u16 = 8080;

/// State of the pipeline.
#[derive(Clone, Copy, Debug, PartialEq, Eq, Structural)]
pub enum PipelineState {
    VoidPending,
    Null,
    Ready,
    Paused,
    Playing,
}

/// What is served at a path.
#[derive(Clone, Copy, Debug, PartialEq, Eq, Structural)]
pub enum Endpoint {
    /// The process is alive, nothing deeper.
    Live,
    /// The pipeline is playing.
    Ready,
    /// The build's identity.
    Version,
    /// File name of the current clip.
    Current,
    /// The pipeline's live topology.
    PipelineDot,
}

/// Why a port setting is refused.
#[derive(Clone, Copy, Debug, PartialEq, Eq, Structural)]
pub enum PortError {
    /// It is not a number a port can have.
    NotAPort,
}

impl PipelineState {
    /// The state's name.
    pub open spec fn name_text(self) -> Seq<char> {
        match self {
            PipelineState::VoidPending => "VoidPending"@,
            PipelineState::Null => "Null"@,
            PipelineState::Ready => "Ready"@,
            PipelineState::Paused => "Paused"@,
            PipelineState::Playing => "Playing"@,
        }
    }

    /// The state's name.
    pub fn name(self) -> (name: &'static str)
        ensures
            name@ == self.name_text(),
    {
        match self {
            PipelineState::VoidPending => "VoidPending",
            PipelineState::Null => "Null",
            PipelineState::Ready => "Ready",
            PipelineState::Paused => "Paused",
            PipelineState::Playing => "Playing",
        }
    }
}

/// Status and body of the liveness endpoint: if it answers at all, the process
/// is alive. A stuck pipeline fails readiness and does not get the process
/// restarted.
pub fn live_response() -> (response: (u16, String))
    ensures
        response.0 == OK,
        response.1@ == "OK"@,
{
    (OK, "OK".to_string())
}

/// Status and body of the readiness endpoint: ready only while the pipeline is
/// playing, else unavailable with the reason.
pub fn ready_response(state: PipelineState) -> (response: (u16, String))
    ensures
        state == PipelineState::Playing ==> response.0 == OK && response.1@ == "OK"@,
        state != PipelineState::Playing ==> response.0 == SERVICE_UNAVAILABLE && response.1@
            == "pipeline not playing (state "@ + state.name_text() + ")"@,
{
    if state == PipelineState::Playing {
        (OK, "OK".to_string())
    } else {
        (
            SERVICE_UNAVAILABLE,
            "pipeline not playing (state ".to_string().concat(state.name()).concat(")"),
        )
    }
}

/// The fields of the build's identity.
pub open spec fn version_fields(tag: Seq<char>, sha: Seq<char>, built_at: Seq<char>) -> Map<
    Seq<char>,
    JsonView,
> {
    no_fields().insert("tag"@, JsonView::Text(tag)).insert("sha"@, JsonView::Text(sha)).insert(
        "built_at"@,
        JsonView::Text(built_at),
    )
}

/// The build's identity: its tag, git sha and build time.
pub fn version_json(tag: &str, sha: &str, built_at: &str) -> (object: serde_json::Map<
    String,
    serde_json::Value,
>)
    ensures
        json_fields(object) == version_fields(tag@, sha@, built_at@),
{
    let mut object: serde_json::Map<String, serde_json::Value> = object_new();
    object_insert(&mut object, "tag".to_string(), text_value(tag.to_string()));
    object_insert(&mut object, "sha".to_string(), text_value(sha.to_string()));
    object_insert(&mut object, "built_at".to_string(), text_value(built_at.to_string()));
    object
}

/// File name of the current clip, as plain text; empty when nothing plays.
pub fn current(player: &Player) -> (body: String)
    requires
        player.wf(),
    ensures
        body@ == (if player.clips@.len() > 0 {
            basename(player.files@[player.clips@[0].index as int])
        } else {
            Seq::empty()
        }),
{
    match player.current_basename() {
        Some(name) => name,
        None => String::new(),
    }
}

/// The paths served and what is served at each.
pub open spec fn route_table() -> Seq<(Seq<char>, Endpoint)> {
    seq![
        ("/health/live"@, Endpoint::Live),
        ("/health/ready"@, Endpoint::Ready),
        ("/version"@, Endpoint::Version),
        ("/vlc/current"@, Endpoint::Current),
        ("/playout/current"@, Endpoint::Current),
        ("/debug/pipeline"@, Endpoint::PipelineDot),
    ]
}

/// The paths served and what is served at each. The current clip has a path
/// under either name of the service.
pub fn routes() -> (routes: Vec<(&'static str, Endpoint)>)
    ensures
        routes@.map_values(|r: (&'static str, Endpoint)| (r.0@, r.1)) == route_table(),
{
    let mut routes: Vec<(&'static str, Endpoint)> = Vec::new();
    routes.push(("/health/live", Endpoint::Live));
    routes.push(("/health/ready", Endpoint::Ready));
    routes.push(("/version", Endpoint::Version));
    routes.push(("/vlc/current", Endpoint::Current));
    routes.push(("/playout/current", Endpoint::Current));
    routes.push(("/debug/pipeline", Endpoint::PipelineDot));
    assert(routes@.map_values(|r: (&'static str, Endpoint)| (r.0@, r.1)) =~= route_table());
    routes
}

/// A decimal digit.
pub open spec fn digit(c: char) -> bool {
    '0' <= c && c <= '9'
}

/// The number that a run of decimal digits writes.
pub open spec fn decimal(s: Seq<char>) -> int
    decreases s.len(),
{
    if s.len() == 0 {
        0
    } else {
        10 * decimal(s.drop_last()) + (s.last() as u32 - '0' as u32)
    }
}

/// The digits of a port setting: all of it but for one leading `+`.
pub open spec fn port_digits(s: Seq<char>) -> Seq<char> {
    if s.len() > 0 && s[0] == '+' {
        s.skip(1)
    } else {
        s
    }
}

/// The setting is a number that a port can have.
pub open spec fn names_a_port(s: Seq<char>) -> bool {
    let digits = port_digits(s);
    &&& digits.len() > 0
    &&& forall|i: int| 0 <= i < digits.len() ==> digit(#[trigger] digits[i])
    &&& decimal(digits) <= u16::MAX
}

proof fn lemma_decimal_grows(s: Seq<char>, n: int)
    requires
        0 <= n <= s.len(),
        forall|i: int| 0 <= i < s.len() ==> digit(#[trigger] s[i]),
    ensures
        0 <= decimal(s.take(n)) <= decimal(s),
    decreases s.len(),
{
    if n == s.len() {
        assert(s.take(n) =~= s);
        if n > 0 {
            lemma_decimal_grows(s.drop_last(), n - 1);
            assert(digit(s[n - 1]));
        }
    } else {
        lemma_decimal_grows(s.drop_last(), n);
        assert(s.drop_last().take(n) =~= s.take(n));
        assert(digit(s[s.len() - 1]));
    }
}

/// The port to serve on: the one set, else [`DEFAULT_PORT`].
pub fn http_port(setting: Option<&str>) -> (port: Result<u16, PortError>)
    ensures
        setting is None ==> port == Ok::<u16, PortError>(DEFAULT_PORT),
        setting matches Some(s) ==> match port {
            Ok(p) => names_a_port(s@) && p == decimal(port_digits(s@)),
            Err(PortError::NotAPort) => !names_a_port(s@),
        },
{
    let s: &str = match setting {
        Some(s) => s,
        None => {
            return Ok(DEFAULT_PORT);
        },
    };
    let v: Vec<char> = text::chars_of(s);
    let from: usize = if v.len() > 0 && v[0] == '+' {
        1
    } else {
        0
    };
    let ghost digits = port_digits(s@);
    assert(digits =~= v@.skip(from as int));
    if from == v.len() {
        return Err(PortError::NotAPort);
    }
    let mut port: u16 = 0;
    let mut i: usize = from;
    while i < v.len()
        invariant
            from <= i <= v.len(),
            setting == Some(s),
            digits == port_digits(s@),
            digits == v@.skip(from as int),
            forall|j: int| 0 <= j < i - from ==> digit(#[trigger] digits[j]),
            port == decimal(digits.take(i - from)),
        decreases v.len() - i,
    {
        let c: char = v[i];
        assert(digits[i - from] == c);
        if !('0' <= c && c <= '9') {
            return Err(PortError::NotAPort);
        }
        let d: u32 = c as u32 - '0' as u32;
        let grown: u32 = port as u32 * 10 + d;
        assert(digits.take(i - from + 1).drop_last() =~= digits.take(i - from));
        assert(grown == decimal(digits.take(i - from + 1)));
        if grown > 65535 {
            proof {
                if names_a_port(s@) {
                    lemma_decimal_grows(digits, i - from + 1);
                }
            }
            return Err(PortError::NotAPort);
        }
        port = grown as u16;
        i = i + 1;
    }
    assert(digits.take(i - from) =~= digits);
    Ok(port)
}

/// A number is read digit by digit: one more digit is ten times what was read
/// before it and the digit.
pub proof fn law_one_more_digit_counts_ten_times_the_rest(s: Seq<char>, c: char)
    ensures
        decimal(Seq::empty()) == 0,
        decimal(s.push(c)) == 10 * decimal(s) + (c as int - 48),
{
    assert(s.push(c).drop_last() =~= s);
}

/// A port is set by its digits, or by them behind a plus sign, and by nothing
/// but digits; and it is at most the highest there is.
pub proof fn law_a_port_is_set_by_its_digits(s: Seq<char>)
    ensures
        s.len() > 0 && s[0] == '+' ==> port_digits(s) == s.skip(1),
        s.len() == 0 || s[0] != '+' ==> port_digits(s) == s,
        names_a_port(s) <==> {
            &&& port_digits(s).len() > 0
            &&& forall|i: int|
                0 <= i < port_digits(s).len() ==> 48 <= (#[trigger] port_digits(s)[i]) as int <= 57
            &&& decimal(port_digits(s)) <= 65_535
        },
{
    let d = port_digits(s);
    if names_a_port(s) {
        assert forall|i: int| 0 <= i < d.len() implies 48 <= (#[trigger] d[i]) as int <= 57 by {
            assert(digit(d[i]));
        }
    }
}

/// A build says its tag, sha and build time, each under its own key, and nothing
/// else.
pub proof fn law_a_build_says_what_it_is(
    tag: Seq<char>,
    sha: Seq<char>,
    built_at: Seq<char>,
    key: Seq<char>,
)
    ensures
        version_fields(tag, sha, built_at).dom().contains(key) <==> {
            ||| key == "tag"@
            ||| key == "sha"@
            ||| key == "built_at"@
        },
        version_fields(tag, sha, built_at)["tag"@] == JsonView::Text(tag),
        version_fields(tag, sha, built_at)["sha"@] == JsonView::Text(sha),
        version_fields(tag, sha, built_at)["built_at"@] == JsonView::Text(built_at),
{
    reveal_strlit("tag");
    reveal_strlit("sha");
    reveal_strlit("built_at");
    assert("tag"@.len() == 3 && "sha"@.len() == 3 && "built_at"@.len() == 8);
    assert("tag"@[0] != "sha"@[0]);
}

/// Each state goes by its own name.
pub proof fn law_a_state_goes_by_its_name()
    ensures
        PipelineState::VoidPending.name_text() == "VoidPending"@,
        PipelineState::Null.name_text() == "Null"@,
        PipelineState::Ready.name_text() == "Ready"@,
        PipelineState::Paused.name_text() == "Paused"@,
        PipelineState::Playing.name_text() == "Playing"@,
{
}

} // verus!
