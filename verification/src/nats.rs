//! The control plane. Commands arrive on `tripbot.<env>.<domain>.<verb>.
//! <platform>`; the clip that plays and the position in it flow back through a
//! last-value cache per domain, which a restarted instance reads to resume
//! where it left off. Every wire name is served under each of the
//! [`DOMAINS`].

use crate::json::{
    int_value, json_text, no_fields, object_insert, object_new, object_text, text_value, JsonView,
};
use crate::player::{
    after_redirect, basename, found_at, is_named, law_playhead_advances_with_the_clock, not_found,
    position, Clip, Player, Redirect,
};
use crate::playlist::{at_least_one, ClipFile};
use crate::text;
use crate::text::{begins_with, finishes_with};
use vstd::prelude::*;

verus! {

/// Wire-name domains, in the order in which they are resumed from. `playout`
/// is the name; `vlc` is the legacy token that some consumers still speak.
/// Commands are accepted on both, and the cache is published to both.
pub const DOMAINS: [&'static str; 2] = ["playout", "vlc"];

/// The commands' verbs.
pub const VERBS: [&'static str; 6] = ["play.random", "play.file", "play.at", "skip", "back", "seek"];

/// How often the last-value cache is published, ms.
pub const TICK_INTERVAL_MS: u64 = 5_000;

/// How long boot waits for the connection, ms.
pub const CONNECT_WINDOW_MS: u64 = 10_000;

/// How often it looks whether the connection is up, ms.
pub const CONNECT_POLL_MS: u64 = 200;

/// How often the declaration of the caches looks whether the connection is up,
/// ms.
pub const DECLARE_POLL_MS: u64 = 1_000;

/// This instance's place on the control plane.
pub struct Control {
    /// The environment token of its subjects.
    pub env: String,
    /// The platform whose commands it obeys.
    pub platform: String,
}

/// Declaration of one domain's last-value cache.
pub struct StreamConfig {
    pub name: String,
    /// The subjects whose messages it keeps.
    pub subject: String,
    /// How many messages it keeps of each subject.
    pub max_messages_per_subject: i64,
}

/// Payload of `play.file`.
pub struct PlayFile {
    pub file: String,
}

/// Payload of `play.at`.
pub struct PlayFileAt {
    pub file: String,
    pub position_ms: i64,
}

/// Payload of `skip` and `back`.
pub struct NArg {
    pub n: i32,
}

/// Payload of `seek`.
pub struct DeltaArg {
    pub delta_ms: i64,
}

/// What the last-value cache holds: the clip that plays and the position in
/// it.
pub struct LastPlayed {
    pub file: String,
    pub position_ms: i64,
}

/// What a verb asks for.
#[derive(Clone, Copy, Debug, PartialEq, Eq, Structural)]
pub enum Verb {
    PlayRandom,
    PlayFile,
    PlayAt,
    Skip,
    Back,
    Seek,
    /// None of the verbs there are.
    Unknown,
}

/// A command that redirects playback, with its payload as far as that could be
/// decoded.
pub enum Command {
    PlayRandom,
    PlayFile(Option<PlayFile>),
    PlayAt(Option<PlayFileAt>),
    Skip(Option<NArg>),
    Back(Option<NArg>),
    Unknown,
}

/// What a verb's payload is to be decoded as.
#[derive(Clone, Copy, Debug, PartialEq, Eq, Structural)]
pub enum PayloadKind {
    /// Not at all.
    Nothing,
    File,
    FileAt,
    Count,
    Delta,
}

/// A payload, decoded as what its verb asks for; `None` where it could not be.
pub enum Payload {
    Nothing,
    File(Option<PlayFile>),
    FileAt(Option<PlayFileAt>),
    Count(Option<NArg>),
    Delta(Option<DeltaArg>),
}

/// What a message comes to.
pub enum Order {
    /// Move the playhead this far, ms.
    Seek { delta_ms: i64 },
    /// Hand the command to [`dispatch`].
    Run(Command),
    /// Nothing.
    Drop,
}

/// What to do next about resuming.
pub enum ResumeStep {
    /// Read the last message on `subject` of the cache `stream`, which is that
    /// of the domain at this place in [`DOMAINS`].
    Read { domain: usize, stream: String, subject: String },
    /// Start on this playlist entry, at this position.
    Resume { index: usize, position_ms: i64 },
    /// There is nothing to resume from.
    ColdStart,
}

/// What one tick publishes.
pub struct Tick {
    /// The subjects to publish to.
    pub subjects: Vec<String>,
    /// What to publish to each.
    pub payload: String,
}

/// What to do next while boot waits for the connection.
#[derive(Clone, Copy, Debug, PartialEq, Eq, Structural)]
pub enum ConnectStep {
    /// It is up: go on.
    Connected,
    /// The window is over: go on without it.
    TimedOut,
    /// Look again after [`CONNECT_POLL_MS`].
    WaitOn,
}

/// Name of one domain's last-value cache.
pub open spec fn stream_name(domain: Seq<char>) -> Seq<char> {
    "TRIPBOT_"@ + domain.map_values(|c: char| text::ascii_upper(c)) + "_LASTPLAYED"@
}

/// Name of one domain's last-value cache.
pub fn lastplayed_stream(domain: &str) -> (name: String)
    ensures
        name@ == stream_name(domain@),
{
    "TRIPBOT_".to_string().concat(domain.to_ascii_uppercase().as_str()).concat("_LASTPLAYED")
}

/// The subject of a verb, without a platform.
pub open spec fn subject_of(env: Seq<char>, domain: Seq<char>, verb: Seq<char>) -> Seq<char> {
    "tripbot."@ + env + "."@ + domain + "."@ + verb
}

/// The subject of a verb, without a platform.
pub fn subject(env: &str, domain: &str, verb: &str) -> (subject: String)
    ensures
        subject@ == subject_of(env@, domain@, verb@),
{
    "tripbot.".to_string().concat(env).concat(".").concat(domain).concat(".").concat(verb)
}

/// What stands between `base` and `.<platform>` in `subject`, when it begins
/// and ends with them.
pub open spec fn verb_in(subject: Seq<char>, base: Seq<char>, platform: Seq<char>) -> Option<
    Seq<char>,
> {
    let rest = subject.skip(base.len() as int);
    let leafless = rest.take(rest.len() - platform.len());
    if begins_with(subject, base) && finishes_with(rest, platform) && leafless.len() > 0
        && leafless.last() == '.' {
        Some(leafless.drop_last())
    } else {
        None
    }
}

/// The verb of a command's subject: what is left of it without the prefix
/// `base` and this instance's `.<platform>` leaf. `None` for a foreign
/// subject.
pub fn verb_of<'a>(subject: &'a str, base: &str, platform: &str) -> (verb: Option<&'a str>)
    ensures
        match verb {
            Some(v) => verb_in(subject@, base@, platform@) == Some(v@),
            None => verb_in(subject@, base@, platform@) is None,
        },
{
    proof {
        reveal_strlit(".");
    }
    let rest: &'a str = match text::strip_prefix(subject, base) {
        Some(rest) => rest,
        None => {
            return None;
        },
    };
    let leafless: &'a str = match text::strip_suffix(rest, platform) {
        Some(leafless) => leafless,
        None => {
            return None;
        },
    };
    let verb: Option<&'a str> = text::strip_suffix(leafless, ".");
    proof {
        let l = leafless@;
        if l.len() > 0 {
            assert(l.skip(l.len() - 1) =~= seq![l.last()]);
            assert(l.take(l.len() - 1) =~= l.drop_last());
            assert("."@ =~= seq!['.']);
            if finishes_with(l, "."@) {
                assert(seq![l.last()][0] == '.');
            }
        }
    }
    verb
}

impl Verb {
    /// What the text asks for.
    pub open spec fn meaning(verb: Seq<char>) -> Verb {
        if verb == "play.random"@ {
            Verb::PlayRandom
        } else if verb == "play.file"@ {
            Verb::PlayFile
        } else if verb == "play.at"@ {
            Verb::PlayAt
        } else if verb == "skip"@ {
            Verb::Skip
        } else if verb == "back"@ {
            Verb::Back
        } else if verb == "seek"@ {
            Verb::Seek
        } else {
            Verb::Unknown
        }
    }

    /// What the text asks for.
    pub fn parse(verb: &str) -> (parsed: Verb)
        ensures
            parsed == Verb::meaning(verb@),
    {
        if text::same(verb, "play.random") {
            Verb::PlayRandom
        } else if text::same(verb, "play.file") {
            Verb::PlayFile
        } else if text::same(verb, "play.at") {
            Verb::PlayAt
        } else if text::same(verb, "skip") {
            Verb::Skip
        } else if text::same(verb, "back") {
            Verb::Back
        } else if text::same(verb, "seek") {
            Verb::Seek
        } else {
            Verb::Unknown
        }
    }

    /// What the verb's payload is to be decoded as.
    pub open spec fn payload(self) -> PayloadKind {
        match self {
            Verb::PlayFile => PayloadKind::File,
            Verb::PlayAt => PayloadKind::FileAt,
            Verb::Skip => PayloadKind::Count,
            Verb::Back => PayloadKind::Count,
            Verb::Seek => PayloadKind::Delta,
            Verb::PlayRandom => PayloadKind::Nothing,
            Verb::Unknown => PayloadKind::Nothing,
        }
    }

    /// What the verb's payload is to be decoded as.
    pub fn payload_kind(self) -> (kind: PayloadKind)
        ensures
            kind == self.payload(),
    {
        match self {
            Verb::PlayFile => PayloadKind::File,
            Verb::PlayAt => PayloadKind::FileAt,
            Verb::Skip | Verb::Back => PayloadKind::Count,
            Verb::Seek => PayloadKind::Delta,
            Verb::PlayRandom | Verb::Unknown => PayloadKind::Nothing,
        }
    }
}

/// The domain at a place in [`DOMAINS`].
pub open spec fn domain_text(at: int) -> Seq<char> {
    DOMAINS@[at]@
}

/// The verb at a place in [`VERBS`].
pub open spec fn verb_text(at: int) -> Seq<char> {
    VERBS@[at]@
}

/// What the subjects of a domain's commands begin with.
pub open spec fn base_of(env: Seq<char>, domain: Seq<char>) -> Seq<char> {
    subject_of(env, domain, ""@)
}

/// The subject on which a platform's instance takes a command.
pub open spec fn command_subject(
    env: Seq<char>,
    domain: Seq<char>,
    verb: Seq<char>,
    platform: Seq<char>,
) -> Seq<char> {
    base_of(env, domain) + verb + "."@ + platform
}

/// The subject that one platform's last-value cache of a domain is kept under.
pub open spec fn cache_subject(env: Seq<char>, domain: Seq<char>, platform: Seq<char>) -> Seq<char> {
    subject_of(env, domain, "lastplayed"@) + "."@ + platform
}

/// The verb of a subject that is a command to this platform's instance, on
/// whichever domain.
pub open spec fn accepted(env: Seq<char>, platform: Seq<char>, subject: Seq<char>) -> Option<
    Seq<char>,
> {
    match verb_in(subject, base_of(env, domain_text(0)), platform) {
        Some(verb) => Some(verb),
        None => verb_in(subject, base_of(env, domain_text(1)), platform),
    }
}

/// The record names a clip of the playlist.
pub open spec fn resumable(files: Seq<ClipFile>, record: Option<LastPlayed>) -> bool {
    record matches Some(r) && !not_found(files, r.file@)
}

/// The fields of what is published to the last-value cache.
pub open spec fn record_fields(file: Seq<char>, position_ms: i64) -> Map<Seq<char>, JsonView> {
    no_fields().insert("emitted_at"@, JsonView::Text(""@)).insert(
        "file"@,
        JsonView::Text(file),
    ).insert("position_ms"@, JsonView::Int(position_ms as int))
}

impl Control {
    /// The subject that this instance's last-value cache of `domain` is kept
    /// under.
    pub fn lastplayed_subject(&self, domain: &str) -> (subject: String)
        ensures
            subject@ == cache_subject(self.env@, domain@, self.platform@),
    {
        subject(self.env.as_str(), domain, "lastplayed").concat(".").concat(self.platform.as_str())
    }

    /// The declarations of the last-value caches: one per domain, which keeps
    /// the last message of each platform.
    pub fn stream_configs(&self) -> (configs: Vec<StreamConfig>)
        ensures
            configs@.len() == DOMAINS@.len(),
            forall|i: int|
                #![trigger configs@[i]]
                0 <= i < configs@.len() ==> {
                    &&& configs@[i].name@ == stream_name(domain_text(i))
                    &&& configs@[i].subject@ == subject_of(
                        self.env@,
                        domain_text(i),
                        "lastplayed"@,
                    ) + ".*"@
                    &&& configs@[i].max_messages_per_subject == 1
                },
    {
        let mut configs: Vec<StreamConfig> = Vec::new();
        let mut i: usize = 0;
        while i < 2
            invariant
                i <= 2,
                configs@.len() == i,
                forall|k: int|
                    #![trigger configs@[k]]
                    0 <= k < i ==> {
                        &&& configs@[k].name@ == stream_name(domain_text(k))
                        &&& configs@[k].subject@ == subject_of(
                            self.env@,
                            domain_text(k),
                            "lastplayed"@,
                        ) + ".*"@
                        &&& configs@[k].max_messages_per_subject == 1
                    },
            decreases 2 - i,
        {
            let domain: &str = DOMAINS[i];
            configs.push(
                StreamConfig {
                    name: lastplayed_stream(domain),
                    subject: subject(self.env.as_str(), domain, "lastplayed").concat(".*"),
                    max_messages_per_subject: 1,
                },
            );
            i = i + 1;
        }
        configs
    }

    /// The subjects to take commands on: every verb under every domain, each
    /// with this instance's platform leaf, so that one platform's command never
    /// reaches another's stream.
    pub fn command_subjects(&self) -> (subjects: Vec<String>)
        ensures
            subjects@.len() == 12,
            forall|k: int|
                0 <= k < subjects@.len() ==> (#[trigger] subjects@[k])@ == command_subject(
                    self.env@,
                    domain_text(k / 6),
                    verb_text(k % 6),
                    self.platform@,
                ),
    {
        let mut subjects: Vec<String> = Vec::new();
        let mut k: usize = 0;
        while k < 12
            invariant
                k <= 12,
                subjects@.len() == k,
                forall|j: int|
                    0 <= j < k ==> (#[trigger] subjects@[j])@ == command_subject(
                        self.env@,
                        domain_text(j / 6),
                        verb_text(j % 6),
                        self.platform@,
                    ),
            decreases 12 - k,
        {
            let base: String = subject(self.env.as_str(), DOMAINS[k / 6], "");
            let subject: String = base.concat(VERBS[k % 6]).concat(".").concat(
                self.platform.as_str(),
            );
            subjects.push(subject);
            k = k + 1;
        }
        subjects
    }

    /// The verb of a subject that is a command to this instance; `None` for a
    /// foreign subject.
    pub fn accept<'a>(&self, subject_text: &'a str) -> (verb: Option<&'a str>)
        ensures
            match verb {
                Some(v) => accepted(self.env@, self.platform@, subject_text@) == Some(v@),
                None => accepted(self.env@, self.platform@, subject_text@) is None,
            },
    {
        let base: String = subject(self.env.as_str(), DOMAINS[0], "");
        match verb_of(subject_text, base.as_str(), self.platform.as_str()) {
            Some(verb) => Some(verb),
            None => {
                let base: String = subject(self.env.as_str(), DOMAINS[1], "");
                verb_of(subject_text, base.as_str(), self.platform.as_str())
            },
        }
    }

    fn read_step(&self, domain: usize) -> (step: ResumeStep)
        requires
            domain < 2,
        ensures
            self.reads(step, domain as int),
    {
        ResumeStep::Read {
            domain,
            stream: lastplayed_stream(DOMAINS[domain]),
            subject: self.lastplayed_subject(DOMAINS[domain]),
        }
    }

    /// The step reads this instance's record in the cache of the domain at this
    /// place in [`DOMAINS`].
    pub open spec fn reads(&self, step: ResumeStep, at: int) -> bool {
        step matches ResumeStep::Read { domain, stream, subject } && domain == at && stream@
            == stream_name(domain_text(at)) && subject@ == cache_subject(
            self.env@,
            domain_text(at),
            self.platform@,
        )
    }

    /// The first step towards resuming. Without a connection there is nothing
    /// to resume from, and reading would only hold up the first frame.
    pub fn resume_start(&self, connected: bool) -> (step: ResumeStep)
        ensures
            connected ==> self.reads(step, 0),
            !connected ==> step is ColdStart,
    {
        if connected {
            self.read_step(0)
        } else {
            ResumeStep::ColdStart
        }
    }

    /// The step after reading the cache of the domain at `domain`: `record` is
    /// what it holds of this instance (`None`: no cache, no message, or one
    /// that could not be decoded). A record of a clip that has left the corpus
    /// counts as none. The domains are tried in order, so that an instance
    /// resumes from the legacy cache when only that one holds its record.
    pub fn resume_next(
        &self,
        player: &Player,
        domain: usize,
        record: &Option<LastPlayed>,
    ) -> (step: ResumeStep)
        requires
            domain < DOMAINS@.len(),
        ensures
            resumable(player.files@, *record) ==> (step matches ResumeStep::Resume {
                index,
                position_ms,
            } && found_at(player.files@, record->0.file@, index as int) && position_ms
                == record->0.position_ms),
            !resumable(player.files@, *record) && domain + 1 < DOMAINS@.len() ==> self.reads(
                step,
                domain + 1,
            ),
            !resumable(player.files@, *record) && domain + 1 == DOMAINS@.len()
                ==> step is ColdStart,
    {
        if let Some(r) = record {
            if let Some(index) = player.find(r.file.as_str()) {
                assert(is_named(player.files@[index as int], r.file@));
                return ResumeStep::Resume { index, position_ms: r.position_ms };
            }
        }
        if domain < 1 {
            self.read_step(domain + 1)
        } else {
            ResumeStep::ColdStart
        }
    }

    /// What to publish at running time `now`: the clip that plays and the
    /// position in it, once per domain, so that every cache holds the same
    /// record. Nothing when nothing is live.
    pub fn tick(&self, player: &Player, now: Option<u64>) -> (tick: Option<Tick>)
        requires
            player.wf(),
        ensures
            tick is Some <==> player.clips@.len() > 0,
            tick matches Some(t) ==> {
                &&& t.subjects@.len() == DOMAINS@.len()
                &&& forall|i: int|
                    0 <= i < t.subjects@.len() ==> (#[trigger] t.subjects@[i])@ == cache_subject(
                        self.env@,
                        domain_text(i),
                        self.platform@,
                    )
                &&& t.payload@ == json_text(
                    record_fields(
                        basename(player.files@[player.clips@[0].index as int]),
                        position(player.clips@[0], now),
                    ),
                )
            },
    {
        match player.playhead(now) {
            Some((file, position_ms)) => {
                let record: LastPlayed = LastPlayed { file, position_ms };
                let mut subjects: Vec<String> = Vec::new();
                subjects.push(self.lastplayed_subject(DOMAINS[0]));
                subjects.push(self.lastplayed_subject(DOMAINS[1]));
                Some(Tick { subjects, payload: record.payload() })
            },
            None => None,
        }
    }
}

impl LastPlayed {
    /// The record as it is published. The time of its making is left empty:
    /// nobody reads it.
    pub fn payload(&self) -> (text: String)
        ensures
            text@ == json_text(record_fields(self.file@, self.position_ms)),
    {
        let mut object: serde_json::Map<String, serde_json::Value> = object_new();
        object_insert(&mut object, "emitted_at".to_string(), text_value("".to_string()));
        object_insert(&mut object, "file".to_string(), text_value(self.file.clone()));
        object_insert(&mut object, "position_ms".to_string(), int_value(self.position_ms));
        object_text(object)
    }
}

/// Whether boot still waits for the connection, having waited `waited_ms`.
pub fn connect_step(connected: bool, waited_ms: u64) -> (step: ConnectStep)
    ensures
        step == (if connected {
            ConnectStep::Connected
        } else if waited_ms >= CONNECT_WINDOW_MS {
            ConnectStep::TimedOut
        } else {
            ConnectStep::WaitOn
        }),
{
    if connected {
        ConnectStep::Connected
    } else if waited_ms >= CONNECT_WINDOW_MS {
        ConnectStep::TimedOut
    } else {
        ConnectStep::WaitOn
    }
}

/// How far a `seek` moves the playhead, ms; `None` when it does not, because
/// it asks for no move or could not be decoded.
pub fn seek_delta(arg: &Option<DeltaArg>) -> (delta_ms: Option<i64>)
    ensures
        delta_ms == (if arg is Some && arg->0.delta_ms != 0 {
            Some(arg->0.delta_ms)
        } else {
            None
        }),
{
    match arg {
        Some(a) => if a.delta_ms != 0 {
            Some(a.delta_ms)
        } else {
            None
        },
        None => None,
    }
}

impl Payload {
    /// What the payload was decoded as.
    pub open spec fn kind(&self) -> PayloadKind {
        match self {
            Payload::Nothing => PayloadKind::Nothing,
            Payload::File(_) => PayloadKind::File,
            Payload::FileAt(_) => PayloadKind::FileAt,
            Payload::Count(_) => PayloadKind::Count,
            Payload::Delta(_) => PayloadKind::Delta,
        }
    }

    /// The payload of a `play.file`, as far as it is one.
    pub open spec fn file(self) -> Option<PlayFile> {
        match self {
            Payload::File(arg) => arg,
            _ => None,
        }
    }

    /// The payload of a `play.at`, as far as it is one.
    pub open spec fn file_at(self) -> Option<PlayFileAt> {
        match self {
            Payload::FileAt(arg) => arg,
            _ => None,
        }
    }

    /// The payload of a `skip` or `back`, as far as it is one.
    pub open spec fn count(self) -> Option<NArg> {
        match self {
            Payload::Count(arg) => arg,
            _ => None,
        }
    }

    /// The payload of a `seek`, as far as it is one.
    pub open spec fn delta(self) -> Option<DeltaArg> {
        match self {
            Payload::Delta(arg) => arg,
            _ => None,
        }
    }
}

/// What a verb with this payload comes to. A `seek` is no command to dispatch:
/// where it lands is found out first, and one that does not move the playhead
/// is dropped.
pub open spec fn ordered(verb: Verb, payload: Payload) -> Order {
    match verb {
        Verb::PlayRandom => Order::Run(Command::PlayRandom),
        Verb::PlayFile => Order::Run(Command::PlayFile(payload.file())),
        Verb::PlayAt => Order::Run(Command::PlayAt(payload.file_at())),
        Verb::Skip => Order::Run(Command::Skip(payload.count())),
        Verb::Back => Order::Run(Command::Back(payload.count())),
        Verb::Seek => match payload.delta() {
            Some(arg) => if arg.delta_ms != 0 {
                Order::Seek { delta_ms: arg.delta_ms }
            } else {
                Order::Drop
            },
            None => Order::Drop,
        },
        Verb::Unknown => Order::Run(Command::Unknown),
    }
}

/// What a verb with this payload comes to. A payload that was decoded as
/// something else than the verb asks for is none.
pub fn order(verb: Verb, payload: Payload) -> (order: Order)
    ensures
        order == ordered(verb, payload),
{
    match verb {
        Verb::PlayRandom => Order::Run(Command::PlayRandom),
        Verb::PlayFile => match payload {
            Payload::File(arg) => Order::Run(Command::PlayFile(arg)),
            _ => Order::Run(Command::PlayFile(None)),
        },
        Verb::PlayAt => match payload {
            Payload::FileAt(arg) => Order::Run(Command::PlayAt(arg)),
            _ => Order::Run(Command::PlayAt(None)),
        },
        Verb::Skip => match payload {
            Payload::Count(arg) => Order::Run(Command::Skip(arg)),
            _ => Order::Run(Command::Skip(None)),
        },
        Verb::Back => match payload {
            Payload::Count(arg) => Order::Run(Command::Back(arg)),
            _ => Order::Run(Command::Back(None)),
        },
        Verb::Seek => match payload {
            Payload::Delta(arg) => match seek_delta(&arg) {
                Some(delta_ms) => Order::Seek { delta_ms },
                None => Order::Drop,
            },
            _ => Order::Drop,
        },
        Verb::Unknown => Order::Run(Command::Unknown),
    }
}

/// How many clips a `skip` or `back` asks for: one when it could not be
/// decoded, because the move is what was asked for and the count is the
/// detail.
pub open spec fn count_of(arg: Option<NArg>) -> int {
    match arg {
        Some(a) => at_least_one(a.n as int),
        None => 1,
    }
}

/// Playback is redirected, in `bin`, to the top of playlist entry `index`.
pub open spec fn redirected(
    before: &Player,
    after: &Player,
    redirect: Option<Redirect>,
    bin: u64,
    index: int,
) -> bool {
    &&& after.same_setup(before)
    &&& after.recoveries == before.recoveries
    &&& after.clips@ == after_redirect(before.clips@, bin, index, 0)
    &&& redirect matches Some(r)
    &&& r.cuts_to(before.files@, before.passthrough, before.clips@, bin, index, 0)
}

/// The command redirects playback. One that could not be decoded, names no clip
/// of the playlist or is unknown does not; but a move that could not be decoded
/// does.
pub open spec fn redirects(files: Seq<ClipFile>, command: Command) -> bool {
    match command {
        Command::PlayRandom => true,
        Command::PlayFile(arg) => arg is Some && !not_found(files, arg->0.file@),
        Command::PlayAt(arg) => arg is Some && !not_found(files, arg->0.file@),
        Command::Skip(_) => true,
        Command::Back(_) => true,
        Command::Unknown => false,
    }
}

fn names_a_clip(player: &Player, name: &str) -> (yes: bool)
    ensures
        yes == !not_found(player.files@, name@),
{
    match player.find(name) {
        Some(index) => {
            assert(is_named(player.files@[index as int], name@));
            true
        },
        None => false,
    }
}

/// Whether a command redirects playback, which takes a live clip to cut from.
pub fn needs_a_live_clip(player: &Player, command: &Command) -> (yes: bool)
    ensures
        yes == redirects(player.files@, *command),
{
    match command {
        Command::PlayRandom => true,
        Command::PlayFile(arg) => match arg {
            Some(p) => names_a_clip(player, p.file.as_str()),
            None => false,
        },
        Command::PlayAt(arg) => match arg {
            Some(p) => names_a_clip(player, p.file.as_str()),
            None => false,
        },
        Command::Skip(_) => true,
        Command::Back(_) => true,
        Command::Unknown => false,
    }
}

/// Map a command to what it does to the player; `bin` is for the clip it
/// brings up, if any. A `play.file` or `play.at` that could not be decoded, and
/// an unknown verb, do nothing.
pub fn dispatch(player: &mut Player, command: &Command, bin: u64) -> (redirect: Option<Redirect>)
    requires
        old(player).wf(),
        redirects(old(player).files@, *command) ==> old(player).clips@.len() > 0,
    ensures
        final(player).wf(),
        redirect is Some <==> redirects(old(player).files@, *command),
        ({
            let len = old(player).files@.len() as int;
            let active = old(player).clips@[0].index;
            match *command {
                Command::PlayRandom => {
                    &&& redirect is Some
                    &&& redirect->0.spawned.index < len
                    &&& redirected(
                        old(player),
                        final(player),
                        redirect,
                        bin,
                        redirect->0.spawned.index as int,
                    )
                },
                Command::PlayFile(Some(p)) => old(player).redirects_to_name(
                    final(player),
                    redirect,
                    bin,
                    p.file@,
                    0,
                ),
                Command::PlayAt(Some(p)) => old(player).redirects_to_name(
                    final(player),
                    redirect,
                    bin,
                    p.file@,
                    p.position_ms,
                ),
                Command::Skip(arg) => redirected(
                    old(player),
                    final(player),
                    redirect,
                    bin,
                    (active + count_of(arg)) % len,
                ),
                Command::Back(arg) => redirected(
                    old(player),
                    final(player),
                    redirect,
                    bin,
                    (active - count_of(arg)) % len,
                ),
                _ => redirect is None && *final(player) == *old(player),
            }
        }),
{
    match command {
        Command::PlayRandom => Some(player.play_random(bin)),
        Command::PlayFile(arg) => match arg {
            Some(p) => player.play_file(bin, p.file.as_str()),
            None => None,
        },
        Command::PlayAt(arg) => match arg {
            Some(p) => player.play_at(bin, p.file.as_str(), p.position_ms),
            None => None,
        },
        Command::Skip(arg) => {
            let n: i32 = match arg {
                Some(a) => a.n,
                None => 1,
            };
            Some(player.skip(bin, n))
        },
        Command::Back(arg) => {
            let n: i32 = match arg {
                Some(a) => a.n,
                None => 1,
            };
            Some(player.back(bin, n))
        },
        Command::Unknown => None,
    }
}

/// A command's subject gives its verb back: whatever the prefix, verb and
/// platform, stripping the prefix and the platform's leaf from the subject
/// they make gives the verb.
pub proof fn law_subject_gives_its_verb_back(base: Seq<char>, verb: Seq<char>, platform: Seq<char>)
    ensures
        verb_in(base + verb + "."@ + platform, base, platform) == Some(verb),
{
    reveal_strlit(".");
    let subject = base + verb + "."@ + platform;
    let rest = subject.skip(base.len() as int);
    assert(subject.take(base.len() as int) =~= base);
    assert(rest =~= verb + "."@ + platform);
    assert(rest.skip(rest.len() - platform.len()) =~= platform);
    let leafless = rest.take(rest.len() - platform.len());
    assert(leafless =~= verb + "."@);
    assert(leafless.drop_last() =~= verb);
}

/// Platforms are isolated: a subject that ends in one platform's leaf is no
/// command to the instance of another, whatever stands before the leaf.
/// (A platform is one token of a subject, so it holds no dot.)
pub proof fn law_platforms_are_isolated(
    env: Seq<char>,
    front: Seq<char>,
    theirs: Seq<char>,
    ours: Seq<char>,
)
    requires
        theirs != ours,
        !theirs.contains('.'),
        !ours.contains('.'),
    ensures
        accepted(env, ours, front + "."@ + theirs) is None,
{
    lemma_foreign_leaf(front, base_of(env, domain_text(0)), theirs, ours);
    lemma_foreign_leaf(front, base_of(env, domain_text(1)), theirs, ours);
}

proof fn lemma_foreign_leaf(
    front: Seq<char>,
    base: Seq<char>,
    theirs: Seq<char>,
    ours: Seq<char>,
)
    requires
        theirs != ours,
        !theirs.contains('.'),
        !ours.contains('.'),
    ensures
        verb_in(front + "."@ + theirs, base, ours) is None,
{
    reveal_strlit(".");
    let subject = front + "."@ + theirs;
    let n = subject.len() as int;
    let rest = subject.skip(base.len() as int);
    let leafless = rest.take(rest.len() - ours.len());
    if verb_in(subject, base, ours) is Some {
        let dot = n - ours.len() - 1;
        assert(leafless.last() == subject[dot]);
        assert(rest.skip(rest.len() - ours.len()) =~= subject.skip(n - ours.len()));
        assert(subject.skip(n - ours.len()) == ours);
        assert(subject[n - theirs.len() - 1] == '.');
        if theirs.len() == ours.len() {
            assert(subject.skip(n - theirs.len()) =~= theirs);
        } else if theirs.len() < ours.len() {
            let at = ours.len() - theirs.len() - 1;
            assert(ours[at] == subject.skip(n - ours.len())[at]);
            assert(ours[at] == '.');
        } else {
            let at = theirs.len() - ours.len() - 1;
            assert(theirs[at] == subject[dot]);
            assert(theirs[at] == '.');
        }
    }
}

/// Every subject that commands are taken on is accepted as its own verb, under
/// either domain, and none of those verbs is unknown.
pub proof fn law_subscribed_subjects_are_accepted(
    env: Seq<char>,
    platform: Seq<char>,
    domain: int,
    verb: int,
)
    requires
        0 <= domain < DOMAINS@.len(),
        0 <= verb < VERBS@.len(),
    ensures
        accepted(
            env,
            platform,
            command_subject(env, domain_text(domain), verb_text(verb), platform),
        ) == Some(verb_text(verb)),
        Verb::meaning(verb_text(verb)) == seq![
            Verb::PlayRandom,
            Verb::PlayFile,
            Verb::PlayAt,
            Verb::Skip,
            Verb::Back,
            Verb::Seek,
        ][verb],
{
    reveal_strlit("playout");
    reveal_strlit("vlc");
    reveal_strlit("play.random");
    reveal_strlit("play.file");
    reveal_strlit("play.at");
    reveal_strlit("skip");
    reveal_strlit("back");
    reveal_strlit("seek");
    assert("skip"@[1] != "seek"@[1]);
    assert("skip"@[0] != "back"@[0]);
    assert("seek"@[0] != "back"@[0]);
    let subject = command_subject(env, domain_text(domain), verb_text(verb), platform);
    law_subject_gives_its_verb_back(base_of(env, domain_text(domain)), verb_text(verb), platform);
    if domain == 1 {
        let other = base_of(env, domain_text(0));
        let at = "tripbot."@.len() + env.len() + "."@.len();
        assert(other[at as int] == "playout"@[0]);
        assert(subject[at as int] == "vlc"@[0]);
        if begins_with(subject, other) {
            assert(subject.take(other.len() as int)[at as int] == subject[at as int]);
        }
    }
}

/// Which of the caches' records, in the order in which they are read, is
/// resumed from; their number when none is.
pub open spec fn resumed_from(files: Seq<ClipFile>, records: Seq<Option<LastPlayed>>) -> int
    decreases records.len(),
{
    if records.len() == 0 || resumable(files, records[0]) {
        0
    } else {
        1 + resumed_from(files, records.drop_first())
    }
}

/// The first record that names a clip of the playlist is resumed from: every
/// one read before it is missing or names a clip that has left, and it names
/// one that is there.
pub proof fn law_the_first_usable_record_is_resumed(
    files: Seq<ClipFile>,
    records: Seq<Option<LastPlayed>>,
)
    ensures
        0 <= resumed_from(files, records) <= records.len(),
        forall|i: int|
            0 <= i < resumed_from(files, records) ==> !resumable(files, #[trigger] records[i]),
        resumed_from(files, records) < records.len() ==> resumable(
            files,
            records[resumed_from(files, records)],
        ),
    decreases records.len(),
{
    if records.len() > 0 && !resumable(files, records[0]) {
        let rest = records.drop_first();
        law_the_first_usable_record_is_resumed(files, rest);
        assert forall|i: int| 0 <= i < resumed_from(files, records) implies !resumable(
            files,
            #[trigger] records[i],
        ) by {
            if i > 0 {
                assert(records[i] == rest[i - 1]);
            }
        }
    }
}

/// A decoded payload reaches the command of its verb whole: when it was decoded
/// as what the verb asks for, the command or seek that the verb comes to
/// carries it.
pub proof fn law_a_payload_reaches_its_command(verb: Verb, payload: Payload)
    requires
        payload.kind() == verb.payload(),
    ensures
        match payload {
            Payload::File(arg) => ordered(verb, payload) == Order::Run(Command::PlayFile(arg)),
            Payload::FileAt(arg) => ordered(verb, payload) == Order::Run(Command::PlayAt(arg)),
            Payload::Count(arg) => ordered(verb, payload) == (if verb == Verb::Skip {
                Order::Run(Command::Skip(arg))
            } else {
                Order::Run(Command::Back(arg))
            }),
            Payload::Delta(arg) => ordered(verb, payload) == (if arg is Some && arg->0.delta_ms
                != 0 {
                Order::Seek { delta_ms: arg->0.delta_ms }
            } else {
                Order::Drop
            }),
            Payload::Nothing => ordered(verb, payload) == (if verb == Verb::PlayRandom {
                Order::Run(Command::PlayRandom)
            } else {
                Order::Run(Command::Unknown)
            }),
        },
{
}

/// A clip whose file name is not valid Unicode is not resumed, and neither is
/// another in its place: its record names no file of the playlist.
pub proof fn law_a_nameless_clip_is_not_resumed(
    files: Seq<ClipFile>,
    clip: Clip,
    record: LastPlayed,
)
    requires
        clip.index < files.len(),
        files[clip.index as int].name is None,
        forall|j: int|
            0 <= j < files.len() ==> ((#[trigger] files[j]).name matches Some(name) ==> name@.len()
                > 0),
        record.file@ == basename(files[clip.index as int]),
    ensures
        !resumable(files, Some(record)),
{
    assert(not_found(files, record.file@));
}

/// A restart resumes where playback was: the record that a tick makes of the
/// active clip is usable, and resuming from it finds that clip again, as long
/// as its file name is valid Unicode and no other file of the playlist has it.
/// The position it resumes at is the one at the tick, so that it lies no
/// further behind than the time from the tick to the end of the old instance:
/// one interval at most.
pub proof fn law_restart_resumes_where_playback_was(
    files: Seq<ClipFile>,
    clip: Clip,
    record: LastPlayed,
    ticked: u64,
    stopped: u64,
)
    requires
        clip.index < files.len(),
        files[clip.index as int].name is Some,
        forall|j: int|
            0 <= j < files.len() && j != clip.index ==> !is_named(
                #[trigger] files[j],
                basename(files[clip.index as int]),
            ),
        record.file@ == basename(files[clip.index as int]),
        record.position_ms == position(clip, Some(ticked)),
        clip.start_rt is Some,
        clip.start_rt->0 <= ticked <= stopped <= ticked + TICK_INTERVAL_MS * 1_000_000,
        clip.offset_ms + stopped / 1_000_000 - clip.start_rt->0 / 1_000_000 <= i64::MAX,
    ensures
        resumable(files, Some(record)),
        forall|index: int| #[trigger]
            found_at(files, record.file@, index) ==> index == clip.index,
        0 <= position(clip, Some(stopped)) - record.position_ms <= TICK_INTERVAL_MS,
{
    assert(is_named(files[clip.index as int], record.file@));
    law_playhead_advances_with_the_clock(clip, ticked, stopped);
}

/// A domain's cache is named after it in capitals, between two fixed parts.
pub proof fn law_a_cache_is_named_after_its_domain(domain: Seq<char>)
    ensures
        ({
            let name = stream_name(domain);
            let n = domain.len() as int;
            &&& name.len() == 8 + n + 11
            &&& name.take(8) == "TRIPBOT_"@
            &&& name.skip(8 + n) == "_LASTPLAYED"@
            &&& forall|i: int|
                0 <= i < n ==> name[8 + i] as int == (if 'a' <= #[trigger] domain[i] && domain[i]
                    <= 'z' {
                    domain[i] as int - 32
                } else {
                    domain[i] as int
                })
        }),
{
    reveal_strlit("TRIPBOT_");
    reveal_strlit("_LASTPLAYED");
    let name = stream_name(domain);
    assert(name.take(8) =~= "TRIPBOT_"@);
    assert(name.skip(8 + domain.len() as int) =~= "_LASTPLAYED"@);
}

/// A subject is its four tokens with dots between them, `tripbot` first: the
/// environment, the domain and the verb stand in it whole and in that order.
pub proof fn law_a_subject_holds_its_tokens(env: Seq<char>, domain: Seq<char>, verb: Seq<char>)
    ensures
        ({
            let s = subject_of(env, domain, verb);
            let d = 8 + env.len() as int + 1;
            let v = d + domain.len() as int + 1;
            &&& s.len() == v + verb.len()
            &&& s.take(8) == "tripbot."@
            &&& s.subrange(8, 8 + env.len() as int) == env
            &&& s[d - 1] == '.'
            &&& s.subrange(d, d + domain.len()) == domain
            &&& s[v - 1] == '.'
            &&& s.skip(v) == verb
        }),
{
    reveal_strlit("tripbot.");
    reveal_strlit(".");
    let s = subject_of(env, domain, verb);
    let d = 8 + env.len() as int + 1;
    let v = d + domain.len() as int + 1;
    assert(s.take(8) =~= "tripbot."@);
    assert(s.subrange(8, 8 + env.len() as int) =~= env);
    assert(s.subrange(d, d + domain.len()) =~= domain);
    assert(s.skip(v) =~= verb);
}

/// A command's subject is that of its verb with the platform for a leaf, and a
/// cache's that of `lastplayed` with the platform for a leaf.
pub proof fn law_the_platform_is_the_subjects_leaf(
    env: Seq<char>,
    domain: Seq<char>,
    verb: Seq<char>,
    platform: Seq<char>,
)
    ensures
        base_of(env, domain) + verb == subject_of(env, domain, verb),
        command_subject(env, domain, verb, platform) == subject_of(
            env,
            domain,
            verb + seq!['.'] + platform,
        ),
        cache_subject(env, domain, platform) == subject_of(
            env,
            domain,
            "lastplayed"@ + seq!['.'] + platform,
        ),
{
    reveal_strlit("");
    reveal_strlit(".");
    assert("."@ =~= seq!['.']);
    assert(base_of(env, domain) + verb =~= subject_of(env, domain, verb));
    assert(command_subject(env, domain, verb, platform) =~= subject_of(
        env,
        domain,
        verb + seq!['.'] + platform,
    ));
    assert(cache_subject(env, domain, platform) =~= subject_of(
        env,
        domain,
        "lastplayed"@ + seq!['.'] + platform,
    ));
}

/// What is taken for a subject's verb stands in it, between the prefix and the
/// platform's leaf, and nothing else does.
pub proof fn law_a_verb_is_what_its_subject_holds(
    subject: Seq<char>,
    base: Seq<char>,
    platform: Seq<char>,
)
    ensures
        verb_in(subject, base, platform) matches Some(verb) ==> subject == base + verb + seq!['.']
            + platform,
        forall|verb: Seq<char>|
            subject == #[trigger] (base + verb) + seq!['.'] + platform ==> verb_in(
                subject,
                base,
                platform,
            ) == Some(verb),
{
    reveal_strlit(".");
    assert("."@ =~= seq!['.']);
    if verb_in(subject, base, platform) is Some {
        let verb = verb_in(subject, base, platform)->0;
        let rest = subject.skip(base.len() as int);
        let leafless = rest.take(rest.len() - platform.len());
        assert(subject =~= subject.take(base.len() as int) + rest);
        assert(rest =~= leafless + rest.skip(rest.len() - platform.len()));
        assert(leafless =~= verb + seq!['.']);
        assert(subject =~= base + verb + seq!['.'] + platform);
    }
    assert forall|verb: Seq<char>|
        subject == #[trigger] (base + verb) + seq!['.'] + platform implies verb_in(
        subject,
        base,
        platform,
    ) == Some(verb) by {
        law_subject_gives_its_verb_back(base, verb, platform);
    }
}

/// A subject is a command to this platform's instance exactly when it is one of
/// the environment's under `playout` or `vlc` with the platform for its leaf;
/// the verb is what stands between.
pub proof fn law_commands_are_the_subjects_of_either_domain(
    env: Seq<char>,
    platform: Seq<char>,
    subject: Seq<char>,
    verb: Seq<char>,
)
    ensures
        accepted(env, platform, subject) == Some(verb) <==> {
            ||| subject == subject_of(env, "playout"@, verb + seq!['.'] + platform)
            ||| subject == subject_of(env, "vlc"@, verb + seq!['.'] + platform)
        },
{
    reveal_strlit("playout");
    reveal_strlit("vlc");
    law_the_platform_is_the_subjects_leaf(env, "playout"@, verb, platform);
    law_the_platform_is_the_subjects_leaf(env, "vlc"@, verb, platform);
    reveal_strlit(".");
    assert("."@ =~= seq!['.']);
    let (one, two) = (base_of(env, "playout"@), base_of(env, "vlc"@));
    law_a_verb_is_what_its_subject_holds(subject, one, platform);
    law_a_verb_is_what_its_subject_holds(subject, two, platform);
    if subject == two + verb + seq!['.'] + platform {
        law_subject_gives_its_verb_back(two, verb, platform);
        let at = ("tripbot."@.len() + env.len() + "."@.len()) as int;
        assert(one[at] == "playout"@[0]);
        assert(subject[at] == "vlc"@[0]);
        if begins_with(subject, one) {
            assert(subject.take(one.len() as int)[at] == subject[at]);
        }
    }
    if subject == one + verb + seq!['.'] + platform {
        law_subject_gives_its_verb_back(one, verb, platform);
    }
}

/// The six verbs mean what they say, and every other text means nothing.
pub proof fn law_the_six_verbs_and_no_other(verb: Seq<char>)
    ensures
        Verb::meaning(verb) == Verb::PlayRandom <==> verb == "play.random"@,
        Verb::meaning(verb) == Verb::PlayFile <==> verb == "play.file"@,
        Verb::meaning(verb) == Verb::PlayAt <==> verb == "play.at"@,
        Verb::meaning(verb) == Verb::Skip <==> verb == "skip"@,
        Verb::meaning(verb) == Verb::Back <==> verb == "back"@,
        Verb::meaning(verb) == Verb::Seek <==> verb == "seek"@,
{
    reveal_strlit("play.random");
    reveal_strlit("play.file");
    reveal_strlit("play.at");
    reveal_strlit("skip");
    reveal_strlit("back");
    reveal_strlit("seek");
    assert("play.random"@.len() == 11 && "play.file"@.len() == 9 && "play.at"@.len() == 7);
    assert("skip"@.len() == 4 && "back"@.len() == 4 && "seek"@.len() == 4);
    assert("skip"@[1] != "seek"@[1]);
    assert("skip"@[0] != "back"@[0]);
    assert("seek"@[0] != "back"@[0]);
}

/// Every verb comes to its own command with its own payload, and to the command
/// without one when the payload could not be decoded; a seek comes to its move,
/// and to nothing without one.
pub proof fn law_every_verb_comes_to_its_own_command(
    file: Option<PlayFile>,
    at: Option<PlayFileAt>,
    count: Option<NArg>,
    delta: Option<DeltaArg>,
    any: Payload,
)
    ensures
        Verb::PlayFile.payload() == PayloadKind::File,
        Verb::PlayAt.payload() == PayloadKind::FileAt,
        Verb::Skip.payload() == PayloadKind::Count,
        Verb::Back.payload() == PayloadKind::Count,
        Verb::Seek.payload() == PayloadKind::Delta,
        Verb::PlayRandom.payload() == PayloadKind::Nothing,
        Verb::Unknown.payload() == PayloadKind::Nothing,
        ordered(Verb::PlayRandom, any) == Order::Run(Command::PlayRandom),
        ordered(Verb::Unknown, any) == Order::Run(Command::Unknown),
        ordered(Verb::PlayFile, Payload::File(file)) == Order::Run(Command::PlayFile(file)),
        ordered(Verb::PlayAt, Payload::FileAt(at)) == Order::Run(Command::PlayAt(at)),
        ordered(Verb::Skip, Payload::Count(count)) == Order::Run(Command::Skip(count)),
        ordered(Verb::Back, Payload::Count(count)) == Order::Run(Command::Back(count)),
        delta is Some && delta->0.delta_ms != 0 ==> ordered(Verb::Seek, Payload::Delta(delta))
            == (Order::Seek { delta_ms: delta->0.delta_ms }),
        delta is None || delta->0.delta_ms == 0 ==> ordered(Verb::Seek, Payload::Delta(delta))
            == Order::Drop,
        !(any is File) ==> ordered(Verb::PlayFile, any) == Order::Run(Command::PlayFile(None)),
        !(any is FileAt) ==> ordered(Verb::PlayAt, any) == Order::Run(Command::PlayAt(None)),
        !(any is Count) ==> ordered(Verb::Skip, any) == Order::Run(Command::Skip(None)),
        !(any is Count) ==> ordered(Verb::Back, any) == Order::Run(Command::Back(None)),
        !(any is Delta) ==> ordered(Verb::Seek, any) == Order::Drop,
{
}

/// A move goes as many clips as it asks for, and one when it asks for fewer
/// than one or could not be decoded.
pub proof fn law_a_counted_move_goes_its_count(n: i32)
    ensures
        n >= 1 ==> count_of(Some(NArg { n })) == n,
        n < 1 ==> count_of(Some(NArg { n })) == 1,
        count_of(None) == 1,
{
}

/// A record can be resumed exactly when there is one and some file of the
/// playlist has the name in it.
pub proof fn law_a_record_of_a_file_can_be_resumed(
    files: Seq<ClipFile>,
    record: Option<LastPlayed>,
)
    ensures
        resumable(files, record) <==> record is Some && exists|i: int|
            0 <= i < files.len() && (#[trigger] files[i]).name is Some && files[i].name->0@
                == record->0.file@,
{
    if record is Some {
        let name = record->0.file@;
        if exists|i: int|
            0 <= i < files.len() && (#[trigger] files[i]).name is Some && files[i].name->0@ == name {
            let i = choose|i: int|
                0 <= i < files.len() && (#[trigger] files[i]).name is Some && files[i].name->0@
                    == name;
            assert(is_named(files[i], name));
        }
    }
}

/// A record holds the clip's name and the position, each under its own key, an
/// empty time of its making, and nothing else.
pub proof fn law_a_record_holds_the_playhead(file: Seq<char>, position_ms: i64, key: Seq<char>)
    ensures
        record_fields(file, position_ms).dom().contains(key) <==> {
            ||| key == "emitted_at"@
            ||| key == "file"@
            ||| key == "position_ms"@
        },
        record_fields(file, position_ms)["file"@] == JsonView::Text(file),
        record_fields(file, position_ms)["position_ms"@] == JsonView::Int(position_ms as int),
        record_fields(file, position_ms)["emitted_at"@] == JsonView::Text(Seq::empty()),
{
    reveal_strlit("emitted_at");
    reveal_strlit("file");
    reveal_strlit("position_ms");
    reveal_strlit("");
    assert("emitted_at"@.len() == 10 && "file"@.len() == 4 && "position_ms"@.len() == 11);
    assert(""@ =~= Seq::<char>::empty());
}

/// Resuming reads this instance's own subject in the cache of the domain it
/// says.
pub proof fn law_resuming_reads_its_own_record(control: Control, step: ResumeStep, at: int)
    ensures
        control.reads(step, at) <==> {
            &&& step is Read
            &&& step->domain == at
            &&& step->stream@ == stream_name(DOMAINS@[at]@)
            &&& step->subject@ == cache_subject(control.env@, DOMAINS@[at]@, control.platform@)
        },
{
}

/// A redirect to an entry leaves the active clip and that entry, from its top,
/// and does nothing else to the player.
pub proof fn law_a_redirected_player_cuts_to_the_entry(
    before: &Player,
    after: &Player,
    redirect: Option<Redirect>,
    bin: u64,
    index: int,
)
    requires
        redirected(before, after, redirect, bin, index),
        before.clips@.len() > 0,
        0 <= index <= usize::MAX,
    ensures
        after.files == before.files,
        after.passthrough == before.passthrough,
        after.recoveries == before.recoveries,
        after.clips@.len() == 2,
        after.clips@[0] == before.clips@[0],
        after.clips@[1] == (Clip { bin, index: index as usize, offset_ms: 0, start_rt: None }),
        redirect is Some,
        redirect->0.finish == before.clips@[0].bin,
        redirect->0.dropped@ == before.clips@.skip(1),
        redirect->0.spawned.bin == bin,
        redirect->0.spawned.index == index,
        redirect->0.spawned.offset_ms == 0,
        redirect->0.spawned.uri@ == "file://"@ + before.files@[index].path@,
{
}

/// A command redirects unless it could not be decoded, names no file of the
/// playlist, or is unknown; moves and the random one always do.
pub proof fn law_a_command_redirects_when_it_has_a_target(
    files: Seq<ClipFile>,
    file: PlayFile,
    at: PlayFileAt,
    count: Option<NArg>,
)
    ensures
        redirects(files, Command::PlayRandom),
        redirects(files, Command::Skip(count)),
        redirects(files, Command::Back(count)),
        !redirects(files, Command::Unknown),
        !redirects(files, Command::PlayFile(None)),
        !redirects(files, Command::PlayAt(None)),
        redirects(files, Command::PlayFile(Some(file))) == !not_found(files, file.file@),
        redirects(files, Command::PlayAt(Some(at))) == !not_found(files, at.file@),
{
}

/// The domains are `playout` and, behind it, `vlc`; the verbs are the six there
/// are, in the order in which their subjects are taken.
pub proof fn law_the_domains_and_the_verbs()
    ensures
        domain_text(0) == "playout"@,
        domain_text(1) == "vlc"@,
        verb_text(0) == "play.random"@,
        verb_text(1) == "play.file"@,
        verb_text(2) == "play.at"@,
        verb_text(3) == "skip"@,
        verb_text(4) == "back"@,
        verb_text(5) == "seek"@,
{
}

/// The cache is published every five seconds. Boot waits ten for the connection
/// and looks five times a second; the caches' declaration looks once a second.
pub proof fn law_the_control_planes_times()
    ensures
        TICK_INTERVAL_MS == 5 * 1_000,
        CONNECT_WINDOW_MS == 10 * 1_000,
        CONNECT_POLL_MS * 5 == 1_000,
        DECLARE_POLL_MS == 1_000,
{
}

} // verus!
