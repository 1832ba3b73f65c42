//! RTSP publish watchdog: DESCRIBE-probe the relay path the stream is
//! published to and give up loudly when it stops answering. The pipeline can
//! play on with a dead publish, so readiness alone misses exactly this
//! failure.

use crate::streak;
use crate::text::{begins_with, chars_of, first_index, index_of, starts_with, strip_prefix};
use vstd::prelude::*;
use vstd::string::StrSliceExecFns;
use vstd::utf8::{decode_utf8, pop_first_scalar, valid_utf8};

verus! {

/// How long one probe may take.
pub const PROBE_TIMEOUT_MS: u64 = 3_000;

/// Time between probes.
pub const INTERVAL_MS: u64 = 30_000;

/// Time before the first probe. Covers cold boot: the relay answers that the
/// path has no publisher until the first publish lands.
pub const INITIAL_DELAY_MS: u64 = 30_000;

/// Probes that have to fail back to back before the publish counts as dead.
pub const FAILURE_THRESHOLD: u32 = 3;

/// Why a probe has no good answer.
#[derive(Debug)]
pub enum ProbeError {
    /// The url is not an `rtsp://` one.
    NotRtsp { url: String },
    /// The relay hung up before its status line was complete.
    ClosedEarly,
    /// The relay answered something else than that the path has a publisher.
    UnexpectedStatus { status: String },
}

impl ProbeError {
    /// The error in words.
    pub fn message(&self) -> (text: String)
        ensures
            text@ == (match *self {
                ProbeError::NotRtsp { url } => "not an rtsp:// url: "@ + url@,
                ProbeError::ClosedEarly => "connection closed before status line"@,
                ProbeError::UnexpectedStatus { status } => "unexpected status: "@ + status@,
            }),
    {
        match self {
            ProbeError::NotRtsp { url } => "not an rtsp:// url: ".to_string().concat(url.as_str()),
            ProbeError::ClosedEarly => "connection closed before status line".to_string(),
            ProbeError::UnexpectedStatus { status } => {
                "unexpected status: ".to_string().concat(status.as_str())
            },
        }
    }
}

/// The authority of an `rtsp://` url: what stands between the scheme and the
/// first slash after it.
pub open spec fn authority(url: Seq<char>) -> Seq<char> {
    let rest = url.skip("rtsp://"@.len() as int);
    rest.take(first_index(rest, '/'))
}

/// The address to dial for an `rtsp://` url.
pub open spec fn dial_address(url: Seq<char>) -> Seq<char> {
    if authority(url).contains(':') {
        authority(url)
    } else {
        authority(url) + ":554"@
    }
}

/// host:port to dial for an rtsp:// url, defaulting to the RTSP port when the
/// url omits one.
pub fn relay_addr(url: &str) -> (addr: Result<String, ProbeError>)
    ensures
        addr is Ok <==> begins_with(url@, "rtsp://"@),
        addr matches Ok(a) ==> a@ == dial_address(url@),
        addr matches Err(e) ==> (e matches ProbeError::NotRtsp { url: u } && u@ == url@),
{
    match strip_prefix(url, "rtsp://") {
        None => Err(ProbeError::NotRtsp { url: url.to_string() }),
        Some(rest) => {
            let hostport: &str = rest.substring_char(0, index_of(rest, '/'));
            assert(hostport@ =~= authority(url@));
            if has_char(hostport, ':') {
                Ok(hostport.to_string())
            } else {
                Ok(hostport.to_string().concat(":554"))
            }
        },
    }
}

fn has_char(s: &str, c: char) -> (yes: bool)
    ensures
        yes == s@.contains(c),
{
    let v: Vec<char> = chars_of(s);
    let mut i: usize = 0;
    while i < v.len()
        invariant
            i <= v@.len(),
            v@ == s@,
            forall|j: int| 0 <= j < i ==> v@[j] != c,
        decreases v.len() - i,
    {
        if v[i] == c {
            assert(s@[i as int] == c);
            return true;
        }
        i = i + 1;
    }
    false
}

/// The request a probe of `url` sends.
pub fn describe_request(url: &str) -> (request: String)
    ensures
        request@ == "DESCRIBE "@ + url@
            + " RTSP/1.0\r\nCSeq: 1\r\nAccept: application/sdp\r\n\r\n"@,
{
    "DESCRIBE ".to_string().concat(url).concat(
        " RTSP/1.0\r\nCSeq: 1\r\nAccept: application/sdp\r\n\r\n",
    )
}

/// Index of the first newline byte; the number of bytes when there is none.
pub open spec fn newline_at(bytes: Seq<u8>) -> int
    decreases bytes.len(),
{
    if bytes.len() == 0 || bytes[0] == 10u8 {
        0
    } else {
        1 + newline_at(bytes.drop_first())
    }
}

/// The bytes before the first newline byte, and before a carriage return right
/// ahead of it.
pub open spec fn first_line_bytes(bytes: Seq<u8>) -> Seq<u8> {
    let end = newline_at(bytes);
    if end > 0 && bytes[end - 1] == 13u8 {
        bytes.take(end - 1)
    } else {
        bytes.take(end)
    }
}

/// `bytes` as text, with the replacement character for what is not valid
/// UTF-8.
pub uninterp spec fn lossy_text(bytes: Seq<u8>) -> Seq<char>;

/// `String::from_utf8_lossy`: the text of the bytes, invalid sequences
/// replaced. Bytes that are valid UTF-8 give the text they encode.
#[verifier::external_body]
fn from_utf8_lossy(bytes: &Vec<u8>) -> (text: String)
    ensures
        text@ == lossy_text(bytes@),
        valid_utf8(bytes@) ==> text@ == decode_utf8(bytes@),
{
    String::from_utf8_lossy(bytes).into_owned()
}

/// What the reader of a probe's answer asks for next.
pub enum ReadStep {
    /// The status line is not complete: read on.
    More,
    /// The answer failed.
    Failed(ProbeError),
    /// The status line.
    Status(String),
}

/// Reads a relay's answer up to its status line, which may span reads.
pub struct StatusReader {
    pub buf: Vec<u8>,
}

impl StatusReader {
    /// Nothing read yet.
    pub fn new() -> (reader: StatusReader)
        ensures
            reader.buf@ == Seq::<u8>::empty(),
    {
        StatusReader { buf: Vec::new() }
    }

    /// Take in what one read gave; nothing means that the relay hung up.
    pub fn feed(&mut self, chunk: &[u8]) -> (next: ReadStep)
        ensures
            final(self).buf@ == old(self).buf@ + chunk@,
            if chunk@.len() == 0 {
                next == ReadStep::Failed(ProbeError::ClosedEarly)
            } else if final(self).buf@.contains(10u8) {
                &&& next matches ReadStep::Status(line)
                &&& line@ == lossy_text(first_line_bytes(final(self).buf@))
                &&& valid_utf8(first_line_bytes(final(self).buf@)) ==> line@ == decode_utf8(
                    first_line_bytes(final(self).buf@),
                )
            } else {
                next is More
            },
    {
        if chunk.len() == 0 {
            assert(self.buf@ + chunk@ =~= self.buf@);
            return ReadStep::Failed(ProbeError::ClosedEarly);
        }
        let mut i: usize = 0;
        while i < chunk.len()
            invariant
                i <= chunk@.len(),
                self.buf@ == old(self).buf@ + chunk@.take(i as int),
            decreases chunk.len() - i,
        {
            self.buf.push(chunk[i]);
            assert(chunk@.take(i as int + 1) =~= chunk@.take(i as int).push(chunk@[i as int]));
            i = i + 1;
        }
        assert(chunk@.take(chunk@.len() as int) =~= chunk@);
        match self.first_line() {
            Some(line) => ReadStep::Status(from_utf8_lossy(&line)),
            None => ReadStep::More,
        }
    }

    fn first_line(&self) -> (line: Option<Vec<u8>>)
        ensures
            match line {
                Some(l) => self.buf@.contains(10u8) && l@ == first_line_bytes(self.buf@),
                None => !self.buf@.contains(10u8),
            },
    {
        let mut line: Vec<u8> = Vec::new();
        let mut j: usize = 0;
        assert(self.buf@.skip(0) =~= self.buf@);
        while j < self.buf.len()
            invariant
                j <= self.buf@.len(),
                line@ == self.buf@.take(j as int),
                forall|k: int| 0 <= k < j ==> self.buf@[k] != 10u8,
                newline_at(self.buf@) == j + newline_at(self.buf@.skip(j as int)),
            decreases self.buf.len() - j,
        {
            if self.buf[j] == 10u8 {
                assert(self.buf@[j as int] == 10u8);
                assert(newline_at(self.buf@) == j);
                if j > 0 && line[j - 1] == 13u8 {
                    line.pop();
                    assert(line@ =~= self.buf@.take(j as int - 1));
                }
                return Some(line);
            }
            assert(self.buf@.skip(j as int).drop_first() =~= self.buf@.skip(j as int + 1));
            line.push(self.buf[j]);
            assert(line@ =~= self.buf@.take(j as int + 1));
            j = j + 1;
        }
        None
    }
}

/// Every byte is an ASCII one.
pub open spec fn ascii(bytes: Seq<u8>) -> bool {
    forall|i: int| 0 <= i < bytes.len() ==> #[trigger] bytes[i] < 0x80
}

/// The characters that ASCII bytes stand for, one each.
pub open spec fn ascii_text(bytes: Seq<u8>) -> Seq<char> {
    Seq::new(bytes.len(), |i: int| bytes[i] as char)
}

/// An ASCII status line is read as it stands: its bytes are valid UTF-8 and
/// encode the characters they stand for.
pub proof fn law_an_ascii_line_is_its_own_text(bytes: Seq<u8>)
    requires
        ascii(bytes),
    ensures
        valid_utf8(bytes),
        decode_utf8(bytes) == ascii_text(bytes),
    decreases bytes.len(),
{
    if bytes.len() > 0 {
        let b = bytes[0];
        assert((b & 0x7f) as u32 == b as u32) by (bit_vector)
            requires
                b < 0x80,
        ;
        let rest = pop_first_scalar(bytes);
        assert(rest =~= bytes.skip(1));
        law_an_ascii_line_is_its_own_text(rest);
        assert(decode_utf8(bytes) =~= ascii_text(bytes));
    } else {
        assert(decode_utf8(bytes) =~= ascii_text(bytes));
    }
}

/// A publisher is told by the answer's own bytes: an ASCII status line says
/// that the path has one exactly when it begins with the bytes of
/// `RTSP/1.0 200`.
pub proof fn law_a_publisher_is_told_by_the_answers_bytes(bytes: Seq<u8>)
    requires
        ascii(bytes),
    ensures
        has_publisher(decode_utf8(bytes)) <==> bytes.len() >= 12 && bytes.take(12) == seq![
            0x52u8, 0x54, 0x53, 0x50, 0x2f, 0x31, 0x2e, 0x30, 0x20, 0x32, 0x30, 0x30,
        ],
{
    law_an_ascii_line_is_its_own_text(bytes);
    reveal_strlit("RTSP/1.0 200");
    let good = seq![
        0x52u8, 0x54, 0x53, 0x50, 0x2f, 0x31, 0x2e, 0x30, 0x20, 0x32, 0x30, 0x30,
    ];
    let text = ascii_text(bytes);
    assert(ascii_text(good) =~= "RTSP/1.0 200"@);
    if bytes.len() >= 12 {
        assert(text.take(12) =~= ascii_text(bytes.take(12)));
        if text.take(12) == "RTSP/1.0 200"@ {
            assert forall|i: int| 0 <= i < 12 implies bytes.take(12)[i] == good[i] by {
                assert(ascii_text(bytes.take(12))[i] == ascii_text(good)[i]);
            }
            assert(bytes.take(12) =~= good);
        }
    }
}

/// What reading an answer came to.
pub enum ReadOutcome {
    /// The relay hung up first.
    ClosedEarly,
    /// The status line.
    Status(Seq<char>),
    /// There is more to read.
    More,
}

/// What reading an answer in these reads comes to, with `buf` read before; the
/// first read that settles it is the last that is made.
pub open spec fn read_in(buf: Seq<u8>, reads: Seq<Seq<u8>>) -> ReadOutcome
    decreases reads.len(),
{
    if reads.len() == 0 {
        ReadOutcome::More
    } else if reads[0].len() == 0 {
        ReadOutcome::ClosedEarly
    } else if (buf + reads[0]).contains(10u8) {
        ReadOutcome::Status(lossy_text(first_line_bytes(buf + reads[0])))
    } else {
        read_in(buf + reads[0], reads.drop_first())
    }
}

/// The bytes of these reads, one after the other.
pub open spec fn joined(reads: Seq<Seq<u8>>) -> Seq<u8>
    decreases reads.len(),
{
    if reads.len() == 0 {
        Seq::empty()
    } else {
        reads[0] + joined(reads.drop_first())
    }
}

proof fn lemma_newline_in_front(front: Seq<u8>, back: Seq<u8>)
    ensures
        0 <= newline_at(front) <= front.len(),
        front.contains(10u8) ==> newline_at(front) < front.len(),
        front.contains(10u8) ==> newline_at(front + back) == newline_at(front),
    decreases front.len(),
{
    if front.len() > 0 {
        assert((front + back).drop_first() =~= front.drop_first() + back);
        lemma_newline_in_front(front.drop_first(), back);
        if front.contains(10u8) && front[0] != 10u8 {
            let k = front.index_of(10u8);
            assert(front.drop_first()[k - 1] == 10u8);
        }
    }
}

proof fn lemma_first_line_of_front(front: Seq<u8>, back: Seq<u8>)
    requires
        front.contains(10u8),
    ensures
        first_line_bytes(front + back) == first_line_bytes(front),
        (front + back).contains(10u8),
{
    lemma_newline_in_front(front, back);
    let end = newline_at(front);
    assert((front + back).take(end) =~= front.take(end));
    if end > 0 {
        assert((front + back).take(end - 1) =~= front.take(end - 1));
    }
    let k = front.index_of(10u8);
    assert((front + back)[k] == 10u8);
}

proof fn lemma_read_in(buf: Seq<u8>, reads: Seq<Seq<u8>>)
    requires
        !buf.contains(10u8),
        forall|i: int| 0 <= i < reads.len() ==> (#[trigger] reads[i]).len() > 0,
    ensures
        read_in(buf, reads) == (if (buf + joined(reads)).contains(10u8) {
            ReadOutcome::Status(lossy_text(first_line_bytes(buf + joined(reads))))
        } else {
            ReadOutcome::More
        }),
    decreases reads.len(),
{
    if reads.len() == 0 {
        assert(buf + joined(reads) =~= buf);
    } else {
        let more = buf + reads[0];
        let rest = reads.drop_first();
        assert(buf + joined(reads) =~= more + joined(rest));
        if more.contains(10u8) {
            lemma_first_line_of_front(more, joined(rest));
        } else {
            lemma_read_in(more, rest);
        }
    }
}

/// The status line does not depend on how the answer is cut into reads: reading
/// gives the first line of the answer's bytes when they hold a line break, and
/// wants more otherwise.
pub proof fn law_the_status_line_is_the_answers_first(reads: Seq<Seq<u8>>)
    requires
        forall|i: int| 0 <= i < reads.len() ==> (#[trigger] reads[i]).len() > 0,
    ensures
        read_in(Seq::empty(), reads) == (if joined(reads).contains(10u8) {
            ReadOutcome::Status(lossy_text(first_line_bytes(joined(reads))))
        } else {
            ReadOutcome::More
        }),
{
    assert(Seq::<u8>::empty() + joined(reads) =~= joined(reads));
    lemma_read_in(Seq::empty(), reads);
}

/// An answer that ends before its first line break is an error, however it is
/// cut into reads.
pub proof fn law_hanging_up_early_is_an_error(reads: Seq<Seq<u8>>)
    requires
        forall|i: int| 0 <= i < reads.len() ==> (#[trigger] reads[i]).len() > 0,
        !joined(reads).contains(10u8),
    ensures
        read_in(Seq::empty(), reads.push(Seq::empty())) is ClosedEarly,
{
    assert(Seq::<u8>::empty() + joined(reads) =~= joined(reads));
    lemma_hang_up(Seq::empty(), reads);
}

proof fn lemma_hang_up(buf: Seq<u8>, reads: Seq<Seq<u8>>)
    requires
        forall|i: int| 0 <= i < reads.len() ==> (#[trigger] reads[i]).len() > 0,
        !(buf + joined(reads)).contains(10u8),
    ensures
        read_in(buf, reads.push(Seq::empty())) is ClosedEarly,
    decreases reads.len(),
{
    let all = reads.push(Seq::empty());
    if reads.len() > 0 {
        let more = buf + reads[0];
        let rest = reads.drop_first();
        assert(buf + joined(reads) =~= more + joined(rest));
        assert(all.drop_first() =~= rest.push(Seq::empty()));
        assert(all[0] == reads[0]);
        if more.contains(10u8) {
            let k = more.index_of(10u8);
            assert((more + joined(rest))[k] == 10u8);
        }
        lemma_hang_up(more, rest);
    }
}

/// The status line says that the path has a live publisher.
pub open spec fn has_publisher(status: Seq<char>) -> bool {
    begins_with(status, "RTSP/1.0 200"@)
}

/// Whether a probe was answered well: the relay describes a path only while it
/// has a live publisher, so any other answer means that the publish is gone.
pub fn describe(status: &str) -> (verdict: Result<(), ProbeError>)
    ensures
        verdict is Ok <==> has_publisher(status@),
        verdict matches Err(e) ==> (e matches ProbeError::UnexpectedStatus { status: s } && s@
            == status@),
{
    if starts_with(status, "RTSP/1.0 200") {
        Ok(())
    } else {
        Err(ProbeError::UnexpectedStatus { status: status.to_string() })
    }
}

/// Whether the path is free to publish to: the relay answered, and not that a
/// publisher holds the path. A relay that did not answer (`None`) is not free:
/// publishing there would just fail.
pub fn path_free(status: Option<&str>) -> (free: bool)
    ensures
        free == (status matches Some(s) && !has_publisher(s@)),
{
    match status {
        Some(s) => !starts_with(s, "RTSP/1.0 200"),
        None => false,
    }
}

/// What a probe came to.
#[derive(Clone, Copy, Debug, PartialEq, Eq, Structural)]
pub enum WatchVerdict {
    /// The publish is up, after this many failures in a row.
    Healthy { after_failures: u32 },
    /// This many probes failed in a row.
    Failing { consecutive: u32 },
    /// The publish is dead.
    Dead,
}

/// The watchdog's count of failures in a row.
pub struct Watch {
    /// A probe has been made.
    pub probed: bool,
    /// Probes that failed since the last good one.
    pub consecutive: u32,
}

impl Watch {
    /// The publish is not dead yet.
    pub open spec fn wf(&self) -> bool {
        self.consecutive < FAILURE_THRESHOLD
    }

    /// No probe yet.
    pub fn new() -> (watch: Watch)
        ensures
            watch.wf(),
            !watch.probed,
            watch.consecutive == 0,
    {
        Watch { probed: false, consecutive: 0 }
    }

    /// How long to wait before the next probe, ms.
    pub fn delay_ms(&self) -> (ms: u64)
        ensures
            ms == (if self.probed { INTERVAL_MS } else { INITIAL_DELAY_MS }),
    {
        if self.probed {
            INTERVAL_MS
        } else {
            INITIAL_DELAY_MS
        }
    }

    /// Take in a probe: whether a publish should be live, and whether the path
    /// was described well. While none should be, the path is rightly without a
    /// publisher and the probe counts as good. A success starts the count
    /// over: blips must not add up to a restart across hours of good probes.
    pub fn on_probe(&mut self, publishing: bool, described: bool) -> (verdict: WatchVerdict)
        requires
            old(self).wf(),
        ensures
            final(self).probed,
            ({
                let good = !publishing || described;
                let count = old(self).consecutive as nat;
                match streak::step(count, good, FAILURE_THRESHOLD as nat) {
                    Some(n) => {
                        &&& final(self).wf()
                        &&& final(self).consecutive == n
                        &&& verdict == (if good {
                            WatchVerdict::Healthy { after_failures: old(self).consecutive }
                        } else {
                            WatchVerdict::Failing { consecutive: final(self).consecutive }
                        })
                    },
                    None => verdict == WatchVerdict::Dead && final(self).consecutive == count + 1,
                }
            }),
    {
        self.probed = true;
        let before: u32 = self.consecutive;
        if !publishing || described {
            self.consecutive = 0;
            return WatchVerdict::Healthy { after_failures: before };
        }
        self.consecutive = before + 1;
        if self.consecutive >= FAILURE_THRESHOLD {
            WatchVerdict::Dead
        } else {
            WatchVerdict::Failing { consecutive: self.consecutive }
        }
    }
}

/// Of a run of probes (`true`: a good one), the publish is declared dead
/// exactly when three of them fail back to back: never on fewer, and never on
/// failures that are not consecutive.
pub proof fn law_dead_on_three_failures_in_a_row(probes: Seq<bool>)
    ensures
        streak::tally(probes, FAILURE_THRESHOLD as nat) is None <==> exists|from: int|
            #[trigger] streak::fails_throughout(probes, from, 3),
{
    streak::law_only_a_full_run_reaches_the_threshold(probes, FAILURE_THRESHOLD as nat);
}

/// The address of an `rtsp://` url is what stands between the scheme and the
/// first slash after it, if any: as it is when it holds a colon, else with the
/// RTSP port.
pub proof fn law_the_address_is_what_the_url_names(host: Seq<char>, path: Seq<char>)
    requires
        !host.contains('/'),
    ensures
        ({
            let addr = if host.contains(':') { host } else { host + ":554"@ };
            &&& dial_address("rtsp://"@ + host) == addr
            &&& dial_address("rtsp://"@ + host + "/"@ + path) == addr
        }),
{
    reveal_strlit("/");
    let scheme = "rtsp://"@;
    let n = scheme.len() as int;
    assert((scheme + host).skip(n) =~= host);
    lemma_no_slash(host, Seq::empty());
    assert(host + Seq::empty() =~= host);
    assert(host.take(host.len() as int) =~= host);
    let long = scheme + host + "/"@ + path;
    let tail = "/"@ + path;
    assert(long.skip(n) =~= host + tail);
    lemma_no_slash(host, tail);
    assert((host + tail).take(host.len() as int) =~= host);
}

proof fn lemma_no_slash(host: Seq<char>, tail: Seq<char>)
    requires
        !host.contains('/'),
        tail.len() > 0 ==> tail[0] == '/',
    ensures
        first_index(host + tail, '/') == host.len(),
    decreases host.len(),
{
    let all = host + tail;
    if host.len() > 0 {
        assert(host.contains(host[0]));
        assert(all.drop_first() =~= host.drop_first() + tail);
        assert forall|i: int| 0 <= i < host.drop_first().len() implies host.drop_first()[i]
            != '/' by {
            assert(host.contains(host[i + 1]));
        }
        lemma_no_slash(host.drop_first(), tail);
    }
}

/// The first line of an answer is what stands before its first newline, less a
/// carriage return right ahead of that, whatever comes after it.
pub proof fn law_the_first_line_ends_at_the_first_newline(line: Seq<u8>, rest: Seq<u8>)
    requires
        !line.contains(10u8),
    ensures
        ({
            let answer = line + seq![10u8] + rest;
            &&& line.len() > 0 && line.last() == 13u8 ==> first_line_bytes(answer)
                == line.drop_last()
            &&& line.len() == 0 || line.last() != 13u8 ==> first_line_bytes(answer) == line
        }),
{
    let answer = line + seq![10u8] + rest;
    lemma_newline_after(line, seq![10u8] + rest);
    assert(answer =~= line + (seq![10u8] + rest));
    assert(answer.take(line.len() as int) =~= line);
    if line.len() > 0 {
        assert(answer.take(line.len() - 1) =~= line.drop_last());
        assert(answer[line.len() - 1] == line.last());
    }
}

proof fn lemma_newline_after(line: Seq<u8>, tail: Seq<u8>)
    requires
        !line.contains(10u8),
        tail.len() > 0,
        tail[0] == 10u8,
    ensures
        newline_at(line + tail) == line.len(),
    decreases line.len(),
{
    let all = line + tail;
    if line.len() > 0 {
        assert(line.contains(line[0]));
        assert(all.drop_first() =~= line.drop_first() + tail);
        assert forall|i: int| 0 <= i < line.drop_first().len() implies line.drop_first()[i]
            != 10u8 by {
            assert(line.contains(line[i + 1]));
        }
        lemma_newline_after(line.drop_first(), tail);
    }
}

/// A status line says that the path has a publisher exactly when its first
/// twelve characters are `RTSP/1.0 200`.
pub proof fn law_a_publisher_is_told_by_the_status(status: Seq<char>)
    ensures
        has_publisher(status) <==> status.len() >= 12 && status.take(12) == "RTSP/1.0 200"@,
{
    reveal_strlit("RTSP/1.0 200");
}

} // verus!
