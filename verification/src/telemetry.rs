//! Metrics: the attributes their records carry, where they are exported to,
//! and the samples that the recorder takes.

use crate::player::{position, Player};
use crate::text;
use vstd::prelude::*;

verus! {

/// The recorder's period, ms.
pub const SAMPLE_INTERVAL_MS: u64 = 5_000;

/// Name of the service that the metrics are of.
pub const SERVICE_NAME: &'static str = "playout";

/// A metric or resource attribute.
pub struct Attr {
    pub key: String,
    pub value: String,
}

/// What the metric records are made from besides the player.
pub struct Telemetry {
    /// The control-plane connection is up. Until it first is, playback
    /// commands are dropped even though the corpus keeps looping.
    pub nats_connected: bool,
    /// The platform stamped onto every record, once it is set.
    pub platform: Option<String>,
}

/// How metrics are exported.
pub struct Export {
    /// Where metrics are posted to.
    pub url: String,
    /// What goes along with every post.
    pub headers: Vec<(String, String)>,
    /// The attributes of the exporting service, besides its name.
    pub resource: Vec<Attr>,
}

/// What one round of the recorder records.
pub struct Sample {
    /// Position in the active clip, ms; `None` when nothing is live.
    pub playhead_ms: Option<i64>,
    /// Pipeline running time, ms; `None` when the pipeline has none.
    pub running_ms: Option<u64>,
    /// 1 while the control-plane connection is up, 0 while it is down.
    pub nats_connected: u64,
}

impl View for Attr {
    type V = (Seq<char>, Seq<char>);

    open spec fn view(&self) -> (Seq<char>, Seq<char>) {
        (self.key@, self.value@)
    }
}

/// What `attrs` hold, each as its key and value.
pub open spec fn pairs(attrs: Seq<Attr>) -> Seq<(Seq<char>, Seq<char>)> {
    attrs.map_values(|a: Attr| a@)
}

impl Telemetry {
    /// Not connected, no platform.
    pub fn new() -> (telemetry: Telemetry)
        ensures
            !telemetry.nats_connected,
            telemetry.platform is None,
    {
        Telemetry { nats_connected: false, platform: None }
    }

    /// The attributes stamped onto every record.
    pub open spec fn stamp(&self) -> Seq<(Seq<char>, Seq<char>)> {
        match self.platform {
            Some(p) => seq![("service.platform"@, p@)],
            None => Seq::empty(),
        }
    }

    /// What the recorder records of `player` at running time `now`, ns.
    pub fn sample(&self, player: &Player, now: Option<u64>) -> (sample: Sample)
        requires
            player.wf(),
        ensures
            sample.playhead_ms == (if player.clips@.len() > 0 {
                Some(position(player.clips@[0], now))
            } else {
                None
            }),
            sample.running_ms == (match now {
                Some(ns) => Some((ns / 1_000_000) as u64),
                None => None,
            }),
            sample.nats_connected == (if self.nats_connected { 1u64 } else { 0 }),
    {
        let playhead_ms: Option<i64> = match player.playhead(now) {
            Some((_, p)) => Some(p),
            None => None,
        };
        let running_ms: Option<u64> = match now {
            Some(ns) => Some(ns / 1_000_000),
            None => None,
        };
        let nats_connected: u64 = if self.nats_connected {
            1
        } else {
            0
        };
        Sample { playhead_ms, running_ms, nats_connected }
    }
}

/// The attributes of the exporting service, besides its name.
pub open spec fn resource_of(
    version: Seq<char>,
    platform: Seq<char>,
    deployment_env: Seq<char>,
) -> Seq<(Seq<char>, Seq<char>)> {
    seq![
        ("service.version"@, version),
        ("service.namespace"@, "tripbot"@),
        ("service.platform"@, platform),
        ("deployment.environment"@, deployment_env),
    ]
}

/// Take on the platform to stamp onto every record (the first one taken on
/// stays), and give how metrics are exported: not at all when no endpoint is
/// set.
pub fn init(
    telemetry: &mut Telemetry,
    version: &str,
    platform: &str,
    deployment_env: &str,
    endpoint: Option<&str>,
    raw_headers: Option<&str>,
) -> (export: Option<Export>)
    ensures
        final(telemetry).nats_connected == old(telemetry).nats_connected,
        old(telemetry).platform is Some ==> final(telemetry).platform == old(telemetry).platform,
        old(telemetry).platform is None ==> final(telemetry).stamp() == seq![
            ("service.platform"@, platform@),
        ],
        export is Some <==> endpoint is Some,
        export matches Some(e) ==> {
            &&& e.url@ == metrics_path(endpoint->0@)
            &&& header_views(e.headers@) == (match raw_headers {
                Some(raw) => headers(raw@),
                None => Seq::empty(),
            })
            &&& pairs(e.resource@) == resource_of(version@, platform@, deployment_env@)
        },
{
    if telemetry.platform.is_none() {
        telemetry.platform = Some(platform.to_string());
    }
    let endpoint: &str = match endpoint {
        Some(e) => e,
        None => {
            return None;
        },
    };
    let headers: Vec<(String, String)> = match raw_headers {
        Some(raw) => parse_headers(raw),
        None => Vec::new(),
    };
    assert(raw_headers is None ==> header_views(headers@) =~= Seq::empty());
    let resource: Vec<Attr> = resource_attrs(version, platform, deployment_env);
    Some(Export { url: metrics_url(endpoint), headers, resource })
}

/// Record whether the control-plane connection is up.
pub fn set_nats_connected(telemetry: &mut Telemetry, connected: bool)
    ensures
        final(telemetry).nats_connected == connected,
        final(telemetry).platform == old(telemetry).platform,
{
    telemetry.nats_connected = connected;
}

/// The attributes to stamp onto every record: the platform, once it is set,
/// else none.
pub fn attrs(telemetry: &Telemetry) -> (attrs: Vec<Attr>)
    ensures
        pairs(attrs@) == telemetry.stamp(),
{
    let mut attrs: Vec<Attr> = Vec::new();
    if let Some(platform) = &telemetry.platform {
        attrs.push(Attr { key: "service.platform".to_string(), value: platform.clone() });
    }
    assert(pairs(attrs@) =~= telemetry.stamp());
    attrs
}

/// [`attrs`] and one more, such as a command's verb.
pub fn attrs_with(telemetry: &Telemetry, extra: Attr) -> (attrs: Vec<Attr>)
    ensures
        pairs(attrs@) == telemetry.stamp().push(extra@),
{
    let mut stamped: Vec<Attr> = attrs(telemetry);
    let ghost before = stamped@;
    stamped.push(extra);
    assert(pairs(stamped@) =~= pairs(before).push(extra@));
    stamped
}

/// The header that one `key=value` entry gives, if it is one.
pub open spec fn header(entry: Seq<char>) -> Seq<(Seq<char>, Seq<char>)> {
    let at = text::first_index(entry, '=');
    if at < entry.len() {
        seq![(text::trimmed(entry.take(at)), text::trimmed(entry.skip(at + 1)))]
    } else {
        Seq::empty()
    }
}

/// The headers of a comma-separated list of `key=value` entries; an entry
/// without `=` gives none.
pub open spec fn headers(raw: Seq<char>) -> Seq<(Seq<char>, Seq<char>)>
    decreases raw.len(),
{
    let at = text::first_index(raw, ',');
    if 0 <= at < raw.len() {
        header(raw.take(at)) + headers(raw.skip(at + 1))
    } else {
        header(raw)
    }
}

/// What a list of headers holds.
pub open spec fn header_views(list: Seq<(String, String)>) -> Seq<(Seq<char>, Seq<char>)> {
    list.map_values(|h: (String, String)| (h.0@, h.1@))
}

fn push_header(list: &mut Vec<(String, String)>, entry: &str)
    ensures
        header_views(final(list)@) == header_views(old(list)@) + header(entry@),
{
    match text::split_once(entry, '=') {
        Some((key, value)) => {
            list.push((text::trim(key).to_string(), text::trim(value).to_string()));
            assert(header_views(list@) =~= header_views(old(list)@) + header(entry@));
        },
        None => {
            assert(header_views(list@) =~= header_views(old(list)@) + header(entry@));
        },
    }
}

/// Export headers out of a comma-separated list of `key=value` entries. An
/// entry is cut at its first `=`, and its key and value are trimmed; an entry
/// without `=` is passed over.
pub fn parse_headers(raw: &str) -> (list: Vec<(String, String)>)
    ensures
        header_views(list@) == headers(raw@),
{
    let mut list: Vec<(String, String)> = Vec::new();
    let mut rest: &str = raw;
    assert(header_views(list@) =~= Seq::empty());
    assert(header_views(list@) + headers(raw@) =~= headers(raw@));
    loop
        invariant
            header_views(list@) + headers(rest@) == headers(raw@),
        decreases rest@.len(),
    {
        match text::split_once(rest, ',') {
            Some((entry, more)) => {
                let ghost before = header_views(list@);
                push_header(&mut list, entry);
                assert((before + header(entry@)) + headers(more@) =~= before + (header(entry@)
                    + headers(more@)));
                rest = more;
            },
            None => {
                push_header(&mut list, rest);
                return list;
            },
        }
    }
}

/// Where metrics are posted to, given the exporter's endpoint: its path for
/// metrics, whether or not the endpoint is written with slashes at its end.
pub open spec fn metrics_path(endpoint: Seq<char>) -> Seq<char> {
    text::without_trailing(endpoint, '/') + "/v1/metrics"@
}

fn metrics_url(endpoint: &str) -> (url: String)
    ensures
        url@ == metrics_path(endpoint@),
{
    text::trim_end(endpoint, '/').to_string().concat("/v1/metrics")
}

fn resource_attrs(version: &str, platform: &str, deployment_env: &str) -> (attrs: Vec<Attr>)
    ensures
        pairs(attrs@) == resource_of(version@, platform@, deployment_env@),
{
    let mut attrs: Vec<Attr> = Vec::new();
    attrs.push(Attr { key: "service.version".to_string(), value: version.to_string() });
    attrs.push(Attr { key: "service.namespace".to_string(), value: "tripbot".to_string() });
    attrs.push(Attr { key: "service.platform".to_string(), value: platform.to_string() });
    attrs.push(
        Attr { key: "deployment.environment".to_string(), value: deployment_env.to_string() },
    );
    assert(pairs(attrs@) =~= resource_of(version@, platform@, deployment_env@));
    attrs
}

/// A list of entries gives the headers of its first entry, then those of the
/// rest: a comma parts them wherever it stands first.
pub proof fn law_a_comma_parts_the_entries(first: Seq<char>, rest: Seq<char>)
    requires
        !first.contains(','),
    ensures
        headers(first + seq![','] + rest) == headers(first) + headers(rest),
{
    let all = first + seq![','] + rest;
    text::law_the_first_part_ends_at_the_first_index(first, ',', rest);
    assert(all.take(first.len() as int) =~= first);
    assert(all.skip(first.len() as int + 1) =~= rest);
}

/// An entry gives what stands before its first `=` for the key, and everything
/// after that for the value, both without the whitespace at their ends; one
/// without an `=` gives nothing.
pub proof fn law_an_entry_is_cut_at_its_first_equals_sign(key: Seq<char>, value: Seq<char>)
    requires
        !key.contains('='),
        !key.contains(','),
        !value.contains(','),
    ensures
        headers(key + seq!['='] + value) == seq![(text::trimmed(key), text::trimmed(value))],
        headers(key) == Seq::<(Seq<char>, Seq<char>)>::empty(),
{
    let entry = key + seq!['='] + value;
    assert forall|i: int| 0 <= i < entry.len() implies entry[i] != ',' by {
        if i < key.len() {
            assert(key.contains(key[i]));
        } else if i > key.len() {
            assert(value.contains(value[i - key.len() - 1]));
        }
    }
    assert(!entry.contains(','));
    text::law_the_first_part_ends_at_the_first_index(entry, ',', Seq::empty());
    text::law_the_first_part_ends_at_the_first_index(key, ',', Seq::empty());
    text::law_the_first_part_ends_at_the_first_index(key, '=', value);
    assert(entry.take(key.len() as int) =~= key);
    assert(entry.skip(key.len() as int + 1) =~= value);
}

/// The list that is given holds the headers one for one, and a list of
/// attributes its keys and values one for one.
pub proof fn law_lists_hold_what_they_say(list: Seq<(String, String)>, attrs: Seq<Attr>)
    ensures
        header_views(list).len() == list.len(),
        forall|i: int|
            0 <= i < list.len() ==> header_views(list)[i] == ((#[trigger] list[i]).0@, list[i].1@),
        pairs(attrs).len() == attrs.len(),
        forall|i: int|
            0 <= i < attrs.len() ==> pairs(attrs)[i] == ((#[trigger] attrs[i]).key@, attrs[i].value@),
{
}

/// Every record is stamped with the platform, once it is known, and with
/// nothing else.
pub proof fn law_the_platform_is_the_only_stamp(telemetry: Telemetry)
    ensures
        telemetry.platform is None ==> telemetry.stamp().len() == 0,
        telemetry.platform is Some ==> {
            &&& telemetry.stamp().len() == 1
            &&& telemetry.stamp()[0].0 == "service.platform"@
            &&& telemetry.stamp()[0].1 == telemetry.platform->0@
        },
{
}

/// The exporting service says its version, namespace, platform and environment,
/// each as it was given.
pub proof fn law_the_service_says_what_it_is(
    version: Seq<char>,
    platform: Seq<char>,
    deployment_env: Seq<char>,
)
    ensures
        ({
            let all = resource_of(version, platform, deployment_env);
            &&& all.len() == 4
            &&& all[0] == ("service.version"@, version)
            &&& all[1] == ("service.namespace"@, "tripbot"@)
            &&& all[2] == ("service.platform"@, platform)
            &&& all[3] == ("deployment.environment"@, deployment_env)
        }),
{
}

/// The path for metrics comes after the endpoint, and slashes at the endpoint's
/// end do not count.
pub proof fn law_slashes_at_the_endpoints_end_do_not_count(endpoint: Seq<char>)
    ensures
        metrics_path(endpoint.push('/')) == metrics_path(endpoint),
        endpoint.len() == 0 || endpoint.last() != '/' ==> metrics_path(endpoint) == endpoint
            + "/v1/metrics"@,
{
    assert(endpoint.push('/').drop_last() =~= endpoint);
}

/// The recorder samples every five seconds, for the service `playout`.
pub proof fn law_the_recorder_samples_playout()
    ensures
        SAMPLE_INTERVAL_MS == 5 * 1_000,
        SERVICE_NAME@ == "playout"@,
{
}

} // verus!
