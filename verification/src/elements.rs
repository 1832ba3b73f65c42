//! What the pipeline is built of: the elements of each part, in link order,
//! with the properties they are given.

use crate::text::same;
use vstd::prelude::*;

verus! {

/// A value a property is given.
pub enum PropertyValue {
    Text(String),
    /// An enumeration's or a flag's value, by its nickname.
    Nick(String),
    Int(i32),
    UInt(u32),
    Flag(bool),
    /// Raw video of this size at this many frames per second.
    RawVideo { width: i32, height: i32, fps: i32 },
}

/// A property and the value it is given.
pub struct Property {
    pub name: String,
    pub value: PropertyValue,
}

/// An element to make.
pub struct Element {
    pub factory: String,
    pub properties: Vec<Property>,
}

/// A property's value, over characters.
pub enum ValueView {
    Text(Seq<char>),
    Nick(Seq<char>),
    Int(int),
    UInt(int),
    Flag(bool),
    RawVideo { width: int, height: int, fps: int },
}

/// An element, over characters: its factory and what its properties are given.
pub struct ElementView {
    pub factory: Seq<char>,
    pub properties: Seq<(Seq<char>, ValueView)>,
}

impl View for PropertyValue {
    type V = ValueView;

    open spec fn view(&self) -> ValueView {
        match self {
            PropertyValue::Text(t) => ValueView::Text(t@),
            PropertyValue::Nick(t) => ValueView::Nick(t@),
            PropertyValue::Int(n) => ValueView::Int(*n as int),
            PropertyValue::UInt(n) => ValueView::UInt(*n as int),
            PropertyValue::Flag(b) => ValueView::Flag(*b),
            PropertyValue::RawVideo { width, height, fps } => ValueView::RawVideo {
                width: *width as int,
                height: *height as int,
                fps: *fps as int,
            },
        }
    }
}

impl View for Property {
    type V = (Seq<char>, ValueView);

    open spec fn view(&self) -> (Seq<char>, ValueView) {
        (self.name@, self.value@)
    }
}

impl View for Element {
    type V = ElementView;

    open spec fn view(&self) -> ElementView {
        ElementView {
            factory: self.factory@,
            properties: self.properties@.map_values(|p: Property| p@),
        }
    }
}

/// A chain of elements, over characters.
pub open spec fn chain(elements: Seq<Element>) -> Seq<ElementView> {
    elements.map_values(|e: Element| e@)
}

/// An element that is given no property.
pub open spec fn plain(factory: Seq<char>) -> ElementView {
    ElementView { factory, properties: Seq::empty() }
}

/// An element that is given one property.
pub open spec fn with_one(factory: Seq<char>, name: Seq<char>, value: ValueView) -> ElementView {
    ElementView { factory, properties: seq![(name, value)] }
}

fn element(factory: &str) -> (e: Element)
    ensures
        e@ == plain(factory@),
{
    let e: Element = Element { factory: factory.to_string(), properties: Vec::new() };
    assert(e@.properties =~= Seq::empty());
    e
}

fn give(e: &mut Element, name: &str, value: PropertyValue)
    ensures
        final(e)@ == (ElementView {
            properties: old(e)@.properties.push((name@, value@)),
            ..old(e)@
        }),
{
    let p: Property = Property { name: name.to_string(), value };
    e.properties.push(p);
    assert(e@.properties =~= old(e)@.properties.push((name@, value@)));
}

/// The publish branch: parsed H.264 out to the relay. A compressed stream is
/// published as it is; otherwise the named encoder comes first, and the
/// software encoder gets the corpus's rate and a two-second group of pictures.
/// The parser sends the stream's parameters with every keyframe, so that late
/// joiners always sync. The publish goes over interleaved TCP: a busy hop drops
/// datagrams, and every frame one of them was part of.
pub open spec fn publish_chain(encoder: Seq<char>, url: Seq<char>) -> Seq<ElementView> {
    let parser = with_one("h264parse"@, "config-interval"@, ValueView::Int(-1));
    let sink = ElementView {
        factory: "rtspclientsink"@,
        properties: seq![
            ("location"@, ValueView::Text(url)),
            ("protocols"@, ValueView::Nick("tcp"@)),
        ],
    };
    if encoder == "passthrough"@ {
        seq![plain("queue"@), parser, sink]
    } else if encoder == "x264enc"@ {
        let x264 = ElementView {
            factory: encoder,
            properties: seq![
                ("bitrate"@, ValueView::UInt(8000)),
                ("key-int-max"@, ValueView::UInt(120)),
                ("speed-preset"@, ValueView::Nick("veryfast"@)),
            ],
        };
        seq![plain("queue"@), x264, parser, sink]
    } else {
        seq![plain("queue"@), plain(encoder), parser, sink]
    }
}

/// The elements of the publish branch.
pub fn make_encode_branch(encoder_name: &str, rtsp_url: &str) -> (branch: Vec<Element>)
    ensures
        chain(branch@) == publish_chain(encoder_name@, rtsp_url@),
{
    let mut parse: Element = element("h264parse");
    give(&mut parse, "config-interval", PropertyValue::Int(-1));
    let mut sink: Element = element("rtspclientsink");
    give(&mut sink, "location", PropertyValue::Text(rtsp_url.to_string()));
    give(&mut sink, "protocols", PropertyValue::Nick("tcp".to_string()));
    let mut branch: Vec<Element> = Vec::new();
    branch.push(element("queue"));
    if !same(encoder_name, "passthrough") {
        let mut encoder: Element = element(encoder_name);
        if same(encoder_name, "x264enc") {
            give(&mut encoder, "bitrate", PropertyValue::UInt(8000));
            give(&mut encoder, "key-int-max", PropertyValue::UInt(120));
            give(&mut encoder, "speed-preset", PropertyValue::Nick("veryfast".to_string()));
            assert(encoder@.properties =~= seq![
                ("bitrate"@, ValueView::UInt(8000)),
                ("key-int-max"@, ValueView::UInt(120)),
                ("speed-preset"@, ValueView::Nick("veryfast"@)),
            ]);
        }
        branch.push(encoder);
    }
    assert(parse@ == with_one("h264parse"@, "config-interval"@, ValueView::Int(-1))) by {
        assert(parse@.properties =~= seq![("config-interval"@, ValueView::Int(-1))]);
    }
    assert(sink@.properties =~= seq![
        ("location"@, ValueView::Text(rtsp_url@)),
        ("protocols"@, ValueView::Nick("tcp"@)),
    ]);
    branch.push(parse);
    branch.push(sink);
    assert(chain(branch@) =~= publish_chain(encoder_name@, rtsp_url@));
    branch
}

/// The map-only branch: swallow the stream, paced to the clock so that the
/// pipeline still plays in real time, and send nothing.
pub open spec fn swallow_chain() -> Seq<ElementView> {
    seq![plain("queue"@), with_one("fakesink"@, "sync"@, ValueView::Flag(true))]
}

/// The elements of the map-only branch.
pub fn make_fakesink_branch() -> (branch: Vec<Element>)
    ensures
        chain(branch@) == swallow_chain(),
{
    let mut sink: Element = element("fakesink");
    give(&mut sink, "sync", PropertyValue::Flag(true));
    assert(sink@.properties =~= seq![("sync"@, ValueView::Flag(true))]);
    let mut branch: Vec<Element> = Vec::new();
    branch.push(element("queue"));
    branch.push(sink);
    assert(chain(branch@) =~= swallow_chain());
    branch
}

/// The elements of the local preview branch.
pub fn make_window_branch() -> (branch: Vec<Element>)
    ensures
        chain(branch@) == seq![plain("queue"@), plain("videoconvert"@), plain("autovideosink"@)],
{
    let mut branch: Vec<Element> = Vec::new();
    branch.push(element("queue"));
    branch.push(element("videoconvert"));
    branch.push(element("autovideosink"));
    assert(chain(branch@) =~= seq![
        plain("queue"@),
        plain("videoconvert"@),
        plain("autovideosink"@),
    ]);
    branch
}

/// What stands between the splice and the tee. A compressed splice has no raw
/// video to normalise, so it is a queue; otherwise every clip is brought to
/// 1920x1080 at 60 frames per second.
pub open spec fn normalising_chain(passthrough: bool) -> Seq<ElementView> {
    if passthrough {
        seq![plain("queue"@)]
    } else {
        seq![
            plain("queue"@),
            plain("videoconvert"@),
            plain("queue"@),
            plain("videoscale"@),
            plain("queue"@),
            plain("videorate"@),
            plain("queue"@),
            with_one(
                "capsfilter"@,
                "caps"@,
                ValueView::RawVideo { width: 1920, height: 1080, fps: 60 },
            ),
        ]
    }
}

/// The elements between the splice and the tee.
pub fn make_normaliser(passthrough: bool) -> (elements: Vec<Element>)
    ensures
        chain(elements@) == normalising_chain(passthrough),
{
    let mut elements: Vec<Element> = Vec::new();
    elements.push(element("queue"));
    if !passthrough {
        elements.push(element("videoconvert"));
        elements.push(element("queue"));
        elements.push(element("videoscale"));
        elements.push(element("queue"));
        elements.push(element("videorate"));
        elements.push(element("queue"));
        let mut caps: Element = element("capsfilter");
        give(
            &mut caps,
            "caps",
            PropertyValue::RawVideo { width: 1920, height: 1080, fps: 60 },
        );
        assert(caps@.properties =~= seq![
            ("caps"@, ValueView::RawVideo { width: 1920, height: 1080, fps: 60 }),
        ]);
        elements.push(caps);
    }
    assert(chain(elements@) =~= normalising_chain(passthrough));
    elements
}

/// A chain is its elements, one for one, each by its factory and by what its
/// properties are given, in order.
pub proof fn law_a_chain_shows_its_elements(elements: Seq<Element>, i: int)
    requires
        0 <= i < elements.len(),
    ensures
        chain(elements).len() == elements.len(),
        chain(elements)[i].factory == elements[i].factory@,
        chain(elements)[i].properties.len() == elements[i].properties@.len(),
        forall|k: int|
            0 <= k < elements[i].properties@.len() ==> chain(elements)[i].properties[k] == (
                (#[trigger] elements[i].properties@[k]).name@,
                elements[i].properties@[k].value@,
            ),
{
}

/// A value shows as what it is: a text and a nickname by their characters, a
/// number by its value, a flag and a size as they are.
pub proof fn law_a_value_shows_as_it_is(value: PropertyValue)
    ensures
        value matches PropertyValue::Text(t) ==> value@ == ValueView::Text(t@),
        value matches PropertyValue::Nick(t) ==> value@ == ValueView::Nick(t@),
        value matches PropertyValue::Int(n) ==> value@ == ValueView::Int(n as int),
        value matches PropertyValue::UInt(n) ==> value@ == ValueView::UInt(n as int),
        value matches PropertyValue::Flag(b) ==> value@ == ValueView::Flag(b),
        value matches PropertyValue::RawVideo { width, height, fps } ==> value@
            == (ValueView::RawVideo { width: width as int, height: height as int, fps: fps as int }),
{
}

/// The publish branch begins with a queue and ends with the parser and the sink
/// that goes to the url over TCP, whatever the encoder. Between them stands the
/// encoder, unless the stream is passed through; the software encoder alone is
/// given anything.
pub proof fn law_the_publish_branch_goes_to_the_url(encoder: Seq<char>, url: Seq<char>)
    ensures
        ({
            let branch = publish_chain(encoder, url);
            let parser = branch[branch.len() - 2];
            let sink = branch.last();
            &&& branch.len() == (if encoder == "passthrough"@ { 3int } else { 4 })
            &&& branch[0].factory == "queue"@
            &&& branch[0].properties.len() == 0
            &&& parser.factory == "h264parse"@
            &&& parser.properties.len() == 1
            &&& parser.properties[0] == ("config-interval"@, ValueView::Int(-1))
            &&& sink.factory == "rtspclientsink"@
            &&& sink.properties.len() == 2
            &&& sink.properties[0] == ("location"@, ValueView::Text(url))
            &&& sink.properties[1] == ("protocols"@, ValueView::Nick("tcp"@))
            &&& encoder != "passthrough"@ ==> branch[1].factory == encoder
            &&& encoder != "passthrough"@ && encoder != "x264enc"@ ==> branch[1].properties.len()
                == 0
            &&& encoder == "x264enc"@ ==> {
                &&& branch[1].properties.len() == 3
                &&& branch[1].properties[0] == ("bitrate"@, ValueView::UInt(8000))
                &&& branch[1].properties[1] == ("key-int-max"@, ValueView::UInt(120))
                &&& branch[1].properties[2] == ("speed-preset"@, ValueView::Nick("veryfast"@))
            }
        }),
{
    reveal_strlit("passthrough");
    reveal_strlit("x264enc");
    assert("passthrough"@.len() == 11 && "x264enc"@.len() == 7);
}

/// The map-only branch is paced to the clock and sends nothing. A compressed
/// stream is only queued on its way to the tee; any other is brought to one size
/// and rate.
pub proof fn law_the_fixed_chains()
    ensures
        swallow_chain().len() == 2,
        swallow_chain()[0].factory == "queue"@,
        swallow_chain()[0].properties.len() == 0,
        swallow_chain()[1].factory == "fakesink"@,
        swallow_chain()[1].properties == seq![("sync"@, ValueView::Flag(true))],
        normalising_chain(true).len() == 1,
        normalising_chain(true)[0].factory == "queue"@,
        normalising_chain(true)[0].properties.len() == 0,
        normalising_chain(false).len() == 8,
        forall|i: int|
            0 <= i < 7 ==> (#[trigger] normalising_chain(false)[i]).properties.len() == 0,
        forall|i: int|
            0 <= i < 8 && i % 2 == 0 ==> (#[trigger] normalising_chain(false)[i]).factory
                == "queue"@,
        normalising_chain(false)[1].factory == "videoconvert"@,
        normalising_chain(false)[3].factory == "videoscale"@,
        normalising_chain(false)[5].factory == "videorate"@,
        normalising_chain(false)[7].factory == "capsfilter"@,
        normalising_chain(false)[7].properties == seq![
            ("caps"@, ValueView::RawVideo { width: 1920, height: 1080, fps: 60 }),
        ],
{
}

/// An element is made by its factory; a plain one is given nothing, and one
/// with a property that property alone.
pub proof fn law_an_element_is_given_no_more_than_it_says(
    factory: Seq<char>,
    name: Seq<char>,
    value: ValueView,
)
    ensures
        plain(factory).factory == factory,
        plain(factory).properties.len() == 0,
        with_one(factory, name, value).factory == factory,
        with_one(factory, name, value).properties.len() == 1,
        with_one(factory, name, value).properties[0] == (name, value),
{
}

} // verus!
