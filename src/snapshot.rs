//! Status blocks, the fixed layout of a snapshot, and the bar-protocol line
//! that carries it.
use vstd::prelude::*;
use chrono::Timelike;
use crate::format::{
    bytes_text, clock_text, format_clock, format_volume, readable_bytes, volume_text, ClockTime,
};
use crate::sensors::SensorError;
use crate::text::{decimal, digit_char, push_char, push_decimal};

verus! {

broadcast use vstd::string::group_string_axioms;

/// The first line of the stream: the protocol header.
pub const HEADER_LINE: &'static str = "{ \"version\": 1 }";

/// The second line of the stream: it opens the never-closed outer array.
pub const OPEN_LINE: &'static str = "[";

/// The accent color of the network block.
pub const NETWORK_COLOR: &'static str = "#7aa2f7";

/// One segment of the bar.
pub struct StatusBlock {
    pub name: String,
    pub full_text: String,
    pub color: Option<String>,
}

/// What a status block shows.
pub struct BlockView {
    pub name: Seq<char>,
    pub full_text: Seq<char>,
    pub color: Option<Seq<char>>,
}

pub open spec fn opt_view(o: Option<String>) -> Option<Seq<char>> {
    match o {
        Some(s) => Some(s@),
        None => None,
    }
}

impl View for StatusBlock {
    type V = BlockView;

    open spec fn view(&self) -> BlockView {
        BlockView { name: self.name@, full_text: self.full_text@, color: opt_view(self.color) }
    }
}

/// What a sequence of blocks shows, block by block.
pub open spec fn blocks_view(blocks: Seq<StatusBlock>) -> Seq<BlockView> {
    blocks.map_values(|b: StatusBlock| b@)
}

/// Link state and cumulative traffic of the watched network interface.
#[derive(Debug, Clone, Copy, PartialEq, Eq, Structural)]
pub struct NetworkReading {
    pub up: bool,
    pub carrier: bool,
    pub bytes_sent: u64,
    pub bytes_received: u64,
}

/// Everything one snapshot is built from.
pub struct Readings {
    pub volume: u32,
    pub brightness: Result<u64, SensorError>,
    pub network: NetworkReading,
    pub clock: ClockTime,
}

pub open spec fn volume_block(vol: u32) -> BlockView {
    BlockView { name: "volume"@, full_text: volume_text(vol), color: None }
}

pub open spec fn brightness_block(level: u64) -> BlockView {
    BlockView {
        name: "brightness"@,
        full_text: seq!['\u{f522}', ' ', ' '] + decimal(level as nat),
        color: None,
    }
}

/// A byte count as shown in the network block; `ERROR` when out of range.
pub open spec fn bytes_label(n: u64) -> Seq<char> {
    match bytes_text(n as nat) {
        Some(t) => t,
        None => "ERROR"@,
    }
}

pub open spec fn network_block(net: NetworkReading) -> BlockView {
    BlockView {
        name: "net"@,
        full_text: seq!['\u{f6ff}', ' ', ' '] + bytes_label(net.bytes_sent) + seq![' ', ' ']
            + bytes_label(net.bytes_received),
        color: Some(NETWORK_COLOR@),
    }
}

pub open spec fn clock_block(t: ClockTime) -> BlockView {
    BlockView {
        name: "clock"@,
        full_text: seq!['\u{f0954}', ' ', ' '] + clock_text(t) + seq![' '],
        color: None,
    }
}

/// The snapshot, left to right: volume; brightness when it could be read; the
/// network when the interface is up and has a carrier; the clock.
pub open spec fn snapshot_of(r: Readings) -> Seq<BlockView> {
    seq![volume_block(r.volume)] + (match r.brightness {
        Ok(level) => seq![brightness_block(level)],
        Err(_) => Seq::empty(),
    }) + (if r.network.up && r.network.carrier {
        seq![network_block(r.network)]
    } else {
        Seq::empty()
    }) + seq![clock_block(r.clock)]
}

fn block(name: &str, full_text: String, color: Option<String>) -> (b: StatusBlock)
    ensures
        b@ == (BlockView { name: name@, full_text: full_text@, color: opt_view(color) }),
{
    StatusBlock { name: String::from_str(name), full_text, color }
}

fn bytes_label_text(n: u64) -> (r: String)
    ensures
        r@ == bytes_label(n),
{
    match readable_bytes(n) {
        Some(s) => s,
        None => String::from_str("ERROR"),
    }
}

/// Builds the blocks of one snapshot in their fixed order.
pub fn build_snapshot(r: &Readings) -> (blocks: Vec<StatusBlock>)
    requires
        r.clock.wf(),
    ensures
        blocks_view(blocks@) == snapshot_of(*r),
{
    let mut blocks: Vec<StatusBlock> = Vec::new();
    blocks.push(block("volume", format_volume(r.volume), None));
    match r.brightness {
        Ok(level) => {
            let mut t = String::new();
            push_char(&mut t, '\u{f522}');
            push_char(&mut t, ' ');
            push_char(&mut t, ' ');
            push_decimal(&mut t, level);
            assert(t@ =~= brightness_block(level).full_text);
            blocks.push(block("brightness", t, None));
        },
        Err(_) => {},
    }
    if r.network.up && r.network.carrier {
        let mut t = String::new();
        push_char(&mut t, '\u{f6ff}');
        push_char(&mut t, ' ');
        push_char(&mut t, ' ');
        t.append(bytes_label_text(r.network.bytes_sent).as_str());
        push_char(&mut t, ' ');
        push_char(&mut t, ' ');
        t.append(bytes_label_text(r.network.bytes_received).as_str());
        assert(t@ =~= network_block(r.network).full_text);
        blocks.push(block("net", t, Some(String::from_str(NETWORK_COLOR))));
    }
    let mut t = String::new();
    push_char(&mut t, '\u{f0954}');
    push_char(&mut t, ' ');
    push_char(&mut t, ' ');
    t.append(format_clock(&r.clock).as_str());
    push_char(&mut t, ' ');
    assert(t@ =~= clock_block(r.clock).full_text);
    blocks.push(block("clock", t, None));
    assert(blocks_view(blocks@) =~= snapshot_of(*r));
    blocks
}


/// Why a snapshot could not be written.
#[derive(Debug, Clone, Copy, PartialEq, Eq, Structural)]
pub enum SnapshotError {
    /// A text of the snapshot could not be encoded as JSON.
    Encoding,
}

/// `serde_json::Error`, the error of `serde_json::to_string`, carried opaque.
#[verifier::external_type_specification]
#[verifier::external_body]
pub struct ExJsonError(serde_json::Error);

/// A lower-case hexadecimal digit.
pub open spec fn hex_digit(d: nat) -> char {
    if d < 10 {
        digit_char(d)
    } else if d == 10 {
        'a'
    } else if d == 11 {
        'b'
    } else if d == 12 {
        'c'
    } else if d == 13 {
        'd'
    } else if d == 14 {
        'e'
    } else {
        'f'
    }
}

/// How serde_json writes one character inside a string literal: the quote
/// and the backslash are escaped, backspace, tab, line feed, form feed and
/// carriage return take their short escapes, the other characters below
/// U+0020 are written `\u00xx` in lower-case hex, and the rest is copied.
pub open spec fn json_escape_char(c: char) -> Seq<char> {
    if c == '"' {
        seq!['\\', '"']
    } else if c == '\\' {
        seq!['\\', '\\']
    } else if c == '\u{8}' {
        seq!['\\', 'b']
    } else if c == '\t' {
        seq!['\\', 't']
    } else if c == '\n' {
        seq!['\\', 'n']
    } else if c == '\u{c}' {
        seq!['\\', 'f']
    } else if c == '\r' {
        seq!['\\', 'r']
    } else if (c as u32) < 0x20 {
        seq!['\\', 'u', '0', '0', hex_digit((c as u32 / 16) as nat), hex_digit((c as u32 % 16) as nat)]
    } else {
        seq![c]
    }
}

/// The characters of a text, each written as `json_escape_char` says.
pub open spec fn json_escaped(s: Seq<char>) -> Seq<char>
    decreases s.len(),
{
    if s.len() == 0 {
        Seq::empty()
    } else {
        json_escaped(s.drop_last()) + json_escape_char(s.last())
    }
}

/// The JSON string literal that serde_json writes for a text.
pub open spec fn json_string(s: Seq<char>) -> Seq<char> {
    seq!['"'] + json_escaped(s) + seq!['"']
}

/// Relies on `serde_json::to_string` on a string slice for its JSON string
/// literal, escaped as `json_string` states. A string slice is written through `serialize_str` into a `Vec`,
/// which cannot fail, so the result is always `Ok`.
#[verifier::external_body]
fn json_quote(s: &str) -> (r: Result<String, serde_json::Error>)
    ensures
        r is Ok,
        r matches Ok(q) ==> q@ == json_string(s@),
{
    serde_json::to_string(s)
}

/// A JSON object of a block from the literals of its fields, keys in
/// ascending order: `color` (when there is one), `full_text`, `name`.
pub open spec fn object_text(
    name_json: Seq<char>,
    text_json: Seq<char>,
    color_json: Option<Seq<char>>,
) -> Seq<char> {
    seq!['{'] + (match color_json {
        Some(c) => "\"color\":"@ + c + seq![','],
        None => Seq::empty(),
    }) + "\"full_text\":"@ + text_json + ",\"name\":"@ + name_json + seq!['}']
}

/// Texts joined with commas.
pub open spec fn join_commas(items: Seq<Seq<char>>) -> Seq<char>
    decreases items.len(),
{
    if items.len() == 0 {
        Seq::empty()
    } else if items.len() == 1 {
        items[0]
    } else {
        join_commas(items.drop_last()) + seq![','] + items.last()
    }
}

/// One snapshot on the wire: a JSON array of the objects, then a comma.
pub open spec fn snapshot_line(objects: Seq<Seq<char>>) -> Seq<char> {
    seq!['['] + join_commas(objects) + seq![']', ',']
}

/// The JSON object of a block.
pub open spec fn block_json(b: BlockView) -> Seq<char> {
    object_text(
        json_string(b.name),
        json_string(b.full_text),
        match b.color {
            Some(c) => Some(json_string(c)),
            None => None,
        },
    )
}

/// The wire line of a snapshot.
pub open spec fn encoded_snapshot(blocks: Seq<BlockView>) -> Seq<char> {
    snapshot_line(blocks.map_values(|b: BlockView| block_json(b)))
}

/// Writes the JSON object of a block from the JSON literals of its fields.
pub fn frame_object(name_json: &str, text_json: &str, color_json: Option<&str>) -> (r: String)
    ensures
        r@ == object_text(name_json@, text_json@, crate::sensors::text_of(color_json)),
{
    let mut out = String::new();
    push_char(&mut out, '{');
    match color_json {
        Some(c) => {
            out.append("\"color\":");
            out.append(c);
            push_char(&mut out, ',');
        },
        None => {},
    }
    out.append("\"full_text\":");
    out.append(text_json);
    out.append(",\"name\":");
    out.append(name_json);
    push_char(&mut out, '}');
    assert(out@ =~= object_text(name_json@, text_json@, crate::sensors::text_of(color_json)));
    out
}

/// Writes the wire line of a snapshot from the JSON objects of its blocks.
pub fn frame_snapshot(objects: &Vec<String>) -> (r: String)
    ensures
        r@ == snapshot_line(objects@.map_values(|o: String| o@)),
{
    let ghost views = objects@.map_values(|o: String| o@);
    let mut out = String::new();
    push_char(&mut out, '[');
    let mut i: usize = 0;
    while i < objects.len()
        invariant
            i <= objects@.len(),
            views == objects@.map_values(|o: String| o@),
            out@ == seq!['['] + join_commas(views.subrange(0, i as int)),
        decreases objects@.len() - i,
    {
        if i > 0 {
            push_char(&mut out, ',');
        }
        out.append(objects[i].as_str());
        i = i + 1;
        let ghost upto = views.subrange(0, i as int);
        assert(upto.drop_last() =~= views.subrange(0, i - 1));
        assert(i == 1 ==> upto.drop_last().len() == 0);
        assert(out@ =~= seq!['['] + join_commas(upto));
    }
    assert(views.subrange(0, i as int) =~= views);
    push_char(&mut out, ']');
    push_char(&mut out, ',');
    assert(out@ =~= snapshot_line(views));
    out
}

fn quote(s: &str) -> (r: Result<String, SnapshotError>)
    ensures
        r is Ok,
        r matches Ok(q) ==> q@ == json_string(s@),
        r matches Err(e) ==> e == SnapshotError::Encoding,
{
    match json_quote(s) {
        Ok(q) => Ok(q),
        Err(_) => Err(SnapshotError::Encoding),
    }
}

/// Encodes a snapshot as one line of the bar protocol (without the line
/// feed). It always succeeds: serde_json cannot fail on a string slice.
pub fn encode_snapshot(blocks: &Vec<StatusBlock>) -> (r: Result<String, SnapshotError>)
    ensures
        r is Ok,
        r matches Ok(line) ==> line@ == encoded_snapshot(blocks_view(blocks@)),
        r matches Err(e) ==> e == SnapshotError::Encoding,
{
    let ghost target = blocks_view(blocks@).map_values(|b: BlockView| block_json(b));
    let mut objects: Vec<String> = Vec::new();
    let mut i: usize = 0;
    while i < blocks.len()
        invariant
            i <= blocks@.len(),
            target == blocks_view(blocks@).map_values(|b: BlockView| block_json(b)),
            objects@.len() == i,
            target.len() == blocks@.len(),
            forall|k: int| 0 <= k < i ==> (#[trigger] objects@[k])@ == target[k],
        decreases blocks@.len() - i,
    {
        let b = &blocks[i];
        let name = quote(b.name.as_str())?;
        let text = quote(b.full_text.as_str())?;
        let obj = match &b.color {
            Some(c) => {
                let cq = quote(c.as_str())?;
                frame_object(name.as_str(), text.as_str(), Some(cq.as_str()))
            },
            None => frame_object(name.as_str(), text.as_str(), None),
        };
        assert(obj@ == block_json(b@));
        assert(blocks_view(blocks@)[i as int] == b@);
        assert(target[i as int] == obj@);
        objects.push(obj);
        i = i + 1;
    }
    assert(objects@.map_values(|o: String| o@) =~= target);
    Ok(frame_snapshot(&objects))
}

/// Relies on `chrono::Local::now` for the local time and on `Timelike`'s
/// `hour`, `minute` and `second`, documented to lie in 0..=23, 0..=59, 0..=59.
#[verifier::external_body]
fn local_clock() -> (t: ClockTime)
    ensures
        t.wf(),
{
    let now = chrono::Local::now();
    ClockTime { hour: now.hour(), minute: now.minute(), second: now.second() }
}

/// The readings of a snapshot taken now: the clock is read at the call.
pub fn readings_now(
    volume: u32,
    brightness: Result<u64, SensorError>,
    network: NetworkReading,
) -> (r: Readings)
    ensures
        r.volume == volume,
        r.brightness == brightness,
        r.network == network,
        r.clock.wf(),
{
    Readings { volume, brightness, network, clock: local_clock() }
}

}
