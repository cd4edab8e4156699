//! How commands and PCM chunks are laid out as bytes on the wire, and how the
//! micro:bit splits that byte stream back into command lines and raw PCM.
//!
//! A PCM chunk travels as its `C <len>` header line immediately followed by
//! exactly `len` raw bytes; everything else is a newline-terminated ASCII line.
//! The device reads raw bytes only for the exact count it was just told, so a
//! command can never be mistaken for PCM, nor PCM for a command.

use vstd::prelude::*;
use vstd::utf8::{encode_utf8, is_ascii_chars, is_ascii_chars_encode_utf8};
use crate::text::{decimal, digit_char};
use crate::serial::protocol::Command;

verus! {

/// The bytes of an ASCII text, one per character.
pub open spec fn ascii_bytes(s: Seq<char>) -> Seq<u8> {
    s.map_values(|c: char| c as u8)
}

/// One unit the host writes to the port.
pub enum WireItem {
    /// A command line (never a bare `Chunk` header).
    Line(Command),
    /// A PCM chunk: its header line, then the payload.
    Chunk(Seq<u8>),
}

/// The bytes one item puts on the wire.
pub open spec fn item_bytes(item: WireItem) -> Seq<u8> {
    match item {
        WireItem::Line(cmd) => ascii_bytes(cmd.spec_encode()),
        WireItem::Chunk(data) => ascii_bytes(Command::Chunk { len: data.len() as u32 }.spec_encode())
            + data,
    }
}

/// The bytes a sequence of items puts on the wire, in order.
pub open spec fn wire_bytes(items: Seq<WireItem>) -> Seq<u8>
    decreases items.len(),
{
    if items.len() == 0 {
        Seq::empty()
    } else {
        item_bytes(items[0]) + wire_bytes(items.subrange(1, items.len() as int))
    }
}

/// The items the host's own framing rules allow: no bare chunk header, and
/// every chunk length fits the header's `u32`.
pub open spec fn well_framed(items: Seq<WireItem>) -> bool {
    forall|i: int|
        0 <= i < items.len() ==> match #[trigger] items[i] {
            WireItem::Line(cmd) => !(cmd is Chunk),
            WireItem::Chunk(data) => data.len() <= u32::MAX,
        }
}

/// What the device makes of the wire: a command line (without its newline)
/// or a run of raw PCM bytes.
pub enum DeviceFrame {
    Line(Seq<u8>),
    Pcm(Seq<u8>),
}

/// `k` is the position of the first newline in `s`.
pub open spec fn is_first_newline(s: Seq<u8>, k: int) -> bool {
    &&& 0 <= k < s.len()
    &&& s[k] == 10u8
    &&& forall|j: int| 0 <= j < k ==> s[j] != 10u8
}

/// `b` is an ASCII digit.
pub open spec fn is_digit_byte(b: u8) -> bool {
    48 <= b <= 57
}

/// The number an all-digit byte string spells.
pub open spec fn digits_value(s: Seq<u8>) -> nat
    decreases s.len(),
{
    if s.len() == 0 {
        0
    } else {
        digits_value(s.subrange(0, s.len() - 1)) * 10 + (s[s.len() - 1] - 48) as nat
    }
}

/// The payload length a command line announces, if it is a chunk header
/// (`C`, a space, then one or more digits).
pub open spec fn header_len(line: Seq<u8>) -> Option<nat> {
    if line.len() >= 3 && line[0] == 67u8 && line[1] == 32u8 && (forall|i: int|
        2 <= i < line.len() ==> is_digit_byte(#[trigger] line[i])) {
        Some(digits_value(line.subrange(2, line.len() as int)))
    } else {
        None
    }
}

/// The device's reading of a byte stream: newline-terminated lines, with
/// exactly the announced number of raw bytes after each chunk header. `None`
/// when the stream stops inside a line or inside a chunk.
pub open spec fn device_read(wire: Seq<u8>) -> Option<Seq<DeviceFrame>>
    decreases wire.len(),
{
    if wire.len() == 0 {
        Some(Seq::empty())
    } else if exists|k: int| is_first_newline(wire, k) {
        let k = choose|k: int| is_first_newline(wire, k);
        let line = wire.subrange(0, k);
        let rest = wire.subrange(k + 1, wire.len() as int);
        match header_len(line) {
            Some(n) => if n <= rest.len() {
                match device_read(rest.subrange(n as int, rest.len() as int)) {
                    Some(frames) => Some(seq![DeviceFrame::Pcm(rest.subrange(0, n as int))] + frames),
                    None => None,
                }
            } else {
                None
            },
            None => match device_read(rest) {
                Some(frames) => Some(seq![DeviceFrame::Line(line)] + frames),
                None => None,
            },
        }
    } else {
        None
    }
}

/// The frame the device should see for one item.
pub open spec fn expected_frame(item: WireItem) -> DeviceFrame {
    match item {
        WireItem::Line(cmd) => {
            let text = cmd.spec_encode();
            DeviceFrame::Line(ascii_bytes(text.subrange(0, text.len() - 1)))
        },
        WireItem::Chunk(data) => DeviceFrame::Pcm(data),
    }
}

/// The frames the device should see for a sequence of items.
pub open spec fn expected_frames(items: Seq<WireItem>) -> Seq<DeviceFrame> {
    items.map_values(|item: WireItem| expected_frame(item))
}

proof fn lemma_decimal_digits(n: nat)
    ensures
        decimal(n).len() >= 1,
        forall|i: int|
            0 <= i < decimal(n).len() ==> '0' <= #[trigger] decimal(n)[i] <= '9',
        digits_value(ascii_bytes(decimal(n))) == n,
    decreases n,
{
    if n < 10 {
        let b = ascii_bytes(decimal(n));
        assert(b.subrange(0, 0) == Seq::<u8>::empty());
        assert(digit_char(n) as u8 == 48 + n);
        assert(b[0] == 48 + n);
        assert(digits_value(b) == digits_value(b.subrange(0, 0)) * 10 + (b[0] - 48) as nat);
    } else {
        lemma_decimal_digits(n / 10);
        let p = decimal(n / 10);
        assert(decimal(n) == p.push(digit_char(n % 10)));
        let b = ascii_bytes(decimal(n));
        assert(b.subrange(0, b.len() - 1) == ascii_bytes(p));
        assert(digit_char(n % 10) as u8 == 48 + n % 10);
        assert(b[b.len() - 1] == 48 + n % 10);
        assert(digits_value(b) == digits_value(ascii_bytes(p)) * 10 + (b[b.len() - 1] - 48) as nat);
        assert((n / 10) * 10 + n % 10 == n);
    }
}

/// A command's encoding is ASCII, so its UTF-8 bytes are its characters.
pub proof fn lemma_encode_ascii(cmd: Command)
    ensures
        is_ascii_chars(cmd.spec_encode()),
        encode_utf8(cmd.spec_encode()) == ascii_bytes(cmd.spec_encode()),
{
    let t = cmd.spec_encode();
    match cmd {
        Command::BeginStream { rate } => lemma_decimal_digits(rate as nat),
        Command::Chunk { len } => lemma_decimal_digits(len as nat),
        _ => {},
    }
    assert(is_ascii_chars(t));
    is_ascii_chars_encode_utf8(t);
    assert(encode_utf8(t) == ascii_bytes(t));
}

/// The opcode letter that starts a command's line.
pub open spec fn opcode(cmd: Command) -> char {
    match cmd {
        Command::Handshake => 'H',
        Command::Stop => 'S',
        Command::BeginStream { .. } => 'W',
        Command::Chunk { .. } => 'C',
        Command::EndStream => 'Z',
    }
}

/// Characters that may stand in a line before its newline.
pub open spec fn is_line_char(c: char) -> bool {
    c == ' ' || ('A' <= c <= 'Z') || ('0' <= c <= '9')
}

proof fn lemma_encode_shape(cmd: Command)
    ensures
        cmd.spec_encode().len() >= 2,
        cmd.spec_encode()[0] == opcode(cmd),
        cmd.spec_encode()[cmd.spec_encode().len() - 1] == '\n',
        forall|i: int|
            0 <= i < cmd.spec_encode().len() - 1 ==> is_line_char(#[trigger] cmd.spec_encode()[i]),
{
    match cmd {
        Command::BeginStream { rate } => lemma_decimal_digits(rate as nat),
        Command::Chunk { len } => lemma_decimal_digits(len as nat),
        _ => {},
    }
    let t = cmd.spec_encode();
    assert forall|i: int| 0 <= i < t.len() - 1 implies is_line_char(#[trigger] t[i]) by {
        match cmd {
            Command::BeginStream { rate } => {
                if i >= 2 {
                    assert(t[i] == decimal(rate as nat)[i - 2]);
                }
            },
            Command::Chunk { len } => {
                if i >= 2 {
                    assert(t[i] == decimal(len as nat)[i - 2]);
                }
            },
            _ => {},
        }
    }
}

/// Splitting `bytes ++ tail` at the first newline, where `bytes` ends with
/// its only newline.
proof fn lemma_line_split(text: Seq<char>, tail: Seq<u8>)
    requires
        text.len() >= 1,
        text[text.len() - 1] == '\n',
        forall|i: int| 0 <= i < text.len() - 1 ==> is_line_char(#[trigger] text[i]),
    ensures
        ({
            let w = ascii_bytes(text) + tail;
            let k = text.len() - 1;
            &&& is_first_newline(w, k)
            &&& (choose|j: int| is_first_newline(w, j)) == k
            &&& w.subrange(0, k) == ascii_bytes(text.subrange(0, k))
            &&& w.subrange(k + 1, w.len() as int) == tail
        }),
{
    let w = ascii_bytes(text) + tail;
    let k = text.len() - 1;
    assert(w[k] == text[k] as u8);
    assert forall|j: int| 0 <= j < k implies w[j] != 10u8 by {
        assert(w[j] == text[j] as u8);
        assert(is_line_char(text[j]));
    }
    assert(is_first_newline(w, k));
    let c = choose|j: int| is_first_newline(w, j);
    assert(c == k) by {
        if c < k {
            assert(w[c] != 10u8);
        } else if c > k {
            assert(w[k] != 10u8);
        }
    }
    assert(w.subrange(0, k) == ascii_bytes(text.subrange(0, k)));
    assert(w.subrange(k + 1, w.len() as int) == tail);
}

/// Every sequence of well-framed items decodes on the device into exactly the
/// command lines and PCM runs the host meant: no command byte is read as PCM,
/// no PCM byte as a command, and the device ends back in line mode.
pub proof fn lemma_wire_decodes(items: Seq<WireItem>)
    requires
        well_framed(items),
    ensures
        device_read(wire_bytes(items)) == Some(expected_frames(items)),
    decreases items.len(),
{
    if items.len() == 0 {
        assert(expected_frames(items) == Seq::<DeviceFrame>::empty());
    } else {
        let rest_items = items.subrange(1, items.len() as int);
        assert(well_framed(rest_items)) by {
            assert forall|i: int| 0 <= i < rest_items.len() implies match #[trigger] rest_items[i] {
                WireItem::Line(cmd) => !(cmd is Chunk),
                WireItem::Chunk(data) => data.len() <= u32::MAX,
            } by {
                assert(rest_items[i] == items[i + 1]);
            }
        }
        lemma_wire_decodes(rest_items);
        let r = wire_bytes(rest_items);
        let w = wire_bytes(items);
        assert(w == item_bytes(items[0]) + r);
        assert(expected_frames(items) == seq![expected_frame(items[0])] + expected_frames(
            rest_items,
        ));
        match items[0] {
            WireItem::Line(cmd) => {
                assert(!(cmd is Chunk));
                let text = cmd.spec_encode();
                lemma_encode_shape(cmd);
                lemma_line_split(text, r);
                let k = text.len() - 1;
                let line = w.subrange(0, k);
                assert(line[0] == text[0] as u8);
                assert(header_len(line) is None);
            },
            WireItem::Chunk(data) => {
                let len = data.len() as u32;
                assert(len as nat == data.len());
                let cmd = Command::Chunk { len };
                let text = cmd.spec_encode();
                lemma_encode_shape(cmd);
                lemma_decimal_digits(len as nat);
                lemma_line_split(text, data + r);
                assert(w == ascii_bytes(text) + (data + r));
                let k = text.len() - 1;
                let line = w.subrange(0, k);
                assert(line == ascii_bytes(text.subrange(0, k)));
                let dec = decimal(len as nat);
                assert(text.subrange(0, k) == seq!['C', ' '] + dec);
                assert(line.subrange(2, line.len() as int) == ascii_bytes(dec));
                assert forall|i: int| 2 <= i < line.len() implies is_digit_byte(
                    #[trigger] line[i],
                ) by {
                    assert(line[i] == dec[i - 2] as u8);
                }
                assert(header_len(line) == Some(data.len()));
                let rest = data + r;
                assert(rest.subrange(0, data.len() as int) == data);
                assert(rest.subrange(data.len() as int, rest.len() as int) == r);
            },
        }
    }
}

/// The bytes of a command line, ready to write to the port.
pub fn line_bytes(cmd: &Command) -> (r: Vec<u8>)
    ensures
        r@ == item_bytes(WireItem::Line(*cmd)),
{
    let text = cmd.encode();
    let b = text.as_str().as_bytes();
    proof {
        lemma_encode_ascii(*cmd);
    }
    vstd::slice::slice_to_vec(b)
}

/// A PCM chunk as it goes on the wire: its `C <len>` header line, then the
/// payload bytes.
pub fn frame_chunk(data: &[u8]) -> (r: Vec<u8>)
    requires
        data@.len() <= u32::MAX,
    ensures
        r@ == item_bytes(WireItem::Chunk(data@)),
{
    let cmd = Command::Chunk { len: data.len() as u32 };
    let mut out = line_bytes(&cmd);
    let ghost header = out@;
    let n = data.len();
    let mut i: usize = 0;
    while i < n
        invariant
            n == data@.len(),
            i <= n,
            out@ == header + data@.subrange(0, i as int),
        decreases n - i,
    {
        out.push(data[i]);
        assert(data@.subrange(0, i + 1) == data@.subrange(0, i as int).push(data@[i as int]));
        i = i + 1;
    }
    assert(data@.subrange(0, n as int) == data@);
    out
}

/// A command's line is ASCII, ends with its newline and holds no other
/// newline.
pub proof fn lemma_encode_one_newline(cmd: Command)
    ensures
        is_ascii_chars(cmd.spec_encode()),
        cmd.spec_encode().len() >= 2,
        cmd.spec_encode()[cmd.spec_encode().len() - 1] == '\n',
        forall|i: int| 0 <= i < cmd.spec_encode().len() - 1 ==> #[trigger] cmd.spec_encode()[i] != '\n',
{
    lemma_encode_ascii(cmd);
    lemma_encode_shape(cmd);
    let t = cmd.spec_encode();
    assert forall|i: int| 0 <= i < t.len() - 1 implies #[trigger] t[i] != '\n' by {
        assert(is_line_char(t[i]));
    }
}

/// Distinct commands encode to distinct lines.
pub proof fn lemma_encode_injective(a: Command, b: Command)
    requires
        a.spec_encode() == b.spec_encode(),
    ensures
        a == b,
{
    lemma_encode_shape(a);
    lemma_encode_shape(b);
    let t = a.spec_encode();
    assert(opcode(a) == opcode(b));
    match (a, b) {
        (Command::BeginStream { rate: x }, Command::BeginStream { rate: y }) => {
            lemma_decimal_digits(x as nat);
            lemma_decimal_digits(y as nat);
            assert(t.subrange(2, t.len() - 1) == decimal(x as nat));
            assert(b.spec_encode().subrange(2, t.len() - 1) == decimal(y as nat));
        },
        (Command::Chunk { len: x }, Command::Chunk { len: y }) => {
            lemma_decimal_digits(x as nat);
            lemma_decimal_digits(y as nat);
            assert(t.subrange(2, t.len() - 1) == decimal(x as nat));
            assert(b.spec_encode().subrange(2, t.len() - 1) == decimal(y as nat));
        },
        _ => {},
    }
}

proof fn lemma_wire_bytes_append(a: Seq<WireItem>, b: Seq<WireItem>)
    ensures
        wire_bytes(a + b) == wire_bytes(a) + wire_bytes(b),
    decreases a.len(),
{
    if a.len() == 0 {
        assert(a + b == b);
        assert(wire_bytes(a) + wire_bytes(b) == wire_bytes(b));
    } else {
        let rest = a.subrange(1, a.len() as int);
        lemma_wire_bytes_append(rest, b);
        assert((a + b)[0] == a[0]);
        assert((a + b).subrange(1, (a + b).len() as int) == rest + b);
    }
}

/// The bytes of a session written batch by batch, one batch after another.
pub open spec fn session_bytes(batches: Seq<Seq<WireItem>>) -> Seq<u8>
    decreases batches.len(),
{
    if batches.len() == 0 {
        Seq::empty()
    } else {
        session_bytes(batches.subrange(0, batches.len() - 1)) + wire_bytes(batches.last())
    }
}

/// A whole session written as any number of well-framed batches decodes on
/// the device into exactly the frames of all batches, in order: framing holds
/// across batch boundaries, and the device ends in line mode.
pub proof fn lemma_session_decodes(batches: Seq<Seq<WireItem>>)
    requires
        forall|i: int| 0 <= i < batches.len() ==> well_framed(#[trigger] batches[i]),
    ensures
        session_bytes(batches) == wire_bytes(batches.flatten_alt()),
        well_framed(batches.flatten_alt()),
        device_read(session_bytes(batches)) == Some(expected_frames(batches.flatten_alt())),
    decreases batches.len(),
{
    if batches.len() == 0 {
        assert(wire_bytes(Seq::<WireItem>::empty()) == Seq::<u8>::empty());
        lemma_wire_decodes(Seq::<WireItem>::empty());
    } else {
        let init = batches.subrange(0, batches.len() - 1);
        assert forall|i: int| 0 <= i < init.len() implies well_framed(#[trigger] init[i]) by {
            assert(init[i] == batches[i]);
        }
        lemma_session_decodes(init);
        let last = batches.last();
        assert(well_framed(last));
        assert(batches.drop_last() == init);
        let all = init.flatten_alt() + last;
        assert(batches.flatten_alt() == all);
        lemma_wire_bytes_append(init.flatten_alt(), last);
        assert(well_framed(all)) by {
            assert forall|i: int| 0 <= i < all.len() implies match #[trigger] all[i] {
                WireItem::Line(cmd) => !(cmd is Chunk),
                WireItem::Chunk(data) => data.len() <= u32::MAX,
            } by {
                if i < init.flatten_alt().len() {
                    assert(all[i] == init.flatten_alt()[i]);
                } else {
                    assert(all[i] == last[i - init.flatten_alt().len()]);
                }
            }
        }
        lemma_wire_decodes(all);
    }
}

} // verus!
