//! The line protocol between the host and the micro:bit.

use vstd::prelude::*;
use crate::text::{
    chars_of, decimal, is_ws, push_char, push_decimal, string_of_range, trim, trim_bounds, trim_start,
};

verus! {

/// Commands the host sends to the micro:bit.
#[derive(Debug, Clone, Copy, PartialEq, Eq, Structural)]
pub enum Command {
    /// Handshake / ping. The micro:bit replies with `Response::Ready`.
    Handshake,
    /// Stop playback immediately.
    Stop,
    /// Begin a PCM stream at `rate` Hz. Sample bytes follow as `Chunk`s.
    BeginStream { rate: u32 },
    /// A chunk header; exactly `len` raw PCM bytes follow this line on the wire.
    Chunk { len: u32 },
    /// Mark the end of the PCM sample bytes.
    EndStream,
}

impl Command {
    /// The newline-terminated line that encodes this command.
    pub open spec fn spec_encode(self) -> Seq<char> {
        match self {
            Command::Handshake => seq!['H', '\n'],
            Command::Stop => seq!['S', '\n'],
            Command::BeginStream { rate } => seq!['W', ' '] + decimal(rate as nat) + seq!['\n'],
            Command::Chunk { len } => seq!['C', ' '] + decimal(len as nat) + seq!['\n'],
            Command::EndStream => seq!['Z', '\n'],
        }
    }

    /// Encode as a newline-terminated line ready to write to the port. For
    /// `Command::Chunk` this is only the header; the payload bytes follow it.
    pub fn encode(&self) -> (r: String)
        ensures
            r@ == self.spec_encode(),
    {
        let mut s = String::new();
        match self {
            Command::Handshake => {
                push_char(&mut s, 'H');
            },
            Command::Stop => {
                push_char(&mut s, 'S');
            },
            Command::BeginStream { rate } => {
                push_char(&mut s, 'W');
                push_char(&mut s, ' ');
                push_decimal(&mut s, *rate as u64);
            },
            Command::Chunk { len } => {
                push_char(&mut s, 'C');
                push_char(&mut s, ' ');
                push_decimal(&mut s, *len as u64);
            },
            Command::EndStream => {
                push_char(&mut s, 'Z');
            },
        }
        push_char(&mut s, '\n');
        s
    }
}

/// Messages the micro:bit sends to the host.
#[derive(Debug, Clone, PartialEq, Eq)]
pub enum Response {
    /// Booted, or acknowledging a handshake.
    Ready,
    /// The PCM stream finished playing.
    Done,
    /// Flow-control credit: the device can accept another PCM chunk.
    Credit,
    /// Transport button: pause / resume toggle.
    Pause,
    /// Transport button: forward (seek ahead, or skip to the next song at the end).
    Forward,
    /// Transport button: back (rewind, or previous song near the start).
    Back,
    /// Transport button: skip to the next song in the queue.
    Next,
    /// The micro:bit (or the transport) reported an error.
    Error(String),
    /// A line we did not recognise; kept verbatim for the on-screen log.
    Unknown(String),
}

/// A `Response` with its text taken by value.
pub enum ResponseView {
    Ready,
    Done,
    Credit,
    Pause,
    Forward,
    Back,
    Next,
    Error(Seq<char>),
    Unknown(Seq<char>),
}

impl View for Response {
    type V = ResponseView;

    open spec fn view(&self) -> ResponseView {
        match self {
            Response::Ready => ResponseView::Ready,
            Response::Done => ResponseView::Done,
            Response::Credit => ResponseView::Credit,
            Response::Pause => ResponseView::Pause,
            Response::Forward => ResponseView::Forward,
            Response::Back => ResponseView::Back,
            Response::Next => ResponseView::Next,
            Response::Error(m) => ResponseView::Error(m@),
            Response::Unknown(l) => ResponseView::Unknown(l@),
        }
    }
}

/// `i` is the position of the first space in `t`.
pub open spec fn is_first_space(t: Seq<char>, i: int) -> bool {
    &&& 0 <= i < t.len()
    &&& t[i] == ' '
    &&& forall|k: int| 0 <= k < i ==> t[k] != ' '
}

/// Opcode and argument of a trimmed line: split at the first space, the
/// argument trimmed again; a line without a space is all opcode.
pub open spec fn split_op(t: Seq<char>) -> (Seq<char>, Seq<char>) {
    if exists|i: int| is_first_space(t, i) {
        let i = choose|i: int| is_first_space(t, i);
        (t.subrange(0, i), trim(t.subrange(i + 1, t.len() as int)))
    } else {
        (t, Seq::empty())
    }
}

/// `op` is the one-letter opcode `c`.
pub open spec fn is_op(op: Seq<char>, c: char) -> bool {
    op.len() == 1 && op[0] == c
}

/// The response a received line stands for.
pub open spec fn spec_parse(line: Seq<char>) -> ResponseView {
    let t = trim(line);
    let (op, rest) = split_op(t);
    if is_op(op, 'R') {
        ResponseView::Ready
    } else if is_op(op, 'D') {
        ResponseView::Done
    } else if is_op(op, 'K') {
        ResponseView::Credit
    } else if is_op(op, 'P') {
        ResponseView::Pause
    } else if is_op(op, 'F') {
        ResponseView::Forward
    } else if is_op(op, 'B') {
        ResponseView::Back
    } else if is_op(op, 'N') {
        ResponseView::Next
    } else if is_op(op, 'E') {
        ResponseView::Error(rest)
    } else {
        ResponseView::Unknown(t)
    }
}

impl Response {
    /// Parse one line received from the micro:bit (trailing newline optional).
    pub fn parse(line: &str) -> (r: Response)
        ensures
            r@ == spec_parse(line@),
    {
        let v = chars_of(line);
        let (a, b) = trim_bounds(&v, 0, v.len());
        let ghost t = v@.subrange(a as int, b as int);
        assert(v@.subrange(0, v@.len() as int) == v@);
        // Find the first space of the trimmed line.
        let mut i = a;
        while i < b && v[i] != ' '
            invariant
                a <= i <= b <= v@.len(),
                forall|k: int| a <= k < i ==> v@[k] != ' ',
            decreases b - i,
        {
            i = i + 1;
        }
        let (op_end, rest_lo, rest_hi) = if i < b {
            assert(is_first_space(t, i - a));
            assert forall|j: int| is_first_space(t, j) implies j == i - a by {
                if j < i - a {
                    assert(t[j] == v@[a + j]);
                }
                if j > i - a {
                    assert(t[i - a] == ' ');
                }
            }
            let (ra, rb) = trim_bounds(&v, i + 1, b);
            assert(t.subrange(0, i - a) == v@.subrange(a as int, i as int));
            assert(t.subrange(i - a + 1, t.len() as int) == v@.subrange(i + 1, b as int));
            (i, ra, rb)
        } else {
            assert forall|j: int| !is_first_space(t, j) by {
                if 0 <= j < t.len() {
                    assert(t[j] == v@[a + j]);
                }
            }
            (b, b, b)
        };
        let ghost op = v@.subrange(a as int, op_end as int);
        assert(op == split_op(t).0);
        assert(v@.subrange(rest_lo as int, rest_hi as int) == split_op(t).1);
        if op_end - a == 1 {
            let c = v[a];
            assert(op == seq![c]);
            if c == 'R' {
                return Response::Ready;
            } else if c == 'D' {
                return Response::Done;
            } else if c == 'K' {
                return Response::Credit;
            } else if c == 'P' {
                return Response::Pause;
            } else if c == 'F' {
                return Response::Forward;
            } else if c == 'B' {
                return Response::Back;
            } else if c == 'N' {
                return Response::Next;
            } else if c == 'E' {
                return Response::Error(string_of_range(&v, rest_lo, rest_hi));
            }
        }
        Response::Unknown(string_of_range(&v, a, b))
    }
}

proof fn lemma_trim_start_push(s: Seq<char>, c: char)
    requires
        is_ws(c),
    ensures
        trim_start(s.push(c)) == if trim_start(s).len() == 0 {
            Seq::<char>::empty()
        } else {
            trim_start(s).push(c)
        },
    decreases s.len(),
{
    let t = s.push(c);
    if s.len() == 0 {
        assert(t.subrange(1, t.len() as int) == Seq::<char>::empty());
        assert(trim_start(Seq::<char>::empty()) == Seq::<char>::empty());
        assert(trim_start(t) == trim_start(t.subrange(1, t.len() as int)));
    } else if !is_ws(s[0]) {
        assert(t[0] == s[0]);
    } else {
        assert(t.subrange(1, t.len() as int) == s.subrange(1, s.len() as int).push(c));
        lemma_trim_start_push(s.subrange(1, s.len() as int), c);
    }
}

/// A received line means the same with or without trailing whitespace, so a
/// trailing newline (or `\r\n`) is optional.
pub proof fn lemma_parse_ignores_trailing_whitespace(line: Seq<char>, c: char)
    requires
        is_ws(c),
    ensures
        spec_parse(line.push(c)) == spec_parse(line),
{
    lemma_trim_start_push(line, c);
    let ts = trim_start(line);
    if ts.len() > 0 {
        let u = ts.push(c);
        assert(u.subrange(0, u.len() - 1) == ts);
    }
    assert(trim(line.push(c)) == trim(line));
}

} // verus!
