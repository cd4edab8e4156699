//! Splitting the bytes read from the port into newline-terminated lines and
//! decoding each into a `Response`. Partial lines are carried across reads,
//! so a read that ends mid-line never drops buffered data.

use vstd::prelude::*;
use vstd::utf8::{decode_utf8, valid_utf8};
use crate::serial::protocol::{spec_parse, Response, ResponseView};
use crate::serial::wire::is_first_newline;

verus! {

/// `String::from_utf8_lossy` of a byte string: its UTF-8 decoding, with each
/// invalid sequence replaced by U+FFFD.
pub uninterp spec fn spec_from_utf8_lossy(b: Seq<u8>) -> Seq<char>;

/// Decode `b` as UTF-8, replacing invalid sequences (`String::from_utf8_lossy`).
/// Valid UTF-8 decodes to exactly its characters; what replacement gives for
/// invalid input is named, not stated.
#[verifier::external_body]
pub(crate) fn from_utf8_lossy(b: &[u8]) -> (r: String)
    ensures
        r@ == spec_from_utf8_lossy(b@),
        valid_utf8(b@) ==> r@ == decode_utf8(b@),
{
    String::from_utf8_lossy(b).into_owned()
}

/// The complete lines of `bytes` (each with its newline), in order, and the
/// incomplete rest after the last newline.
pub open spec fn split_lines(bytes: Seq<u8>) -> (Seq<Seq<u8>>, Seq<u8>)
    decreases bytes.len(),
{
    if exists|k: int| is_first_newline(bytes, k) {
        let k = choose|k: int| is_first_newline(bytes, k);
        let (lines, rest) = split_lines(bytes.subrange(k + 1, bytes.len() as int));
        (seq![bytes.subrange(0, k + 1)] + lines, rest)
    } else {
        (Seq::empty(), bytes)
    }
}

/// The response a received line decodes to.
pub open spec fn line_response(line: Seq<u8>) -> ResponseView {
    spec_parse(spec_from_utf8_lossy(line))
}

/// `s` holds no newline.
pub open spec fn no_newline(s: Seq<u8>) -> bool {
    forall|j: int| 0 <= j < s.len() ==> s[j] != 10u8
}


/// Accumulates bytes read from the port and hands out the responses of the
/// lines they complete.
pub struct LineReader {
    /// Bytes of a line not yet terminated.
    pub pending: Vec<u8>,
}

/// Where the first newline of `s` from `from` on is, if any.
fn find_newline(s: &Vec<u8>, from: usize) -> (r: Option<usize>)
    requires
        from <= s@.len(),
    ensures
        match r {
            Some(k) => from <= k < s@.len() && is_first_newline(
                s@.subrange(from as int, s@.len() as int),
                k - from,
            ),
            None => no_newline(s@.subrange(from as int, s@.len() as int)),
        },
{
    let mut i = from;
    while i < s.len()
        invariant
            from <= i <= s@.len(),
            forall|j: int| from <= j < i ==> s@[j] != 10u8,
        decreases s@.len() - i,
    {
        if s[i] == 10u8 {
            return Some(i);
        }
        i = i + 1;
    }
    None
}

proof fn lemma_first_newline_unique(s: Seq<u8>, k: int)
    requires
        is_first_newline(s, k),
    ensures
        (choose|j: int| is_first_newline(s, j)) == k,
{
    let c = choose|j: int| is_first_newline(s, j);
    if c < k {
        assert(s[c] != 10u8);
    } else if c > k {
        assert(s[k] != 10u8);
    }
}

impl LineReader {
    /// No line under way.
    pub open spec fn wf(&self) -> bool {
        no_newline(self.pending@)
    }

    /// A reader with nothing buffered.
    pub fn new() -> (r: LineReader)
        ensures
            r.wf(),
            r.pending@.len() == 0,
    {
        LineReader { pending: Vec::new() }
    }

    /// Take the bytes of one read: returns the responses of the lines they
    /// complete, in order, and keeps the unterminated rest for the next read.
    pub fn feed(&mut self, data: &[u8]) -> (r: Vec<Response>)
        requires
            old(self).wf(),
        ensures
            final(self).wf(),
            ({
                let (lines, rest) = split_lines(old(self).pending@ + data@);
                &&& r@.len() == lines.len()
                &&& forall|i: int| 0 <= i < r@.len() ==> (#[trigger] r@[i])@ == line_response(lines[i])
                &&& final(self).pending@ == rest
            }),
    {
        let ghost total = self.pending@ + data@;
        let mut buf = Vec::new();
        std::mem::swap(&mut buf, &mut self.pending);
        let mut j: usize = 0;
        while j < data.len()
            invariant
                j <= data@.len(),
                buf@ == old(self).pending@ + data@.subrange(0, j as int),
            decreases data@.len() - j,
        {
            buf.push(data[j]);
            assert(data@.subrange(0, j + 1) == data@.subrange(0, j as int).push(data@[j as int]));
            j = j + 1;
        }
        assert(data@.subrange(0, data@.len() as int) == data@);
        assert(buf@ == total);
        let mut out: Vec<Response> = Vec::new();
        let ghost mut found: Seq<Seq<u8>> = Seq::empty();
        let mut start: usize = 0;
        let blen = buf.len();
        assert(total.subrange(0, total.len() as int) == total);
        loop
            invariant
                buf@ == total,
                blen == total.len(),
                start <= total.len(),
                out@.len() == found.len(),
                forall|i: int| 0 <= i < out@.len() ==> (#[trigger] out@[i])@ == line_response(found[i]),
                split_lines(total).0 == found + split_lines(
                    total.subrange(start as int, total.len() as int),
                ).0,
                split_lines(total).1 == split_lines(
                    total.subrange(start as int, total.len() as int),
                ).1,
            ensures
                out@.len() == found.len(),
                forall|i: int| 0 <= i < out@.len() ==> (#[trigger] out@[i])@ == line_response(found[i]),
                found == split_lines(total).0,
                self.pending@ == split_lines(total).1,
                no_newline(self.pending@),
            decreases total.len() - start,
        {
            let ghost tail = total.subrange(start as int, total.len() as int);
            match find_newline(&buf, start) {
                Some(k) => {
                    proof {
                        lemma_first_newline_unique(tail, k - start);
                        assert(tail.subrange(k - start + 1, tail.len() as int) == total.subrange(
                            k + 1,
                            total.len() as int,
                        ));
                        assert(tail.subrange(0, k - start + 1) == total.subrange(
                            start as int,
                            k + 1,
                        ));
                    }
                    let line = crate::app::copy_range(&buf, start, k + 1);
                    let text = from_utf8_lossy(line.as_slice());
                    let resp = Response::parse(text.as_str());
                    out.push(resp);
                    proof {
                        let ghost old_found = found;
                        found = found.push(total.subrange(start as int, k + 1));
                        assert(found == old_found + seq![total.subrange(start as int, k + 1)]);
                        assert(split_lines(total).0 == old_found + (seq![
                            total.subrange(start as int, k + 1),
                        ] + split_lines(total.subrange(k + 1, total.len() as int)).0));
                        assert(split_lines(total).0 == found + split_lines(
                            total.subrange(k + 1, total.len() as int),
                        ).0);
                    }
                    start = k + 1;
                },
                None => {
                    proof {
                        assert forall|k: int| !is_first_newline(tail, k) by {
                            if 0 <= k < tail.len() {
                                assert(tail[k] != 10u8);
                            }
                        }
                        assert(split_lines(tail).0 == Seq::<Seq<u8>>::empty());
                        assert(found + Seq::<Seq<u8>>::empty() == found);
                    }
                    self.pending = crate::app::copy_range(&buf, start, blen);
                    break;
                },
            }
        }
        out
    }
}

/// Splitting `x ++ y` gives the lines of `x`, then the lines of what `x`
/// left over followed by `y`.
proof fn lemma_split_append(x: Seq<u8>, y: Seq<u8>)
    ensures
        split_lines(x + y).0 == split_lines(x).0 + split_lines(split_lines(x).1 + y).0,
        split_lines(x + y).1 == split_lines(split_lines(x).1 + y).1,
    decreases x.len(),
{
    if exists|k: int| is_first_newline(x, k) {
        let k = choose|k: int| is_first_newline(x, k);
        let xy = x + y;
        assert(is_first_newline(xy, k)) by {
            assert forall|j: int| 0 <= j < k implies xy[j] != 10u8 by {
                assert(xy[j] == x[j]);
            }
        }
        lemma_first_newline_unique(xy, k);
        let xr = x.subrange(k + 1, x.len() as int);
        assert(xy.subrange(k + 1, xy.len() as int) == xr + y);
        assert(xy.subrange(0, k + 1) == x.subrange(0, k + 1));
        lemma_split_append(xr, y);
        assert(split_lines(x).1 == split_lines(xr).1);
        assert(split_lines(x + y).0 == seq![x.subrange(0, k + 1)] + split_lines(xr + y).0);
        assert(split_lines(x).0 == seq![x.subrange(0, k + 1)] + split_lines(xr).0);
    } else {
        assert(split_lines(x).0 == Seq::<Seq<u8>>::empty());
        assert(split_lines(x).1 == x);
        assert(Seq::<Seq<u8>>::empty() + split_lines(x + y).0 == split_lines(x + y).0);
    }
}

/// Reading bytes in two pieces yields the same lines, in the same order, and
/// leaves the same unterminated rest, as reading them in one piece: a read
/// that ends mid-line loses nothing.
pub proof fn lemma_reads_compose(pending: Seq<u8>, a: Seq<u8>, b: Seq<u8>)
    ensures
        split_lines(pending + a + b).0 == split_lines(pending + a).0 + split_lines(
            split_lines(pending + a).1 + b,
        ).0,
        split_lines(pending + a + b).1 == split_lines(split_lines(pending + a).1 + b).1,
{
    lemma_split_append(pending + a, b);
}

} // verus!
