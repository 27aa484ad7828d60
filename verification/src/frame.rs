//! Newline-delimited framing of ACP JSON-RPC messages, in both directions.
//!
//! The native engine's output is split by [`LineDecoder`]; a peer's byte
//! stream is read one message at a time by [`FrameReader`]. Outgoing
//! messages are terminated by [`encode_frame`].
use vstd::prelude::*;
use crate::error::{invalid, Error, ErrorView, Result};

verus! {

/// The largest message body, in bytes, that either side accepts.
pub const MAX_FRAME: usize = 1048576;

/// The byte that ends every frame.
pub const NEWLINE: u8 = 10;

/// ASCII whitespace as Rust's `u8::is_ascii_whitespace` defines it.
pub open spec fn is_ascii_whitespace(b: u8) -> bool {
    b == 9 || b == 10 || b == 12 || b == 13 || b == 32
}

/// Every byte of `s` is ASCII whitespace.
pub open spec fn is_blank(s: Seq<u8>) -> bool {
    forall|i: int| 0 <= i < s.len() ==> is_ascii_whitespace(#[trigger] s[i])
}

/// `s` holds no newline byte.
pub open spec fn has_no_newline(s: Seq<u8>) -> bool {
    forall|i: int| 0 <= i < s.len() ==> #[trigger] s[i] != NEWLINE
}

/// The bytes written for one message body.
pub open spec fn framed(body: Seq<u8>) -> Seq<u8> {
    body.push(NEWLINE)
}

fn terminate(body: Vec<u8>, too_long: &str) -> (r: Result<Vec<u8>>)
    ensures
        body.len() > MAX_FRAME ==> (r matches Err(e) && e@ == ErrorView::Invalid(too_long@)),
        body.len() <= MAX_FRAME ==> (r matches Ok(b) && b@ == framed(body@)),
{
    if body.len() > MAX_FRAME {
        return Err(invalid(too_long));
    }
    let mut body = body;
    body.push(NEWLINE);
    Ok(body)
}

/// Terminates a serialized message for the native engine. A body over
/// [`MAX_FRAME`] bytes is refused.
pub fn encode_frame(body: Vec<u8>) -> (r: Result<Vec<u8>>)
    ensures
        body.len() > MAX_FRAME ==> (r matches Err(e) && e@ == ErrorView::Invalid(
            "ACP frame exceeds 1 MiB"@,
        )),
        body.len() <= MAX_FRAME ==> (r matches Ok(b) && b@ == framed(body@)),
{
    terminate(body, "ACP frame exceeds 1 MiB")
}

/// Terminates a serialized message for an attached peer. A body over
/// [`MAX_FRAME`] bytes is refused.
pub fn encode_output_frame(body: Vec<u8>) -> (r: Result<Vec<u8>>)
    ensures
        body.len() > MAX_FRAME ==> (r matches Err(e) && e@ == ErrorView::Invalid(
            "ACP output exceeds 1 MiB"@,
        )),
        body.len() <= MAX_FRAME ==> (r matches Ok(b) && b@ == framed(body@)),
{
    terminate(body, "ACP output exceeds 1 MiB")
}

/// What splitting a stretch of engine output yields: the complete non-empty
/// lines, the unfinished line after them, and whether a line grew past the
/// limit (which ends the stream).
pub struct Decoded {
    pub frames: Seq<Seq<u8>>,
    pub rest: Seq<u8>,
    pub overflow: bool,
}

/// Splits `input`, read after the unfinished line `pending`, into lines.
/// Empty lines are skipped; a line that would exceed [`MAX_FRAME`] bytes
/// stops the decoding.
pub open spec fn decode(pending: Seq<u8>, input: Seq<u8>) -> Decoded
    decreases input.len(),
{
    if input.len() == 0 {
        Decoded { frames: Seq::empty(), rest: pending, overflow: false }
    } else if input[0] == NEWLINE {
        if pending.len() == 0 {
            decode(pending, input.drop_first())
        } else {
            let d = decode(Seq::empty(), input.drop_first());
            Decoded { frames: seq![pending] + d.frames, rest: d.rest, overflow: d.overflow }
        }
    } else if pending.len() >= MAX_FRAME {
        Decoded { frames: Seq::empty(), rest: pending, overflow: true }
    } else {
        decode(pending.push(input[0]), input.drop_first())
    }
}

/// The contents of a list of byte buffers.
pub open spec fn bodies(frames: Seq<Vec<u8>>) -> Seq<Seq<u8>> {
    frames.map_values(|f: Vec<u8>| f@)
}

/// Splits the engine's output stream into message bodies.
pub struct LineDecoder {
    pending: Vec<u8>,
}

/// One chunk's worth of decoded lines.
pub struct Lines {
    pub frames: Vec<Vec<u8>>,
    pub overflow: bool,
}

impl LineDecoder {
    /// The unfinished line.
    pub closed spec fn pending(&self) -> Seq<u8> {
        self.pending@
    }

    /// The unfinished line is within the limit and holds no newline.
    pub closed spec fn wf(&self) -> bool {
        &&& self.pending@.len() <= MAX_FRAME
        &&& has_no_newline(self.pending@)
    }

    pub fn new() -> (d: LineDecoder)
        ensures
            d.wf(),
            d.pending() == Seq::<u8>::empty(),
    {
        LineDecoder { pending: Vec::new() }
    }

    /// Splits `chunk` into the lines it completes. After an overflow the
    /// stream must not be read further.
    pub fn feed(&mut self, chunk: &[u8]) -> (r: Lines)
        requires
            old(self).wf(),
        ensures
            final(self).wf(),
            bodies(r.frames@) == decode(old(self).pending(), chunk@).frames,
            r.overflow == decode(old(self).pending(), chunk@).overflow,
            !r.overflow ==> final(self).pending() == decode(old(self).pending(), chunk@).rest,
    {
        let ghost start = self.pending@;
        let mut frames: Vec<Vec<u8>> = Vec::new();
        let mut i: usize = 0;
        assert(chunk@.subrange(0, chunk@.len() as int) =~= chunk@);
        assert(bodies(frames@) + decode(start, chunk@).frames =~= decode(start, chunk@).frames);
        while i < chunk.len()
            invariant
                i <= chunk@.len(),
                self.wf(),
                start == old(self).pending(),
                ({
                    let d = decode(self.pending@, chunk@.subrange(i as int, chunk@.len() as int));
                    &&& decode(start, chunk@).frames == bodies(frames@) + d.frames
                    &&& decode(start, chunk@).rest == d.rest
                    &&& decode(start, chunk@).overflow == d.overflow
                }),
            decreases chunk@.len() - i,
        {
            let ghost before = self.pending@;
            let ghost tail = chunk@.subrange(i as int, chunk@.len() as int);
            assert(tail.drop_first() =~= chunk@.subrange(i + 1, chunk@.len() as int));
            let b = chunk[i];
            assert(tail[0] == b);
            if b == NEWLINE {
                if self.pending.len() > 0 {
                    let mut line: Vec<u8> = Vec::new();
                    std::mem::swap(&mut line, &mut self.pending);
                    let ghost old_frames = frames@;
                    frames.push(line);
                    proof {
                        assert(bodies(frames@) =~= bodies(old_frames).push(before));
                        let d = decode(Seq::<u8>::empty(), tail.drop_first());
                        assert(bodies(old_frames) + (seq![before] + d.frames) =~= bodies(old_frames).push(before) + d.frames);
                    }
                }
            } else {
                if self.pending.len() >= MAX_FRAME {
                    proof {
                        assert(tail.len() > 0);
                        assert(decode(before, tail).frames == Seq::<Seq<u8>>::empty());
                        assert(decode(before, tail).overflow);
                        assert(bodies(frames@) + Seq::<Seq<u8>>::empty() =~= bodies(frames@));
                    }
                    return Lines { frames, overflow: true };
                }
                self.pending.push(b);
                proof {
                    assert forall|k: int| 0 <= k < self.pending@.len() implies #[trigger] self.pending@[k] != NEWLINE by {
                        if k < before.len() {
                            assert(self.pending@[k] == before[k]);
                        }
                    }
                }
            }
            i = i + 1;
        }
        proof {
            assert(chunk@.subrange(i as int, chunk@.len() as int) =~= Seq::<u8>::empty());
            assert(bodies(frames@) + Seq::<Seq<u8>>::empty() =~= bodies(frames@));
        }
        Lines { frames, overflow: false }
    }
}

/// A decoder state: the unfinished line is within the limit and holds no
/// newline.
pub open spec fn pending_ok(p: Seq<u8>) -> bool {
    p.len() <= MAX_FRAME && has_no_newline(p)
}

/// Reading a stretch that completes no line only extends the unfinished line.
proof fn lemma_decode_no_newline(p: Seq<u8>, s: Seq<u8>)
    requires
        has_no_newline(s),
        p.len() + s.len() <= MAX_FRAME,
    ensures
        decode(p, s) == (Decoded { frames: Seq::empty(), rest: p + s, overflow: false }),
    decreases s.len(),
{
    if s.len() == 0 {
        assert(p + s =~= p);
    } else {
        assert(s[0] != NEWLINE);
        let t = s.drop_first();
        assert forall|i: int| 0 <= i < t.len() implies #[trigger] t[i] != NEWLINE by {
            assert(t[i] == s[i + 1]);
        }
        lemma_decode_no_newline(p.push(s[0]), t);
        assert(p.push(s[0]) + t =~= p + s);
    }
}

/// Decoding a stream in two pieces gives what decoding it at once gives:
/// the lines of the first piece, then those of the second read after the
/// first piece's unfinished line. An overflow in the first piece ends it.
pub proof fn lemma_decode_chunks(p: Seq<u8>, a: Seq<u8>, b: Seq<u8>)
    ensures
        !decode(p, a).overflow ==> decode(p, a + b) == (Decoded {
            frames: decode(p, a).frames + decode(decode(p, a).rest, b).frames,
            rest: decode(decode(p, a).rest, b).rest,
            overflow: decode(decode(p, a).rest, b).overflow,
        }),
        decode(p, a).overflow ==> decode(p, a + b) == decode(p, a),
    decreases a.len(),
{
    if a.len() == 0 {
        assert(a + b =~= b);
        assert(Seq::<Seq<u8>>::empty() + decode(p, b).frames =~= decode(p, b).frames);
    } else {
        let ab = a + b;
        assert(ab[0] == a[0]);
        assert(ab.drop_first() =~= a.drop_first() + b);
        if a[0] == NEWLINE {
            if p.len() == 0 {
                lemma_decode_chunks(p, a.drop_first(), b);
            } else {
                lemma_decode_chunks(Seq::empty(), a.drop_first(), b);
                let d = decode(Seq::<u8>::empty(), a.drop_first());
                if !d.overflow {
                    assert(seq![p] + (d.frames + decode(d.rest, b).frames) =~= (seq![p] + d.frames)
                        + decode(d.rest, b).frames);
                }
            }
        } else if p.len() >= MAX_FRAME {
        } else {
            lemma_decode_chunks(p.push(a[0]), a.drop_first(), b);
        }
    }
}

/// Every decoded line is non-empty, holds no newline and is within the
/// limit; so is the unfinished line left over.
pub proof fn lemma_decode_lines_well_formed(p: Seq<u8>, s: Seq<u8>)
    requires
        pending_ok(p),
    ensures
        forall|k: int| 0 <= k < decode(p, s).frames.len() ==> {
            let f = #[trigger] decode(p, s).frames[k];
            &&& f.len() > 0
            &&& f.len() <= MAX_FRAME
            &&& has_no_newline(f)
        },
        pending_ok(decode(p, s).rest),
    decreases s.len(),
{
    if s.len() == 0 {
    } else if s[0] == NEWLINE {
        if p.len() == 0 {
            lemma_decode_lines_well_formed(p, s.drop_first());
        } else {
            lemma_decode_lines_well_formed(Seq::empty(), s.drop_first());
            let d = decode(Seq::<u8>::empty(), s.drop_first());
            assert forall|k: int| 0 <= k < decode(p, s).frames.len() implies {
                let f = #[trigger] decode(p, s).frames[k];
                &&& f.len() > 0
                &&& f.len() <= MAX_FRAME
                &&& has_no_newline(f)
            } by {
                if k > 0 {
                    assert(decode(p, s).frames[k] == d.frames[k - 1]);
                }
            }
        }
    } else if p.len() >= MAX_FRAME {
    } else {
        let q = p.push(s[0]);
        assert forall|i: int| 0 <= i < q.len() implies #[trigger] q[i] != NEWLINE by {
            if i < p.len() {
                assert(q[i] == p[i]);
            }
        }
        lemma_decode_lines_well_formed(q, s.drop_first());
    }
}

/// What the engine side writes for a message body is read back as exactly
/// that body: a non-empty body within the limit and without newlines,
/// framed, decodes to itself and nothing else.
pub proof fn lemma_frame_round_trip(body: Seq<u8>)
    requires
        body.len() > 0,
        body.len() <= MAX_FRAME,
        has_no_newline(body),
    ensures
        decode(Seq::empty(), framed(body)) == (Decoded {
            frames: seq![body],
            rest: Seq::empty(),
            overflow: false,
        }),
{
    lemma_decode_no_newline(Seq::empty(), body);
    assert(Seq::<u8>::empty() + body =~= body);
    let nl = seq![NEWLINE];
    lemma_decode_chunks(Seq::empty(), body, nl);
    assert(body + nl =~= framed(body));
    assert(nl.drop_first() =~= Seq::<u8>::empty());
    let e = decode(Seq::<u8>::empty(), nl.drop_first());
    assert(e == (Decoded { frames: Seq::empty(), rest: Seq::empty(), overflow: false }));
    assert(nl[0] == NEWLINE);
    assert(decode(body, nl) == (Decoded { frames: seq![body] + e.frames, rest: e.rest, overflow: e.overflow }));
    assert(seq![body] + e.frames =~= seq![body]);
    assert(Seq::<Seq<u8>>::empty() + seq![body] =~= seq![body]);
}

/// The index of the first newline in `s`, if any.
pub open spec fn first_newline(s: Seq<u8>) -> Option<int> {
    if exists|k: int| 0 <= k < s.len() && s[k] == NEWLINE {
        Some(choose|k: int| 0 <= k < s.len() && s[k] == NEWLINE && (forall|j: int| 0 <= j < k ==> s[j] != NEWLINE))
    } else {
        None
    }
}

proof fn lemma_first_newline_at(s: Seq<u8>, k: int)
    requires
        0 <= k < s.len(),
        s[k] == NEWLINE,
        forall|j: int| 0 <= j < k ==> #[trigger] s[j] != NEWLINE,
    ensures
        first_newline(s) == Some(k),
{
    assert(exists|q: int| 0 <= q < s.len() && s[q] == NEWLINE);
    let c = choose|q: int| 0 <= q < s.len() && s[q] == NEWLINE && (forall|j: int| 0 <= j < q ==> s[j] != NEWLINE);
    if c < k {
        assert(s[c] != NEWLINE);
    } else if c > k {
        assert(s[k] != NEWLINE);
    }
}

proof fn lemma_first_newline_none(s: Seq<u8>)
    requires
        has_no_newline(s),
    ensures
        first_newline(s) is None,
{
}

/// How many bytes of `available` belong to the current message: up to and
/// including the first newline, or all of them.
pub open spec fn take_count(available: Seq<u8>) -> nat {
    match first_newline(available) {
        Some(k) => (k + 1) as nat,
        None => available.len(),
    }
}

/// One step of reading a peer's stream.
pub enum ReadStep {
    /// The bytes were taken; the message continues (or a blank line was skipped).
    Continue { consumed: nat, data: Seq<u8> },
    /// A complete message, with its newline.
    Frame { consumed: nat, body: Seq<u8> },
    /// The stream ended between messages.
    End,
    /// The stream ended inside a message.
    Truncated,
    /// The message would exceed the limit.
    TooLong,
}

/// Reading the buffered bytes `available` after the partial message `data`:
/// an empty buffer is the end of the stream; otherwise the bytes up to the
/// first newline are taken, a blank line is dropped, and a message longer
/// than [`MAX_FRAME`] bytes plus its newline is refused.
pub open spec fn read_step(data: Seq<u8>, available: Seq<u8>) -> ReadStep {
    if available.len() == 0 {
        if data.len() == 0 { ReadStep::End } else { ReadStep::Truncated }
    } else {
        let count = take_count(available);
        if data.len() + count > MAX_FRAME + 1 {
            ReadStep::TooLong
        } else {
            let next = data + available.subrange(0, count as int);
            if first_newline(available) is None {
                ReadStep::Continue { consumed: count, data: next }
            } else if is_blank(next) {
                ReadStep::Continue { consumed: count, data: Seq::empty() }
            } else {
                ReadStep::Frame { consumed: count, body: next }
            }
        }
    }
}

/// The outcome of offering buffered bytes to a [`FrameReader`].
pub enum FrameStep {
    /// Consume this many bytes and offer the next buffer.
    Continue(usize),
    /// Consume this many bytes; a complete message (with its newline) was read.
    Frame(usize, Vec<u8>),
    /// The stream ended cleanly.
    End,
    /// The stream cannot be read further.
    Failed(Error),
}

/// Reads one newline-terminated message at a time from a peer's stream,
/// holding the bytes of the message read so far.
pub struct FrameReader {
    data: Vec<u8>,
}

impl FrameReader {
    /// The part of the current message read so far.
    pub closed spec fn data(&self) -> Seq<u8> {
        self.data@
    }

    pub closed spec fn wf(&self) -> bool {
        &&& self.data@.len() <= MAX_FRAME + 1
        &&& has_no_newline(self.data@)
    }

    pub fn new() -> (r: FrameReader)
        ensures
            r.wf(),
            r.data() == Seq::<u8>::empty(),
    {
        FrameReader { data: Vec::new() }
    }

    /// Offers the reader's currently buffered bytes (empty at the end of the
    /// stream).
    pub fn step(&mut self, available: &[u8]) -> (r: FrameStep)
        requires
            old(self).wf(),
        ensures
            final(self).wf(),
            match read_step(old(self).data(), available@) {
                ReadStep::Continue { consumed, data } => r matches FrameStep::Continue(n) && n
                    == consumed && final(self).data() == data,
                ReadStep::Frame { consumed, body } => r matches FrameStep::Frame(n, b) && n
                    == consumed && b@ == body && final(self).data() == Seq::<u8>::empty(),
                ReadStep::End => r is End,
                ReadStep::Truncated => r matches FrameStep::Failed(e) && e@ == ErrorView::Invalid(
                    "truncated ACP frame"@,
                ),
                ReadStep::TooLong => r matches FrameStep::Failed(e) && e@ == ErrorView::Invalid(
                    "ACP frame exceeds 1 MiB"@,
                ),
            },
            r matches FrameStep::Frame(n, b) ==> 0 < n <= available@.len() && available@[n - 1] == NEWLINE
                && (forall|j: int| 0 <= j < n - 1 ==> #[trigger] available@[j] != NEWLINE)
                && b@ == old(self).data() + available@.subrange(0, n as int),
    {
        proof {
            lemma_step_stops_at_first_newline(self.data@, available@);
        }
        if available.len() == 0 {
            if self.data.len() == 0 {
                return FrameStep::End;
            }
            return FrameStep::Failed(invalid("truncated ACP frame"));
        }
        let mut k: usize = 0;
        while k < available.len() && available[k] != NEWLINE
            invariant
                k <= available@.len(),
                forall|j: int| 0 <= j < k ==> available@[j] != NEWLINE,
            decreases available@.len() - k,
        {
            k = k + 1;
        }
        let found = k < available.len();
        let count: usize = if found { k + 1 } else { k };
        proof {
            if found {
                lemma_first_newline_at(available@, k as int);
            } else {
                lemma_first_newline_none(available@);
            }
        }
        if count > MAX_FRAME + 1 || self.data.len() > MAX_FRAME + 1 - count {
            return FrameStep::Failed(invalid("ACP frame exceeds 1 MiB"));
        }
        let ghost before = self.data@;
        let mut j: usize = 0;
        let limit = if found { k } else { count };
        while j < limit
            invariant
                j <= limit,
                limit <= count,
                count <= available@.len(),
                limit == k,
                forall|q: int| 0 <= q < k ==> available@[q] != NEWLINE,
                self.data@ == before + available@.subrange(0, j as int),
                before.len() + count <= MAX_FRAME + 1,
                has_no_newline(before),
            decreases limit - j,
        {
            self.data.push(available[j]);
            proof {
                assert(available@.subrange(0, j + 1) =~= available@.subrange(0, j as int).push(available@[j as int]));
            }
            j = j + 1;
        }
        if !found {
            proof {
                assert(self.data@ =~= before + available@.subrange(0, count as int));
                assert forall|q: int| 0 <= q < self.data@.len() implies #[trigger] self.data@[q] != NEWLINE by {
                    if q < before.len() {
                        assert(self.data@[q] == before[q]);
                    } else {
                        assert(self.data@[q] == available@[q - before.len()]);
                    }
                }
            }
            return FrameStep::Continue(count);
        }
        self.data.push(NEWLINE);
        proof {
            assert(available@.subrange(0, count as int) =~= available@.subrange(0, k as int).push(NEWLINE));
            assert(self.data@ =~= before + available@.subrange(0, count as int));
        }
        let mut blank = true;
        let mut q: usize = 0;
        while q < self.data.len()
            invariant
                q <= self.data@.len(),
                blank == (forall|t: int| 0 <= t < q ==> is_ascii_whitespace(self.data@[t])),
            decreases self.data@.len() - q,
        {
            let b = self.data[q];
            if !(b == 9 || b == 10 || b == 12 || b == 13 || b == 32) {
                blank = false;
            }
            q = q + 1;
        }
        let mut body: Vec<u8> = Vec::new();
        std::mem::swap(&mut body, &mut self.data);
        if blank {
            FrameStep::Continue(count)
        } else {
            FrameStep::Frame(count, body)
        }
    }
}

/// What is written for a message body is read back by a peer's reader as
/// that body with its newline, in one step: a non-blank body within the
/// limit and without newlines, framed, is one complete message.
pub proof fn lemma_peer_frame_round_trip(body: Seq<u8>)
    requires
        body.len() <= MAX_FRAME,
        has_no_newline(body),
        !is_blank(body),
    ensures
        read_step(Seq::empty(), framed(body)) == (ReadStep::Frame {
            consumed: body.len() + 1,
            body: framed(body),
        }),
{
    let f = framed(body);
    assert(f[body.len() as int] == NEWLINE);
    assert forall|j: int| 0 <= j < body.len() implies #[trigger] f[j] != NEWLINE by {
        assert(f[j] == body[j]);
    }
    lemma_first_newline_at(f, body.len() as int);
    assert(f.subrange(0, f.len() as int) =~= f);
    assert(Seq::<u8>::empty() + f =~= f);
    assert(!is_blank(f)) by {
        let w = choose|i: int| 0 <= i < body.len() && !is_ascii_whitespace(#[trigger] body[i]);
        assert(f[w] == body[w]);
    }
}

/// A message may reach a peer's reader in two pieces: the first piece is
/// held, and the second completes the same message.
pub proof fn lemma_peer_frame_in_pieces(body: Seq<u8>, k: int)
    requires
        body.len() <= MAX_FRAME,
        has_no_newline(body),
        !is_blank(body),
        0 < k <= body.len(),
    ensures
        read_step(Seq::empty(), body.subrange(0, k)) == (ReadStep::Continue {
            consumed: k as nat,
            data: body.subrange(0, k),
        }),
        read_step(body.subrange(0, k), body.subrange(k, body.len() as int).push(NEWLINE)) == (ReadStep::Frame {
            consumed: (body.len() - k + 1) as nat,
            body: framed(body),
        }),
{
    let a = body.subrange(0, k);
    assert forall|i: int| 0 <= i < a.len() implies #[trigger] a[i] != NEWLINE by {
        assert(a[i] == body[i]);
    }
    lemma_first_newline_none(a);
    assert(a.subrange(0, a.len() as int) =~= a);
    assert(Seq::<u8>::empty() + a =~= a);
    let b = body.subrange(k, body.len() as int).push(NEWLINE);
    let m = body.len() - k;
    assert forall|j: int| 0 <= j < m implies #[trigger] b[j] != NEWLINE by {
        assert(b[j] == body[k + j]);
    }
    assert(b[m] == NEWLINE);
    lemma_first_newline_at(b, m);
    assert(b.subrange(0, m + 1) =~= b);
    assert(a + b =~= framed(body));
    let f = framed(body);
    assert(!is_blank(f)) by {
        let w = choose|i: int| 0 <= i < body.len() && !is_ascii_whitespace(#[trigger] body[i]);
        assert(f[w] == body[w]);
    }
}

/// The first newline of a byte string that holds one.
proof fn lemma_first_newline_exists(s: Seq<u8>, k: int)
    requires
        0 <= k < s.len(),
        s[k] == NEWLINE,
    ensures
        first_newline(s) matches Some(f) && 0 <= f <= k && s[f] == NEWLINE
            && forall|j: int| 0 <= j < f ==> #[trigger] s[j] != NEWLINE,
    decreases k,
{
    if exists|j: int| 0 <= j < k && s[j] == NEWLINE {
        let j = choose|j: int| 0 <= j < k && s[j] == NEWLINE;
        lemma_first_newline_exists(s, j);
    } else {
        lemma_first_newline_at(s, k);
    }
}

/// One step of a peer's reader never reads past the first newline of the
/// offered bytes, whatever part of a message it already holds: a step that
/// completes a message consumes exactly the bytes up to and including that
/// newline, and the message is what was held followed by those bytes; a step
/// that leaves the message open consumes every offered byte, none of which
/// is a newline; a skipped blank line also ends at the first newline. Only an
/// empty offer ends or truncates the stream.
pub proof fn lemma_step_stops_at_first_newline(data: Seq<u8>, available: Seq<u8>)
    ensures
        match read_step(data, available) {
            ReadStep::Frame { consumed, body } => {
                &&& 0 < consumed <= available.len()
                &&& available[consumed - 1] == NEWLINE
                &&& forall|j: int| 0 <= j < consumed - 1 ==> #[trigger] available[j] != NEWLINE
                &&& body == data + available.subrange(0, consumed as int)
            },
            ReadStep::Continue { consumed, data: held } => {
                &&& 0 < consumed <= available.len()
                &&& forall|j: int| 0 <= j < consumed - 1 ==> #[trigger] available[j] != NEWLINE
                &&& if available[consumed - 1] == NEWLINE {
                    held == Seq::<u8>::empty()
                } else {
                    consumed == available.len() && held == data + available
                }
            },
            ReadStep::End => available.len() == 0 && data.len() == 0,
            ReadStep::Truncated => available.len() == 0 && data.len() > 0,
            ReadStep::TooLong => available.len() > 0,
        },
{
    if available.len() > 0 {
        if exists|k: int| 0 <= k < available.len() && available[k] == NEWLINE {
            let k = choose|k: int| 0 <= k < available.len() && available[k] == NEWLINE;
            lemma_first_newline_exists(available, k);
        } else {
            assert(available.subrange(0, available.len() as int) =~= available);
        }
    }
}

/// A message that reaches a peer's reader in two parts, the second part
/// followed at once by another framed message in the same buffer: the step
/// that completes the first message consumes only its rest and newline, and
/// the next step, offered what is left, reads the second message whole.
pub proof fn lemma_message_then_next(held: Seq<u8>, rest: Seq<u8>, next: Seq<u8>)
    requires
        held.len() + rest.len() <= MAX_FRAME,
        has_no_newline(held + rest),
        !is_blank(held + rest),
        next.len() <= MAX_FRAME,
        has_no_newline(next),
        !is_blank(next),
    ensures
        read_step(held, rest.push(NEWLINE) + framed(next)) == (ReadStep::Frame {
            consumed: rest.len() + 1,
            body: framed(held + rest),
        }),
        (rest.push(NEWLINE) + framed(next)).subrange(rest.len() + 1int, rest.len() + next.len() + 2int)
            == framed(next),
        read_step(Seq::empty(), framed(next)) == (ReadStep::Frame {
            consumed: next.len() + 1,
            body: framed(next),
        }),
{
    let a = rest.push(NEWLINE) + framed(next);
    let m = rest.len() as int;
    assert forall|j: int| 0 <= j < m implies #[trigger] a[j] != NEWLINE by {
        assert(a[j] == rest[j]);
        assert((held + rest)[held.len() + j] == rest[j]);
    }
    assert(a[m] == NEWLINE);
    lemma_first_newline_at(a, m);
    assert(a.subrange(0, m + 1) =~= rest.push(NEWLINE));
    assert(held + rest.push(NEWLINE) =~= framed(held + rest));
    let f = framed(held + rest);
    assert(!is_blank(f)) by {
        let w = choose|i: int| 0 <= i < (held + rest).len() && !is_ascii_whitespace(#[trigger] (held + rest)[i]);
        assert(f[w] == (held + rest)[w]);
    }
    assert(a.subrange(m + 1, m + next.len() + 2) =~= framed(next));
    lemma_peer_frame_round_trip(next);
}

} // verus!
