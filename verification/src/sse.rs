//! Server-sent events: reading a byte stream into events and writing events as
//! frames.
use crate::bytes;
use vstd::prelude::*;

pub mod laws;

verus! {

/// What a reader holds between two bytes: the line begun so far and the data
/// lines of the event begun so far.
pub struct ReaderView {
    pub line: Seq<u8>,
    pub data: Seq<Seq<u8>>,
}

/// A line without one trailing carriage return.
pub open spec fn bare(line: Seq<u8>) -> Seq<u8> {
    if line.len() > 0 && line.last() == 13 {
        line.drop_last()
    } else {
        line
    }
}

/// A line that closes an event: nothing but white space.
pub open spec fn is_boundary(line: Seq<u8>) -> bool {
    bytes::trimmed(bare(line)).len() == 0
}

/// The field name `data:`.
pub open spec fn data_field() -> Seq<u8> {
    seq![100u8, 97u8, 116u8, 97u8, 58u8]
}

/// What a `data:` line carries, without one optional space after the colon.
/// Comments and other fields carry nothing.
pub open spec fn line_data(line: Seq<u8>) -> Seq<Seq<u8>> {
    let l = bare(line);
    if !is_boundary(line) && l.len() >= 5 && l.take(5) == data_field() {
        if l.len() > 5 && l[5] == 32 {
            seq![l.skip(6)]
        } else {
            seq![l.skip(5)]
        }
    } else {
        Seq::empty()
    }
}

/// The event that data lines make: the lines joined by newlines, none where
/// there is no line.
pub open spec fn pending_event(data: Seq<Seq<u8>>) -> Seq<Seq<u8>> {
    if data.len() == 0 {
        Seq::empty()
    } else {
        seq![bytes::joined(data)]
    }
}

/// The reader after one more byte.
pub open spec fn read_byte(s: ReaderView, b: u8) -> ReaderView {
    if b != 10 {
        ReaderView { line: s.line.push(b), data: s.data }
    } else if is_boundary(s.line) {
        ReaderView { line: Seq::empty(), data: Seq::empty() }
    } else {
        ReaderView { line: Seq::empty(), data: s.data + line_data(s.line) }
    }
}

/// The event that one more byte closes.
pub open spec fn byte_event(s: ReaderView, b: u8) -> Seq<Seq<u8>> {
    if b == 10 && is_boundary(s.line) {
        pending_event(s.data)
    } else {
        Seq::empty()
    }
}

/// The reader after more bytes.
pub open spec fn read_all(s: ReaderView, input: Seq<u8>) -> ReaderView
    decreases input.len(),
{
    if input.len() == 0 {
        s
    } else {
        read_byte(read_all(s, input.drop_last()), input.last())
    }
}

/// The events that more bytes close, in order.
pub open spec fn read_events(s: ReaderView, input: Seq<u8>) -> Seq<Seq<u8>>
    decreases input.len(),
{
    if input.len() == 0 {
        Seq::empty()
    } else {
        read_events(s, input.drop_last()) + byte_event(
            read_all(s, input.drop_last()),
            input.last(),
        )
    }
}

/// The event that the end of the input closes: a last line without newline
/// counts as a line.
pub open spec fn last_event(s: ReaderView) -> Seq<Seq<u8>> {
    pending_event(s.data + line_data(s.line))
}

/// A reader that has read nothing.
pub open spec fn fresh() -> ReaderView {
    ReaderView { line: Seq::empty(), data: Seq::empty() }
}

/// All events of a whole input.
pub open spec fn stream_events(input: Seq<u8>) -> Seq<Seq<u8>> {
    read_events(fresh(), input) + last_event(read_all(fresh(), input))
}

/// Incremental reader of server-sent events.
///
/// It gathers `data:` lines until a blank line closes the event, and yields
/// the lines joined by newlines. A line that is begun and an event that is
/// begun stay in the reader between two calls, so the input may be handed over
/// in any pieces.
#[derive(Debug)]
pub struct SseEventReader {
    pub line: Vec<u8>,
    pub data_lines: Vec<Vec<u8>>,
}

impl SseEventReader {
    /// What the reader holds.
    pub open spec fn view(&self) -> ReaderView {
        ReaderView { line: self.line@, data: bytes::views(self.data_lines@) }
    }

    /// A reader that has read nothing.
    pub fn new() -> (r: Self)
        ensures
            r@ == fresh(),
    {
        let r = SseEventReader { line: Vec::new(), data_lines: Vec::new() };
        proof {
            assert(bytes::views(r.data_lines@) =~= Seq::<Seq<u8>>::empty());
        }
        r
    }

    /// Takes the line begun so far.
    pub fn take_line(&mut self) -> (r: Vec<u8>)
        ensures
            r@ == old(self)@.line,
            final(self)@ == (ReaderView { line: Seq::empty(), data: old(self)@.data }),
    {
        let mut line: Vec<u8> = Vec::new();
        std::mem::swap(&mut line, &mut self.line);
        line
    }

    /// Processes one line without its newline and tells whether it closes the
    /// event.
    pub fn process_line(&mut self, line: &[u8]) -> (r: bool)
        ensures
            r == is_boundary(line@),
            final(self)@ == (ReaderView {
                line: old(self)@.line,
                data: old(self)@.data + line_data(line@),
            }),
    {
        let ghost before = self@.data;
        proof {
            assert(before + Seq::<Seq<u8>>::empty() =~= before);
        }
        let mut n: usize = line.len();
        if n > 0 && line[n - 1] == 13 {
            n -= 1;
        }
        let l: Vec<u8> = bytes::copy_range(line, 0, n);
        proof {
            assert(l@ =~= bare(line@));
        }
        let trimmed: Vec<u8> = bytes::trim_ascii(l.as_slice());
        if trimmed.len() == 0 {
            return true;
        }
        if n >= 5 && l[0] == 100 && l[1] == 97 && l[2] == 116 && l[3] == 97 && l[4] == 58 {
            proof {
                assert(l@.take(5) =~= data_field());
            }
            let from: usize = if n > 5 && l[5] == 32 {
                6
            } else {
                5
            };
            let payload: Vec<u8> = bytes::copy_range(l.as_slice(), from, n);
            proof {
                assert(payload@ =~= l@.skip(from as int));
            }
            self.data_lines.push(payload);
            proof {
                assert(self@.data =~= before.push(payload@));
                assert(self@.data =~= before + line_data(line@));
            }
        } else {
            proof {
                if l@.len() >= 5 && l@.take(5) == data_field() {
                    assert(l@.take(5)[0] == l@[0]);
                    assert(l@.take(5)[1] == l@[1]);
                    assert(l@.take(5)[2] == l@[2]);
                    assert(l@.take(5)[3] == l@[3]);
                    assert(l@.take(5)[4] == l@[4]);
                }
            }
        }
        false
    }

    /// Takes the event begun so far.
    pub fn take_pending_event(&mut self) -> (r: Option<Vec<u8>>)
        ensures
            match r {
                Some(e) => pending_event(old(self)@.data) == seq![e@],
                None => pending_event(old(self)@.data) == Seq::<Seq<u8>>::empty(),
            },
            final(self)@ == (ReaderView { line: old(self)@.line, data: Seq::empty() }),
    {
        let mut lines: Vec<Vec<u8>> = Vec::new();
        std::mem::swap(&mut lines, &mut self.data_lines);
        proof {
            assert(self@.data =~= Seq::<Seq<u8>>::empty());
            assert(bytes::views(lines@).len() == lines@.len());
        }
        if lines.len() == 0 {
            None
        } else {
            Some(bytes::join(&lines))
        }
    }

    /// Reads more input and gives the events that it closes.
    pub fn feed(&mut self, input: &[u8]) -> (r: Vec<Vec<u8>>)
        ensures
            final(self)@ == read_all(old(self)@, input@),
            bytes::views(r@) == read_events(old(self)@, input@),
    {
        let ghost start = self@;
        let mut out: Vec<Vec<u8>> = Vec::new();
        let mut i: usize = 0;
        proof {
            assert(bytes::views(out@) =~= read_events(start, input@.take(0)));
        }
        while i < input.len()
            invariant
                i <= input@.len(),
                self@ == read_all(start, input@.take(i as int)),
                bytes::views(out@) == read_events(start, input@.take(i as int)),
            decreases input@.len() - i,
        {
            let ghost s = self@;
            let ghost before = bytes::views(out@);
            let b: u8 = input[i];
            proof {
                assert(input@.take(i + 1).drop_last() =~= input@.take(i as int));
                assert(input@.take(i + 1).last() == b);
                assert(before + Seq::<Seq<u8>>::empty() =~= before);
            }
            if b == 10 {
                let line: Vec<u8> = self.take_line();
                if self.process_line(line.as_slice()) {
                    proof {
                        assert(line_data(s.line) =~= Seq::<Seq<u8>>::empty());
                        assert(self@.data =~= s.data);
                    }
                    match self.take_pending_event() {
                        Some(e) => {
                            out.push(e);
                            proof {
                                assert(bytes::views(out@) =~= before + seq![e@]);
                            }
                        },
                        None => {},
                    }
                }
            } else {
                self.line.push(b);
            }
            i += 1;
        }
        proof {
            assert(input@.take(i as int) =~= input@);
        }
        out
    }

    /// Ends the input and gives the event that this closes.
    pub fn finish(&mut self) -> (r: Option<Vec<u8>>)
        ensures
            final(self)@ == fresh(),
            match r {
                Some(e) => last_event(old(self)@) == seq![e@],
                None => last_event(old(self)@) == Seq::<Seq<u8>>::empty(),
            },
    {
        let line: Vec<u8> = self.take_line();
        let _boundary: bool = self.process_line(line.as_slice());
        self.take_pending_event()
    }
}

/// The line start `data: ` of a frame.
pub open spec fn frame_start() -> Seq<u8> {
    seq![100u8, 97u8, 116u8, 97u8, 58u8, 32u8]
}

/// A payload with the line start repeated after every newline.
pub open spec fn spread(payload: Seq<u8>) -> Seq<u8>
    decreases payload.len(),
{
    if payload.len() == 0 {
        Seq::empty()
    } else if payload.last() == 10 {
        spread(payload.drop_last()).push(10) + frame_start()
    } else {
        spread(payload.drop_last()).push(payload.last())
    }
}

/// The frame of one event: a `data:` line for each line of the payload, then a
/// blank line.
pub open spec fn data_frame(payload: Seq<u8>) -> Seq<u8> {
    frame_start() + spread(payload) + seq![10u8, 10u8]
}

/// The frames of several events.
pub open spec fn data_frames(payloads: Seq<Seq<u8>>) -> Seq<u8>
    decreases payloads.len(),
{
    if payloads.len() == 0 {
        Seq::empty()
    } else {
        data_frames(payloads.drop_last()) + data_frame(payloads.last())
    }
}

/// Appends the line start of a frame.
fn push_frame_start(out: &mut Vec<u8>)
    ensures
        final(out)@ == old(out)@ + frame_start(),
{
    let ghost before = out@;
    out.push(100);
    out.push(97);
    out.push(116);
    out.push(97);
    out.push(58);
    out.push(32);
    proof {
        assert(out@ =~= before + frame_start());
    }
}

/// Appends the frame of one event.
pub fn push_data_frame(out: &mut Vec<u8>, payload: &[u8])
    ensures
        final(out)@ == old(out)@ + data_frame(payload@),
{
    let ghost start = out@;
    push_frame_start(out);
    let mut i: usize = 0;
    proof {
        assert(start + frame_start() =~= start + frame_start() + spread(payload@.take(0)));
    }
    while i < payload.len()
        invariant
            i <= payload@.len(),
            out@ == start + frame_start() + spread(payload@.take(i as int)),
        decreases payload@.len() - i,
    {
        let b: u8 = payload[i];
        proof {
            assert(payload@.take(i + 1).drop_last() =~= payload@.take(i as int));
            assert(payload@.take(i + 1).last() == b);
        }
        out.push(b);
        if b == 10 {
            push_frame_start(out);
        }
        i += 1;
        proof {
            assert(out@ =~= start + frame_start() + spread(payload@.take(i as int)));
        }
    }
    out.push(10);
    out.push(10);
    proof {
        assert(payload@.take(i as int) =~= payload@);
        assert(out@ =~= start + data_frame(payload@));
    }
}

/// Reading in two pieces ends where reading in one does.
pub proof fn law_reading_in_pieces(s: ReaderView, a: Seq<u8>, b: Seq<u8>)
    ensures
        read_all(s, a + b) == read_all(read_all(s, a), b),
        read_events(s, a + b) == read_events(s, a) + read_events(read_all(s, a), b),
    decreases b.len(),
{
    if b.len() == 0 {
        assert(a + b =~= a);
        assert(read_events(s, a) + Seq::<Seq<u8>>::empty() =~= read_events(s, a));
    } else {
        assert((a + b).drop_last() =~= a + b.drop_last());
        assert((a + b).last() == b.last());
        law_reading_in_pieces(s, a, b.drop_last());
        let e = byte_event(read_all(read_all(s, a), b.drop_last()), b.last());
        assert(read_events(s, a) + read_events(read_all(s, a), b.drop_last()) + e =~= read_events(
            s,
            a,
        ) + (read_events(read_all(s, a), b.drop_last()) + e));
    }
}

/// The complete lines of a payload.
spec fn full_lines(p: Seq<u8>) -> Seq<Seq<u8>>
    decreases p.len(),
{
    if p.len() == 0 {
        Seq::empty()
    } else if p.last() == 10 {
        full_lines(p.drop_last()).push(last_line(p.drop_last()))
    } else {
        full_lines(p.drop_last())
    }
}

/// The line at the end of a payload.
spec fn last_line(p: Seq<u8>) -> Seq<u8>
    decreases p.len(),
{
    if p.len() == 0 || p.last() == 10 {
        Seq::empty()
    } else {
        last_line(p.drop_last()).push(p.last())
    }
}

/// The lines of a payload joined give the payload.
proof fn lemma_lines_joined(p: Seq<u8>)
    ensures
        bytes::joined(full_lines(p).push(last_line(p))) == p,
    decreases p.len(),
{
    let d = full_lines(p);
    let l = last_line(p);
    if p.len() == 0 {
        assert(d.push(l).len() == 1);
        assert(p =~= l);
    } else {
        let q = p.drop_last();
        let dq = full_lines(q);
        let lq = last_line(q);
        lemma_lines_joined(q);
        assert(q.push(p.last()) =~= p);
        if p.last() == 10 {
            assert(d.push(l).drop_last() =~= dq.push(lq));
            assert(bytes::joined(d.push(l)) == bytes::joined(dq.push(lq)).push(10) + l);
            assert(q.push(10) + l =~= p);
        } else {
            assert(d.push(l).drop_last() =~= dq);
            assert(dq.push(lq).drop_last() =~= dq);
            if dq.len() == 0 {
                assert(lq =~= q);
            } else {
                assert(bytes::joined(dq).push(10) + lq == q);
                assert(bytes::joined(dq).push(10) + lq.push(p.last()) =~= (bytes::joined(dq).push(
                    10,
                ) + lq).push(p.last()));
            }
        }
    }
}

/// No line of the payload ends in a carriage return, which a reader would take
/// for part of the line break.
pub open spec fn no_trailing_cr(p: Seq<u8>) -> bool {
    forall|i: int|
        0 <= i < p.len() && #[trigger] p[i] == 13 ==> i + 1 < p.len() && p[i + 1] != 10
}

/// A line that begins with something else than white space is no boundary.
pub proof fn lemma_not_blank(s: Seq<u8>)
    requires
        s.len() > 0,
        !bytes::is_ascii_space(s[0]),
    ensures
        bytes::trimmed(s).len() > 0,
{
    lemma_end_not_blank(s);
}

proof fn lemma_end_not_blank(s: Seq<u8>)
    requires
        s.len() > 0,
        !bytes::is_ascii_space(s[0]),
    ensures
        bytes::trimmed_end(s).len() > 0,
    decreases s.len(),
{
    if s.len() > 1 && bytes::is_ascii_space(s.last()) {
        lemma_end_not_blank(s.drop_last());
    }
}

/// A `data:` line yields what follows its start.
proof fn lemma_frame_line(l: Seq<u8>)
    requires
        l.len() > 0 ==> l.last() != 13,
    ensures
        !is_boundary(frame_start() + l),
        line_data(frame_start() + l) == seq![l],
{
    let line = frame_start() + l;
    if l.len() > 0 {
        assert(line.last() == l.last());
    } else {
        assert(line.last() == 32);
    }
    assert(bare(line) == line);
    assert(line[0] == 100);
    lemma_not_blank(line);
    assert(line.take(5) =~= data_field());
    assert(line.skip(6) =~= l);
}

/// Reading the line start of a frame begins a line with it.
proof fn lemma_read_frame_start(s: ReaderView)
    requires
        s.line.len() == 0,
    ensures
        read_all(s, frame_start()) == (ReaderView { line: frame_start(), data: s.data }),
        read_events(s, frame_start()) == Seq::<Seq<u8>>::empty(),
{
    let f = frame_start();
    reveal_with_fuel(read_all, 7);
    reveal_with_fuel(read_events, 7);
    assert(f.drop_last() =~= f.take(5));
    assert(f.take(5).drop_last() =~= f.take(4));
    assert(f.take(4).drop_last() =~= f.take(3));
    assert(f.take(3).drop_last() =~= f.take(2));
    assert(f.take(2).drop_last() =~= f.take(1));
    assert(f.take(1).drop_last() =~= f.take(0));
    assert(read_all(s, f).line =~= f);
}

/// Reading one more byte.
proof fn lemma_read_one(s: ReaderView, b: u8)
    ensures
        read_all(s, seq![b]) == read_byte(s, b),
        read_events(s, seq![b]) == byte_event(s, b),
{
    reveal_with_fuel(read_all, 2);
    reveal_with_fuel(read_events, 2);
    assert(seq![b].drop_last() =~= Seq::<u8>::empty());
    assert(Seq::<Seq<u8>>::empty() + byte_event(s, b) =~= byte_event(s, b));
}

/// Reading the lines of a frame gathers the lines of the payload.
proof fn lemma_read_spread(p: Seq<u8>, whole: Seq<u8>)
    requires
        p.len() <= whole.len(),
        p == whole.take(p.len() as int),
        no_trailing_cr(whole),
    ensures
        read_all(fresh(), frame_start() + spread(p)) == (ReaderView {
            line: frame_start() + last_line(p),
            data: full_lines(p),
        }),
        read_events(fresh(), frame_start() + spread(p)) == Seq::<Seq<u8>>::empty(),
    decreases p.len(),
{
    let f = frame_start();
    if p.len() == 0 {
        assert(f + spread(p) =~= f);
        assert(f + last_line(p) =~= f);
        lemma_read_frame_start(fresh());
    } else {
        let q = p.drop_last();
        let b = p.last();
        assert(q =~= whole.take(q.len() as int));
        lemma_read_spread(q, whole);
        let sq = ReaderView { line: f + last_line(q), data: full_lines(q) };
        let a = f + spread(q);
        law_reading_in_pieces(fresh(), a, seq![b]);
        lemma_read_one(sq, b);
        if b == 10 {
            assert(last_line(q).len() > 0 ==> last_line(q).last() != 13) by {
                if last_line(q).len() > 0 {
                    assert(last_line(q).last() == q.last());
                    assert(whole[q.len() - 1] == q.last());
                    assert(whole[q.len() as int] == p.last());
                }
            }
            lemma_frame_line(last_line(q));
            assert(full_lines(q) + seq![last_line(q)] =~= full_lines(p));
            let s2 = ReaderView { line: Seq::empty(), data: full_lines(p) };
            lemma_read_frame_start(s2);
            law_reading_in_pieces(fresh(), a + seq![b], f);
            assert(a + seq![b] + f =~= f + spread(p));
            assert(f + last_line(p) =~= f);
        } else {
            assert(a + seq![b] =~= f + spread(p));
            assert((f + last_line(q)).push(b) =~= f + last_line(p));
        }
    }
}

/// A reader that has nothing begun reads a frame back as its payload.
pub proof fn law_frame_is_read_back(p: Seq<u8>)
    requires
        no_trailing_cr(p),
    ensures
        read_all(fresh(), data_frame(p)) == fresh(),
        read_events(fresh(), data_frame(p)) == seq![p],
{
    let f = frame_start();
    let a = f + spread(p);
    let nl = seq![10u8];
    assert(p.take(p.len() as int) =~= p);
    lemma_read_spread(p, p);
    let s1 = ReaderView { line: f + last_line(p), data: full_lines(p) };
    lemma_read_one(s1, 10);
    assert(last_line(p).len() > 0 ==> last_line(p).last() != 13) by {
        if last_line(p).len() > 0 {
            assert(last_line(p).last() == p.last());
            assert(p[p.len() - 1] == p.last());
        }
    }
    lemma_frame_line(last_line(p));
    let all = full_lines(p).push(last_line(p));
    assert(full_lines(p) + seq![last_line(p)] =~= all);
    let s2 = ReaderView { line: Seq::empty(), data: all };
    law_reading_in_pieces(fresh(), a, nl);
    lemma_read_one(s2, 10);
    assert(is_boundary(s2.line));
    law_reading_in_pieces(fresh(), a + nl, nl);
    assert(a + nl + nl =~= data_frame(p));
    lemma_lines_joined(p);
    assert(read_events(fresh(), data_frame(p)) =~= seq![p]);
}

/// The frames of several events are read back as those events, and nothing is
/// left over.
pub proof fn law_frames_are_read_back(payloads: Seq<Seq<u8>>)
    requires
        forall|i: int| 0 <= i < payloads.len() ==> no_trailing_cr(#[trigger] payloads[i]),
    ensures
        read_all(fresh(), data_frames(payloads)) == fresh(),
        read_events(fresh(), data_frames(payloads)) == payloads,
        stream_events(data_frames(payloads)) == payloads,
    decreases payloads.len(),
{
    if payloads.len() > 0 {
        let rest = payloads.drop_last();
        assert forall|i: int| 0 <= i < rest.len() implies no_trailing_cr(#[trigger] rest[i]) by {
            assert(rest[i] == payloads[i]);
        }
        law_frames_are_read_back(rest);
        assert(no_trailing_cr(payloads[payloads.len() - 1]));
        law_frame_is_read_back(payloads.last());
        law_reading_in_pieces(fresh(), data_frames(rest), data_frame(payloads.last()));
        assert(rest + seq![payloads.last()] =~= payloads);
    }
    assert(is_boundary(Seq::<u8>::empty()));
    assert(last_event(fresh()) =~= Seq::<Seq<u8>>::empty());
    assert(payloads + Seq::<Seq<u8>>::empty() =~= payloads);
}

} // verus!
