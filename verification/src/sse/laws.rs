//! What the lines of an event stream mean.
//!
//! The laws speak of the bytes that come in and of the events that are read
//! from them.
use super::ReaderView;
use crate::bytes;
use crate::sse;
use vstd::prelude::*;

verus! {

/// The field name `data:`.
pub open spec fn data_name() -> Seq<u8> {
    seq!['d' as u8, 'a' as u8, 't' as u8, 'a' as u8, ':' as u8]
}

/// A text without a line break.
pub open spec fn is_line(l: Seq<u8>) -> bool {
    forall|i: int| 0 <= i < l.len() ==> #[trigger] l[i] != '\n' as u8
}

/// A text that ends in a carriage return.
pub open spec fn ends_in_return(l: Seq<u8>) -> bool {
    l.len() > 0 && l[l.len() - 1] == '\r' as u8
}

/// A reader between two lines, with these data lines of the event begun so far.
pub open spec fn holding(data: Seq<Seq<u8>>) -> ReaderView {
    ReaderView { line: Seq::empty(), data }
}

/// Reading a line without its newline begins it.
proof fn lemma_line(data: Seq<Seq<u8>>, l: Seq<u8>)
    requires
        is_line(l),
    ensures
        sse::read_all(holding(data), l) == (ReaderView { line: l, data }),
        sse::read_events(holding(data), l) == Seq::<Seq<u8>>::empty(),
    decreases l.len(),
{
    if l.len() > 0 {
        let rest = l.drop_last();
        assert forall|i: int| 0 <= i < rest.len() implies #[trigger] rest[i] != '\n' as u8 by {
            assert(rest[i] == l[i]);
        }
        lemma_line(data, rest);
        assert(l.last() == l[l.len() - 1]);
        assert(rest.push(l.last()) =~= l);
    } else {
        assert(l =~= Seq::<u8>::empty());
    }
}

/// Reading a line with its newline.
proof fn lemma_whole_line(data: Seq<Seq<u8>>, l: Seq<u8>)
    requires
        is_line(l),
    ensures
        sse::read_all(holding(data), l.push('\n' as u8)) == sse::read_byte(
            ReaderView { line: l, data },
            10,
        ),
        sse::read_events(holding(data), l.push('\n' as u8)) == sse::byte_event(
            ReaderView { line: l, data },
            10,
        ),
{
    lemma_line(data, l);
    let all = l.push('\n' as u8);
    assert(all.drop_last() =~= l);
    assert(all.last() == 10);
    let e = sse::byte_event(ReaderView { line: l, data }, 10);
    assert(Seq::<Seq<u8>>::empty() + e =~= e);
}

/// A line with the carriage return of its line break.
pub open spec fn broken(l: Seq<u8>, with_return: bool) -> Seq<u8> {
    if with_return {
        l.push('\r' as u8)
    } else {
        l
    }
}

/// A `data:` line adds what follows the colon to the event, without one space
/// after the colon and without the line break, be it a newline or a carriage
/// return and a newline.
pub proof fn law_data_line_is_read(data: Seq<Seq<u8>>, payload: Seq<u8>, with_return: bool)
    requires
        is_line(payload),
        with_return || !ends_in_return(payload),
    ensures
        ({
            let spaced = broken(data_name().push(' ' as u8) + payload, with_return).push(
                '\n' as u8,
            );
            &&& sse::read_all(holding(data), spaced) == holding(data.push(payload))
            &&& sse::read_events(holding(data), spaced) == Seq::<Seq<u8>>::empty()
        }),
        !(payload.len() > 0 && payload[0] == ' ' as u8) ==> ({
            let plain = broken(data_name() + payload, with_return).push('\n' as u8);
            &&& sse::read_all(holding(data), plain) == holding(data.push(payload))
            &&& sse::read_events(holding(data), plain) == Seq::<Seq<u8>>::empty()
        }),
{
    let l = data_name().push(' ' as u8) + payload;
    assert(l.take(5) =~= data_name());
    lemma_data_line(data, l, with_return);
    assert(l.skip(6) =~= payload);
    assert(l[5] == 32);
    assert(data + seq![payload] =~= data.push(payload));
    if !(payload.len() > 0 && payload[0] == ' ' as u8) {
        let p = data_name() + payload;
        assert(p.take(5) =~= data_name());
        lemma_data_line(data, p, with_return);
        assert(p.skip(5) =~= payload);
        if p.len() > 5 {
            assert(p[5] == payload[0]);
        }
    }
}

/// A line that begins with `data:`.
proof fn lemma_data_line(data: Seq<Seq<u8>>, l: Seq<u8>, with_return: bool)
    requires
        is_line(l),
        l.len() >= 5,
        l.take(5) == data_name(),
        with_return || !ends_in_return(l),
    ensures
        sse::read_all(holding(data), broken(l, with_return).push('\n' as u8)) == holding(
            data + (if l.len() > 5 && l[5] == 32 {
                seq![l.skip(6)]
            } else {
                seq![l.skip(5)]
            }),
        ),
        sse::read_events(holding(data), broken(l, with_return).push('\n' as u8)) == Seq::<
            Seq<u8>,
        >::empty(),
{
    let line = broken(l, with_return);
    assert forall|i: int| 0 <= i < line.len() implies #[trigger] line[i] != '\n' as u8 by {
        if i < l.len() {
            assert(line[i] == l[i]);
        }
    }
    lemma_whole_line(data, line);
    if with_return {
        assert(line.drop_last() =~= l);
    }
    assert(sse::bare(line) == l);
    assert(l.take(5)[0] == l[0]);
    assert(l[0] == 100);
    sse::lemma_not_blank(l);
    assert(data_name() =~= sse::data_field());
}

/// A line of white space ends the event: it is its data lines with newlines
/// between them. Without a data line there is no event.
pub proof fn law_blank_line_ends_the_event(data: Seq<Seq<u8>>, blank: Seq<u8>)
    requires
        is_line(blank),
        forall|i: int| 0 <= i < blank.len() ==> bytes::is_ascii_space(#[trigger] blank[i]),
    ensures
        sse::read_all(holding(data), blank.push('\n' as u8)) == sse::fresh(),
        sse::read_events(holding(data), blank.push('\n' as u8)) == (if data.len() == 0 {
            Seq::empty()
        } else {
            seq![bytes::joined(data)]
        }),
{
    lemma_whole_line(data, blank);
    let l = sse::bare(blank);
    assert forall|i: int| 0 <= i < l.len() implies bytes::is_ascii_space(#[trigger] l[i]) by {
        assert(l[i] == blank[i]);
    }
    bytes::laws::law_blank_string_is_trimmed_away(l);
}

/// A comment, and any line of another field, adds nothing to the event and does
/// not end it.
pub proof fn law_other_line_is_ignored(data: Seq<Seq<u8>>, l: Seq<u8>)
    requires
        is_line(l),
        l.len() > 0,
        !bytes::is_ascii_space(l[0]),
        !(l.len() >= 5 && l.take(5) == data_name()),
    ensures
        sse::read_all(holding(data), l.push('\n' as u8)) == holding(data),
        sse::read_events(holding(data), l.push('\n' as u8)) == Seq::<Seq<u8>>::empty(),
{
    lemma_whole_line(data, l);
    let b = sse::bare(l);
    assert(l[0] != 13);
    assert(b.len() > 0 && b[0] == l[0]);
    sse::lemma_not_blank(b);
    assert(data_name() =~= sse::data_field());
    if b.len() >= 5 {
        assert(b.take(5) =~= l.take(5));
    }
    assert(data + Seq::<Seq<u8>>::empty() =~= data);
}

/// The end of the input ends the event that is open, with a last line that has
/// no newline; without a data line there is none.
pub proof fn law_end_of_input_ends_the_event(data: Seq<Seq<u8>>, payload: Seq<u8>)
    requires
        !ends_in_return(payload),
    ensures
        sse::last_event(holding(data)) == (if data.len() == 0 {
            Seq::empty()
        } else {
            seq![bytes::joined(data)]
        }),
        sse::last_event(ReaderView { line: data_name().push(' ' as u8) + payload, data })
            == seq![bytes::joined(data.push(payload))],
{
    let none = Seq::<u8>::empty();
    bytes::laws::law_blank_string_is_trimmed_away(none);
    assert(data + Seq::<Seq<u8>>::empty() =~= data);
    let l = data_name().push(' ' as u8) + payload;
    if payload.len() > 0 {
        assert(l.last() == payload.last());
    } else {
        assert(l.last() == 32);
    }
    assert(sse::bare(l) == l);
    assert(l[0] == 100);
    sse::lemma_not_blank(l);
    assert(l.take(5) =~= sse::data_field());
    assert(l.skip(6) =~= payload);
    assert(data + seq![payload] =~= data.push(payload));
}

/// A stream is read from a reader that holds nothing, to its end.
pub proof fn law_whole_stream_is_read(input: Seq<u8>)
    ensures
        sse::stream_events(input) == sse::read_events(holding(Seq::empty()), input)
            + sse::last_event(sse::read_all(holding(Seq::empty()), input)),
{
}

/// The frame of a payload of one line is `data: `, the payload and two newlines;
/// each further line gets a `data: ` of its own.
pub proof fn law_frame_is_written(a: Seq<u8>, b: Seq<u8>)
    ensures
        is_line(a) ==> sse::data_frame(a) == data_name().push(' ' as u8) + a + seq![
            '\n' as u8,
            '\n' as u8,
        ],
        sse::data_frame(a.push('\n' as u8) + b) == sse::data_frame(a).drop_last()
            + sse::data_frame(b),
{
    let start = data_name().push(' ' as u8);
    assert(start =~= sse::frame_start());
    if is_line(a) {
        lemma_spread_line(a);
    }
    lemma_spread_lines(a, b);
    assert(sse::data_frame(a).drop_last() =~= start + sse::spread(a) + seq![10u8]);
    assert(sse::data_frame(a.push('\n' as u8) + b) =~= sse::data_frame(a).drop_last()
        + sse::data_frame(b));
}

proof fn lemma_spread_line(a: Seq<u8>)
    requires
        is_line(a),
    ensures
        sse::spread(a) == a,
    decreases a.len(),
{
    if a.len() > 0 {
        let rest = a.drop_last();
        assert forall|i: int| 0 <= i < rest.len() implies #[trigger] rest[i] != '\n' as u8 by {
            assert(rest[i] == a[i]);
        }
        lemma_spread_line(rest);
        assert(a.last() == a[a.len() - 1]);
        assert(rest.push(a.last()) =~= a);
    } else {
        assert(a =~= Seq::<u8>::empty());
    }
}

proof fn lemma_spread_lines(a: Seq<u8>, b: Seq<u8>)
    ensures
        sse::spread(a.push('\n' as u8) + b) == sse::spread(a).push(10) + sse::frame_start()
            + sse::spread(b),
    decreases b.len(),
{
    let head = a.push('\n' as u8);
    let all = head + b;
    if b.len() == 0 {
        assert(all =~= head);
        assert(head.drop_last() =~= a);
        assert(sse::spread(b) =~= Seq::<u8>::empty());
    } else {
        lemma_spread_lines(a, b.drop_last());
        assert(all.drop_last() =~= head + b.drop_last());
        assert(all.last() == b.last());
    }
    assert(sse::spread(all) =~= sse::spread(a).push(10) + sse::frame_start() + sse::spread(b));
}

/// Frames follow each other in the order of the payloads.
pub proof fn law_frames_follow_each_other(payloads: Seq<Seq<u8>>, p: Seq<u8>)
    ensures
        sse::data_frames(Seq::empty()) == Seq::<u8>::empty(),
        sse::data_frames(payloads.push(p)) == sse::data_frames(payloads) + sse::data_frame(p),
{
    assert(payloads.push(p).drop_last() =~= payloads);
}

} // verus!
