//! Standard MIDI File encoding.

use vstd::prelude::*;
use vstd::utf8::encode_utf8;

use crate::error::Error;
use crate::types::{track_views, GeneratedTune, MidiEvent, MidiEventType, MidiTrack, TrackView};

verus! {

/// The largest value plus one that a variable-length quantity of up to four
/// bytes holds.
pub const VLQ_LIMIT: u32 = 0x1000_0000;

/// Big-endian bytes of a 16-bit value.
pub open spec fn spec_be16(x: nat) -> Seq<u8> {
    seq![((x / 256) % 256) as u8, (x % 256) as u8]
}

/// Big-endian bytes of a 32-bit value.
pub open spec fn spec_be32(x: nat) -> Seq<u8> {
    seq![
        ((x / 0x100_0000) % 256) as u8,
        ((x / 0x1_0000) % 256) as u8,
        ((x / 256) % 256) as u8,
        (x % 256) as u8,
    ]
}

/// The leading bytes of a variable-length quantity: the 7-bit groups of
/// `w` above the last one, most significant first, each with its top bit set.
pub open spec fn spec_vlq_lead(w: nat) -> Seq<u8>
    decreases w,
{
    if w == 0 {
        seq![]
    } else {
        spec_vlq_lead(w / 128) + seq![(w % 128 + 128) as u8]
    }
}

/// The variable-length quantity of `v`: 7-bit groups, most significant
/// first, every byte but the last with its top bit set.
pub open spec fn spec_vlq(v: nat) -> Seq<u8> {
    spec_vlq_lead(v / 128) + seq![(v % 128) as u8]
}

/// Append the bytes of `bytes` to `data`.
pub fn push_bytes(data: &mut Vec<u8>, bytes: &[u8])
    ensures
        final(data)@ == old(data)@ + bytes@,
{
    let ghost start = data@;
    let mut i: usize = 0;
    while i < bytes.len()
        invariant
            i <= bytes@.len(),
            data@ == start + bytes@.subrange(0, i as int),
        decreases bytes.len() - i,
    {
        data.push(bytes[i]);
        i = i + 1;
        assert(data@ =~= start + bytes@.subrange(0, i as int));
    }
    assert(bytes@.subrange(0, i as int) =~= bytes@);
}

/// Append the big-endian bytes of a 16-bit value.
fn push_be16(data: &mut Vec<u8>, x: u16)
    ensures
        final(data)@ == old(data)@ + spec_be16(x as nat),
{
    data.push((x / 256) as u8);
    data.push((x % 256) as u8);
    assert(final(data)@ =~= old(data)@ + spec_be16(x as nat));
}

/// Append the big-endian bytes of a 32-bit value.
fn push_be32(data: &mut Vec<u8>, x: u32)
    ensures
        final(data)@ == old(data)@ + spec_be32(x as nat),
{
    data.push((x / 0x100_0000) as u8);
    data.push(((x / 0x1_0000) % 256) as u8);
    data.push(((x / 256) % 256) as u8);
    data.push((x % 256) as u8);
    assert(final(data)@ =~= old(data)@ + spec_be32(x as nat));
}

/// Read a variable-length quantity from the front of `bytes`, with `acc`
/// the value of the groups read so far: the value and the number of bytes
/// it takes, or none when the bytes end before a byte below 128.
pub open spec fn spec_read_vlq(bytes: Seq<u8>, acc: nat) -> Option<(nat, nat)>
    decreases bytes.len(),
{
    if bytes.len() == 0 {
        None
    } else if bytes[0] >= 128 {
        match spec_read_vlq(bytes.drop_first(), acc * 128 + (bytes[0] - 128) as nat) {
            Some((v, n)) => Some((v, n + 1)),
            None => None,
        }
    } else {
        Some((acc * 128 + bytes[0] as nat, 1))
    }
}

proof fn lemma_read_lead(w: nat, tail: Seq<u8>)
    ensures
        spec_read_vlq(spec_vlq_lead(w) + tail, 0) == match spec_read_vlq(tail, w) {
            Some((v, n)) => Some((v, n + spec_vlq_lead(w).len())),
            None => None::<(nat, nat)>,
        },
    decreases w,
{
    if w == 0 {
        assert(spec_vlq_lead(w) + tail =~= tail);
        match spec_read_vlq(tail, w) {
            Some((v, n)) => {},
            None => {},
        }
    } else {
        let x = seq![(w % 128 + 128) as u8] + tail;
        lemma_read_lead(w / 128, x);
        assert(spec_vlq_lead(w) + tail =~= spec_vlq_lead(w / 128) + x);
        assert(x.drop_first() =~= tail);
        assert((w / 128) * 128 + (w % 128) == w);
    }
}

/// Reading back a written variable-length quantity gives its value and
/// stops after its last byte, whatever follows; it takes one to four bytes.
pub proof fn lemma_vlq_roundtrip(v: nat, rest: Seq<u8>)
    requires
        v < VLQ_LIMIT,
    ensures
        spec_read_vlq(spec_vlq(v) + rest, 0) == Some((v, spec_vlq(v).len())),
        1 <= spec_vlq(v).len() <= 4,
{
    let last = seq![(v % 128) as u8] + rest;
    lemma_read_lead(v / 128, last);
    assert(spec_vlq(v) + rest =~= spec_vlq_lead(v / 128) + last);
    assert(last.drop_first() =~= rest);
    assert((v / 128) * 128 + (v % 128) == v);
    reveal_with_fuel(spec_vlq_lead, 4);
    assert(v / 128 / 128 / 128 / 128 == 0);
}

/// Write a variable-length quantity. Values of 2^28 and more do not fit in
/// the four bytes that the encoder holds.
pub fn write_vlq(data: &mut Vec<u8>, value: u32)
    requires
        value < VLQ_LIMIT,
    ensures
        final(data)@ == old(data)@ + spec_vlq(value as nat),
{
    let v1 = value / 128;
    let v2 = v1 / 128;
    let v3 = v2 / 128;
    assert(spec_vlq_lead(0) =~= seq![]);
    if v3 > 0 {
        assert(v3 / 128 == 0);
        data.push((v3 % 128 + 128) as u8);
    }
    if v2 > 0 {
        data.push((v2 % 128 + 128) as u8);
    }
    if v1 > 0 {
        data.push((v1 % 128 + 128) as u8);
    }
    data.push((value % 128) as u8);
    proof {
        reveal_with_fuel(spec_vlq_lead, 4);
        assert(final(data)@ =~= old(data)@ + spec_vlq(value as nat));
    }
}


/// "MThd".
pub open spec fn spec_mthd() -> Seq<u8> {
    seq![0x4Du8, 0x54u8, 0x68u8, 0x64u8]
}

/// "MTrk".
pub open spec fn spec_mtrk() -> Seq<u8> {
    seq![0x4Du8, 0x54u8, 0x72u8, 0x6Bu8]
}

/// The header chunk of a format 1 file with `num_tracks` note tracks and a
/// tempo track.
pub open spec fn spec_header(num_tracks: u16, ticks_per_beat: u16) -> Seq<u8> {
    spec_mthd() + spec_be32(6) + spec_be16(1) + spec_be16((num_tracks + 1) as nat) + spec_be16(
        ticks_per_beat as nat,
    )
}

/// Write the MIDI header chunk (format 1, one more track than
/// `num_tracks` for the tempo track).
pub fn write_header(data: &mut Vec<u8>, num_tracks: u16, ticks_per_beat: u16) -> (r: Result<
    (),
    Error,
>)
    requires
        num_tracks < u16::MAX,
    ensures
        r is Ok,
        final(data)@ == old(data)@ + spec_header(num_tracks, ticks_per_beat),
{
    let magic: [u8; 4] = [0x4D, 0x54, 0x68, 0x64];
    assert(magic@ =~= spec_mthd());
    push_bytes(data, magic.as_slice());
    push_be32(data, 6);
    push_be16(data, 1);
    push_be16(data, num_tracks + 1);
    push_be16(data, ticks_per_beat);
    assert(final(data)@ =~= old(data)@ + spec_header(num_tracks, ticks_per_beat));
    Ok(())
}

/// The body of the tempo track: time signature 4/4, the tempo in
/// microseconds per beat, end of track.
pub open spec fn spec_tempo_body(tempo: u32) -> Seq<u8> {
    let mpb = 60_000_000nat / (tempo as nat);
    seq![
        0u8, 0xFFu8, 0x58u8, 0x04u8, 4u8, 2u8, 24u8, 8u8,
        0u8, 0xFFu8, 0x51u8, 0x03u8,
        ((mpb / 0x1_0000) % 256) as u8, ((mpb / 256) % 256) as u8, (mpb % 256) as u8,
        0u8, 0xFFu8, 0x2Fu8, 0x00u8,
    ]
}

/// A track chunk holding `body`.
pub open spec fn spec_chunk(body: Seq<u8>) -> Seq<u8> {
    spec_mtrk() + spec_be32(body.len() as u32 as nat) + body
}

/// Write the tempo track.
pub fn write_tempo_track(data: &mut Vec<u8>, tempo: u32) -> (r: Result<(), Error>)
    requires
        tempo > 0,
    ensures
        r is Ok,
        final(data)@ == old(data)@ + spec_chunk(spec_tempo_body(tempo)),
{
    let mpb = 60_000_000 / tempo;
    let body: [u8; 19] = [
        0, 0xFF, 0x58, 0x04, 4, 2, 24, 8,
        0, 0xFF, 0x51, 0x03,
        ((mpb / 0x1_0000) % 256) as u8, ((mpb / 256) % 256) as u8, (mpb % 256) as u8,
        0, 0xFF, 0x2F, 0x00,
    ];
    assert(body@ =~= spec_tempo_body(tempo));
    let magic: [u8; 4] = [0x4D, 0x54, 0x72, 0x6B];
    assert(magic@ =~= spec_mtrk());
    push_bytes(data, magic.as_slice());
    push_be32(data, 19);
    push_bytes(data, body.as_slice());
    assert(final(data)@ =~= old(data)@ + spec_chunk(spec_tempo_body(tempo)));
    Ok(())
}


/// `s` with `e` inserted after every event that is not later than `e`.
pub open spec fn spec_insert_by_time(s: Seq<MidiEvent>, e: MidiEvent) -> Seq<MidiEvent>
    decreases s.len(),
{
    if s.len() == 0 {
        seq![e]
    } else if s.last().time <= e.time {
        s.push(e)
    } else {
        spec_insert_by_time(s.drop_last(), e).push(s.last())
    }
}

/// The events in order of time; events at the same time keep their order.
pub open spec fn spec_sort_by_time(s: Seq<MidiEvent>) -> Seq<MidiEvent>
    decreases s.len(),
{
    if s.len() == 0 {
        seq![]
    } else {
        spec_insert_by_time(spec_sort_by_time(s.drop_last()), s.last())
    }
}

proof fn lemma_insert_at(s: Seq<MidiEvent>, e: MidiEvent, j: int)
    requires
        0 <= j <= s.len(),
        forall|k: int| j <= k < s.len() ==> #[trigger] s[k].time > e.time,
        j == 0 || s[j - 1].time <= e.time,
    ensures
        spec_insert_by_time(s, e) == s.insert(j, e),
    decreases s.len(),
{
    if s.len() == 0 {
        assert(s.insert(j, e) =~= seq![e]);
    } else if j == s.len() {
        assert(s.insert(j, e) =~= s.push(e));
    } else {
        lemma_insert_at(s.drop_last(), e, j);
        assert(s.drop_last().insert(j, e).push(s.last()) =~= s.insert(j, e));
    }
}

/// The events are in order of time.
pub open spec fn sorted_by_time(s: Seq<MidiEvent>) -> bool {
    forall|i: int, j: int| 0 <= i < j < s.len() ==> #[trigger] s[i].time <= #[trigger] s[j].time
}

proof fn lemma_insert_sorted(s: Seq<MidiEvent>, e: MidiEvent)
    requires
        sorted_by_time(s),
    ensures
        sorted_by_time(spec_insert_by_time(s, e)),
        spec_insert_by_time(s, e).to_multiset() == s.to_multiset().insert(e),
        forall|i: int|
            0 <= i < spec_insert_by_time(s, e).len() ==> (#[trigger] spec_insert_by_time(s, e)[i]
                == e || s.contains(spec_insert_by_time(s, e)[i])),
    decreases s.len(),
{
    broadcast use vstd::seq_lib::group_to_multiset_ensures;

    let r = spec_insert_by_time(s, e);
    if s.len() == 0 {
        assert(seq![e] =~= Seq::<MidiEvent>::empty().push(e));
    } else if s.last().time <= e.time {
        assert forall|i: int| 0 <= i < r.len() implies (#[trigger] r[i] == e || s.contains(r[i])) by {
            if i < s.len() {
                assert(s[i] == r[i]);
            }
        }
    } else {
        let d = s.drop_last();
        assert(sorted_by_time(d));
        lemma_insert_sorted(d, e);
        let r1 = spec_insert_by_time(d, e);
        assert(s =~= d.push(s.last()));
        assert forall|i: int| 0 <= i < r1.len() implies #[trigger] r1[i].time <= s.last().time by {
            if r1[i] != e {
                let k = choose|k: int| 0 <= k < d.len() && d[k] == r1[i];
                assert(s[k] == d[k]);
            }
        }
        assert forall|i: int, j: int| 0 <= i < j < r.len() implies #[trigger] r[i].time
            <= #[trigger] r[j].time by {
            if j == r.len() - 1 {
                assert(r[i] == r1[i]);
            } else {
                assert(r[i] == r1[i] && r[j] == r1[j]);
            }
        }
        assert forall|i: int| 0 <= i < r.len() implies (#[trigger] r[i] == e || s.contains(r[i])) by {
            if i < r1.len() {
                assert(r[i] == r1[i]);
                if r1[i] != e {
                    let k = choose|k: int| 0 <= k < d.len() && d[k] == r1[i];
                    assert(s[k] == d[k]);
                }
            } else {
                assert(r[i] == s[s.len() - 1]);
            }
        }
    }
}

/// Sorting puts the events in order of time and keeps every event: the
/// result holds the same events, each as often as the input.
pub proof fn lemma_sort_by_time(s: Seq<MidiEvent>)
    ensures
        sorted_by_time(spec_sort_by_time(s)),
        spec_sort_by_time(s).to_multiset() == s.to_multiset(),
    decreases s.len(),
{
    broadcast use vstd::seq_lib::group_to_multiset_ensures;

    if s.len() > 0 {
        lemma_sort_by_time(s.drop_last());
        lemma_insert_sorted(spec_sort_by_time(s.drop_last()), s.last());
        assert(s =~= s.drop_last().push(s.last()));
    } else {
        assert(spec_sort_by_time(s) =~= s);
    }
}

/// The events at time `t`, in their order.
pub open spec fn events_at(s: Seq<MidiEvent>, t: u32) -> Seq<MidiEvent> {
    s.filter(|e: MidiEvent| e.time == t)
}

proof fn lemma_filter_push(s: Seq<MidiEvent>, e: MidiEvent, t: u32)
    ensures
        events_at(s.push(e), t) == if e.time == t { events_at(s, t).push(e) } else { events_at(s, t) },
{
    reveal(Seq::filter);
    assert(s.push(e).drop_last() =~= s);
}

proof fn lemma_insert_stable(s: Seq<MidiEvent>, e: MidiEvent, t: u32)
    ensures
        events_at(spec_insert_by_time(s, e), t) == if e.time == t {
            events_at(s, t).push(e)
        } else {
            events_at(s, t)
        },
    decreases s.len(),
{
    if s.len() == 0 {
        assert(seq![e] =~= s.push(e));
        lemma_filter_push(s, e, t);
    } else if s.last().time <= e.time {
        lemma_filter_push(s, e, t);
    } else {
        let d = s.drop_last();
        lemma_insert_stable(d, e, t);
        lemma_filter_push(spec_insert_by_time(d, e), s.last(), t);
        assert(s =~= d.push(s.last()));
        lemma_filter_push(d, s.last(), t);
    }
}

/// Sorting is stable: the events at any one time keep their order.
pub proof fn lemma_sort_stable(s: Seq<MidiEvent>, t: u32)
    ensures
        events_at(spec_sort_by_time(s), t) == events_at(s, t),
    decreases s.len(),
{
    if s.len() == 0 {
        assert(spec_sort_by_time(s) =~= s);
    } else {
        lemma_sort_stable(s.drop_last(), t);
        lemma_insert_stable(spec_sort_by_time(s.drop_last()), s.last(), t);
        assert(s =~= s.drop_last().push(s.last()));
        lemma_filter_push(s.drop_last(), s.last(), t);
    }
}

/// Sort events by time, keeping the order of events at the same time.
pub fn sort_by_time(events: &Vec<MidiEvent>) -> (r: Vec<MidiEvent>)
    ensures
        r@ == spec_sort_by_time(events@),
{
    let mut r: Vec<MidiEvent> = Vec::new();
    let mut i: usize = 0;
    while i < events.len()
        invariant
            i <= events@.len(),
            r@ == spec_sort_by_time(events@.subrange(0, i as int)),
        decreases events.len() - i,
    {
        let e = events[i];
        let mut j = r.len();
        while j > 0 && r[j - 1].time > e.time
            invariant
                j <= r@.len(),
                forall|k: int| j <= k < r@.len() ==> #[trigger] r@[k].time > e.time,
            decreases j,
        {
            j = j - 1;
        }
        proof {
            lemma_insert_at(r@, e, j as int);
            assert(events@.subrange(0, i + 1).drop_last() =~= events@.subrange(0, i as int));
        }
        r.insert(j, e);
        i = i + 1;
    }
    assert(events@.subrange(0, i as int) =~= events@);
    r
}


/// The bytes of an event on `channel`: status byte, then its data bytes.
/// A note off is written with release velocity 64.
pub open spec fn spec_event_bytes(channel: u8, event_type: MidiEventType) -> Seq<u8> {
    match event_type {
        MidiEventType::NoteOn { note, velocity } => seq![0x90u8 | channel, note, velocity],
        MidiEventType::NoteOff { note } => seq![0x80u8 | channel, note, 64u8],
        MidiEventType::ProgramChange { program } => seq![0xC0u8 | channel, program],
        MidiEventType::ControlChange { controller, value } => seq![
            0xB0u8 | channel,
            controller,
            value,
        ],
    }
}

/// Ticks from the previous event to this one; none if it would be negative.
pub open spec fn spec_delta(time: u32, last: u32) -> nat {
    if time >= last {
        (time - last) as nat
    } else {
        0
    }
}

/// The events written one after another, each after its delta time from
/// the event before it (the first from time `last`).
pub open spec fn spec_events_body(events: Seq<MidiEvent>, last: u32, channel: u8) -> Seq<u8>
    decreases events.len(),
{
    if events.len() == 0 {
        seq![]
    } else {
        spec_vlq(spec_delta(events[0].time, last)) + spec_event_bytes(
            channel,
            events[0].event_type,
        ) + spec_events_body(events.drop_first(), events[0].time, channel)
    }
}

/// Every delta time of the events fits in a four-byte quantity.
pub open spec fn spec_deltas_fit(events: Seq<MidiEvent>, last: u32) -> bool
    decreases events.len(),
{
    events.len() == 0 || (spec_delta(events[0].time, last) < VLQ_LIMIT && spec_deltas_fit(
        events.drop_first(),
        events[0].time,
    ))
}

/// The body of a note track: its name, its events in time order, end of
/// track.
pub open spec fn spec_track_body(t: TrackView) -> Seq<u8> {
    let name = encode_utf8(t.name);
    seq![0u8, 0xFFu8, 0x03u8] + spec_vlq(name.len()) + name + spec_events_body(
        spec_sort_by_time(t.events),
        0,
        t.channel,
    ) + seq![0u8, 0xFFu8, 0x2Fu8, 0x00u8]
}

/// A track can be written: its name's length and every delta time fit in a
/// four-byte quantity.
pub open spec fn spec_track_fits(t: TrackView) -> bool {
    encode_utf8(t.name).len() < VLQ_LIMIT && spec_deltas_fit(spec_sort_by_time(t.events), 0)
}

/// The number of data bytes that follow a status byte: one after a program
/// change (status 0xC0 to 0xCF), two after the other events written here.
pub open spec fn spec_data_len(status: u8) -> nat {
    if status / 16 == 12 {
        1
    } else {
        2
    }
}

/// Read back the absolute times of `count` events from the event bytes of
/// a track: each event is a delta time, a status byte and its data bytes,
/// and its time is the time before it (at first `time`) plus its delta.
pub open spec fn spec_read_times(bytes: Seq<u8>, time: nat, count: nat) -> Seq<nat>
    decreases count,
{
    if count == 0 {
        seq![]
    } else {
        match spec_read_vlq(bytes, 0) {
            Some((delta, n)) => {
                let t = time + delta;
                let next = n + 1 + spec_data_len(bytes[n as int]);
                seq![t] + spec_read_times(
                    bytes.subrange(next as int, bytes.len() as int),
                    t,
                    (count - 1) as nat,
                )
            },
            None => seq![],
        }
    }
}

proof fn lemma_event_bytes_shape(channel: u8, event_type: MidiEventType)
    requires
        channel < 16,
    ensures
        spec_event_bytes(channel, event_type).len() == 1 + spec_data_len(
            spec_event_bytes(channel, event_type)[0],
        ),
{
    assert((0x90u8 | channel) / 16 == 9) by (bit_vector)
        requires
            channel < 16,
    ;
    assert((0x80u8 | channel) / 16 == 8) by (bit_vector)
        requires
            channel < 16,
    ;
    assert((0xC0u8 | channel) / 16 == 12) by (bit_vector)
        requires
            channel < 16,
    ;
    assert((0xB0u8 | channel) / 16 == 11) by (bit_vector)
        requires
            channel < 16,
    ;
}

/// Reading back the delta times of written events, and adding them up from
/// the starting time, gives every event's absolute time: for events in
/// order of time, on a MIDI channel, at times below 2^28 ticks.
pub proof fn lemma_read_back_times(events: Seq<MidiEvent>, last: u32, channel: u8)
    requires
        channel < 16,
        forall|i: int, j: int|
            0 <= i < j < events.len() ==> #[trigger] events[i].time <= #[trigger] events[j].time,
        events.len() > 0 ==> last <= events[0].time,
        forall|i: int| 0 <= i < events.len() ==> #[trigger] events[i].time < VLQ_LIMIT,
    ensures
        spec_read_times(spec_events_body(events, last, channel), last as nat, events.len())
            == events.map_values(|e: MidiEvent| e.time as nat),
    decreases events.len(),
{
    let times = events.map_values(|e: MidiEvent| e.time as nat);
    if events.len() == 0 {
        assert(times =~= seq![]);
    } else {
        let e0 = events[0];
        let d = spec_delta(e0.time, last);
        assert(d == e0.time - last);
        let eb = spec_event_bytes(channel, e0.event_type);
        let rest = spec_events_body(events.drop_first(), e0.time, channel);
        let body = spec_events_body(events, last, channel);
        assert(body == spec_vlq(d) + eb + rest);
        lemma_vlq_roundtrip(d, eb + rest);
        assert(spec_vlq(d) + eb + rest =~= spec_vlq(d) + (eb + rest));
        let n = spec_vlq(d).len();
        lemma_event_bytes_shape(channel, e0.event_type);
        assert(body[n as int] == eb[0]);
        let next = n + 1 + spec_data_len(eb[0]);
        assert(body.subrange(next as int, body.len() as int) =~= rest);
        let tail = events.drop_first();
        assert forall|i: int, j: int| 0 <= i < j < tail.len() implies #[trigger] tail[i].time
            <= #[trigger] tail[j].time by {
            assert(tail[i] == events[i + 1] && tail[j] == events[j + 1]);
        }
        assert forall|i: int| 0 <= i < tail.len() implies #[trigger] tail[i].time < VLQ_LIMIT by {
            assert(tail[i] == events[i + 1]);
        }
        if tail.len() > 0 {
            assert(tail[0] == events[1]);
        }
        lemma_read_back_times(tail, e0.time, channel);
        assert(spec_read_times(body, last as nat, events.len()) == seq![e0.time as nat]
            + spec_read_times(rest, e0.time as nat, tail.len()));
        assert(times =~= seq![e0.time as nat] + tail.map_values(|e: MidiEvent| e.time as nat));
    }
}

/// A written track's events read back at their absolute times: the events
/// go out sorted by time, and summing the delta times read back gives the
/// time of each sorted event in turn.
pub proof fn lemma_track_times_read_back(t: TrackView)
    requires
        t.channel < 16,
        forall|i: int| 0 <= i < t.events.len() ==> #[trigger] t.events[i].time < VLQ_LIMIT,
    ensures
        spec_read_times(
            spec_events_body(spec_sort_by_time(t.events), 0, t.channel),
            0,
            t.events.len(),
        ) == spec_sort_by_time(t.events).map_values(|e: MidiEvent| e.time as nat),
        spec_sort_by_time(t.events).to_multiset() == t.events.to_multiset(),
{
    broadcast use vstd::seq_lib::group_to_multiset_ensures;

    let sorted = spec_sort_by_time(t.events);
    lemma_sort_by_time(t.events);
    assert(sorted.len() == t.events.len()) by {
        assert(sorted.to_multiset().len() == t.events.to_multiset().len());
    }
    assert forall|i: int| 0 <= i < sorted.len() implies #[trigger] sorted[i].time < VLQ_LIMIT by {
        assert(sorted.to_multiset().count(sorted[i]) > 0);
        assert(t.events.contains(sorted[i]));
    }
    assert forall|i: int, j: int| 0 <= i < j < sorted.len() implies #[trigger] sorted[i].time
        <= #[trigger] sorted[j].time by {
        assert(sorted_by_time(sorted));
    }
    lemma_read_back_times(sorted, 0, t.channel);
}

/// Append the bytes of one event.
fn push_event(data: &mut Vec<u8>, channel: u8, event_type: MidiEventType)
    ensures
        final(data)@ == old(data)@ + spec_event_bytes(channel, event_type),
{
    match event_type {
        MidiEventType::NoteOn { note, velocity } => {
            data.push(0x90 | channel);
            data.push(note);
            data.push(velocity);
        },
        MidiEventType::NoteOff { note } => {
            data.push(0x80 | channel);
            data.push(note);
            data.push(64);
        },
        MidiEventType::ProgramChange { program } => {
            data.push(0xC0 | channel);
            data.push(program);
        },
        MidiEventType::ControlChange { controller, value } => {
            data.push(0xB0 | channel);
            data.push(controller);
            data.push(value);
        },
    }
    assert(final(data)@ =~= old(data)@ + spec_event_bytes(channel, event_type));
}

/// Whether a track can be written.
pub fn track_fits(track: &MidiTrack) -> (b: bool)
    ensures
        b == spec_track_fits(track@),
{
    let name_len = track.name.as_str().as_bytes().len();
    if name_len >= 0x1000_0000 {
        return false;
    }
    let events = sort_by_time(&track.events);
    let mut last: u32 = 0;
    let mut i: usize = 0;
    assert(events@.subrange(0, events@.len() as int) =~= events@);
    while i < events.len()
        invariant
            i <= events@.len(),
            encode_utf8(track.name@).len() < VLQ_LIMIT,
            events@ == spec_sort_by_time(track.events@),
            spec_deltas_fit(events@, 0) == spec_deltas_fit(events@.subrange(i as int, events@.len() as int), last),
        decreases events.len() - i,
    {
        let ghost rest = events@.subrange(i as int, events@.len() as int);
        let time = events[i].time;
        let delta = time.saturating_sub(last);
        assert(rest.drop_first() =~= events@.subrange(i + 1, events@.len() as int));
        assert(rest[0] == events@[i as int]);
        if delta >= 0x1000_0000 {
            assert(!spec_deltas_fit(rest, last));
            return false;
        }
        last = time;
        i = i + 1;
    }
    true
}

/// Write a note track: its name, its events sorted by time, each after its
/// delta time, end of track.
pub fn write_track(data: &mut Vec<u8>, track: &MidiTrack) -> (r: Result<(), Error>)
    requires
        spec_track_fits(track@),
    ensures
        r is Ok,
        final(data)@ == old(data)@ + spec_chunk(spec_track_body(track@)),
{
    let mut body: Vec<u8> = Vec::new();
    body.push(0);
    body.push(0xFF);
    body.push(0x03);
    let name_bytes = track.name.as_str().as_bytes();
    write_vlq(&mut body, name_bytes.len() as u32);
    push_bytes(&mut body, name_bytes);
    let events = sort_by_time(&track.events);
    let ghost head = body@;
    let ghost full = spec_events_body(events@, 0, track.channel);
    let mut last: u32 = 0;
    let mut i: usize = 0;
    assert(events@.subrange(0, events@.len() as int) =~= events@);
    while i < events.len()
        invariant
            i <= events@.len(),
            full == spec_events_body(events@, 0, track.channel),
            spec_deltas_fit(events@.subrange(i as int, events@.len() as int), last),
            body@ + spec_events_body(events@.subrange(i as int, events@.len() as int), last, track.channel)
                == head + full,
        decreases events.len() - i,
    {
        let ghost rest = events@.subrange(i as int, events@.len() as int);
        let ghost before = body@;
        assert(rest.drop_first() =~= events@.subrange(i + 1, events@.len() as int));
        let event = events[i];
        let delta = event.time.saturating_sub(last);
        write_vlq(&mut body, delta);
        push_event(&mut body, track.channel, event.event_type);
        last = event.time;
        i = i + 1;
        assert(body@ + spec_events_body(events@.subrange(i as int, events@.len() as int), last, track.channel)
            =~= head + full);
    }
    assert(events@.subrange(i as int, events@.len() as int) =~= seq![]);
    body.push(0);
    body.push(0xFF);
    body.push(0x2F);
    body.push(0x00);
    assert(body@ =~= spec_track_body(track@));
    let magic: [u8; 4] = [0x4D, 0x54, 0x72, 0x6B];
    assert(magic@ =~= spec_mtrk());
    push_bytes(data, magic.as_slice());
    #[verifier::truncate]
    let len = body.len() as u32;
    push_be32(data, len);
    push_bytes(data, body.as_slice());
    assert(final(data)@ =~= old(data)@ + spec_chunk(spec_track_body(track@)));
    Ok(())
}


/// The chunks of the note tracks, one after another.
pub open spec fn spec_tracks_bytes(tracks: Seq<TrackView>) -> Seq<u8>
    decreases tracks.len(),
{
    if tracks.len() == 0 {
        seq![]
    } else {
        spec_chunk(spec_track_body(tracks[0])) + spec_tracks_bytes(tracks.drop_first())
    }
}

/// The Standard MIDI File of a tune: the header (480 ticks per beat), the
/// tempo track, then one chunk per note track.
pub open spec fn spec_midi_file(tune: GeneratedTune) -> Seq<u8> {
    spec_header((tune.tracks@.len() % 0x1_0000) as u16, 480) + spec_chunk(
        spec_tempo_body(tune.program.tempo),
    ) + spec_tracks_bytes(track_views(tune.tracks@))
}

/// A tune can be encoded: it has a tempo, its track count (taken modulo
/// 2^16) leaves room for the tempo track, and every track can be written.
pub open spec fn spec_midi_encodable(tune: GeneratedTune) -> bool {
    &&& tune.program.tempo > 0
    &&& tune.tracks@.len() % 0x1_0000 != 0xFFFF
    &&& forall|i: int| 0 <= i < tune.tracks@.len() ==> spec_track_fits(#[trigger] tune.tracks@[i]@)
}

/// Whether a tune can be encoded as a MIDI file.
pub fn midi_encodable(tune: &GeneratedTune) -> (b: bool)
    ensures
        b == spec_midi_encodable(*tune),
{
    if tune.program.tempo == 0 || tune.tracks.len() % 0x1_0000 == 0xFFFF {
        return false;
    }
    let mut i: usize = 0;
    while i < tune.tracks.len()
        invariant
            i <= tune.tracks@.len(),
            forall|k: int| 0 <= k < i ==> spec_track_fits(#[trigger] tune.tracks@[k]@),
        decreases tune.tracks.len() - i,
    {
        if !track_fits(&tune.tracks[i]) {
            return false;
        }
        i = i + 1;
    }
    true
}

/// Encode a tune as a Standard MIDI File (format 1): header, tempo track,
/// one track per instrument.
pub fn midi_bytes(tune: &GeneratedTune) -> (data: Vec<u8>)
    requires
        spec_midi_encodable(*tune),
    ensures
        data@ == spec_midi_file(*tune),
{
    let mut data: Vec<u8> = Vec::new();
    let num_tracks = (tune.tracks.len() % 0x1_0000) as u16;
    let _ = write_header(&mut data, num_tracks, 480);
    let _ = write_tempo_track(&mut data, tune.program.tempo);
    let ghost head = data@;
    let ghost views = track_views(tune.tracks@);
    let mut i: usize = 0;
    assert(views.subrange(0, views.len() as int) =~= views);
    while i < tune.tracks.len()
        invariant
            i <= tune.tracks@.len(),
            views == track_views(tune.tracks@),
            spec_midi_encodable(*tune),
            data@ + spec_tracks_bytes(views.subrange(i as int, views.len() as int)) == head
                + spec_tracks_bytes(views),
        decreases tune.tracks.len() - i,
    {
        let ghost before = data@;
        let ghost rest = views.subrange(i as int, views.len() as int);
        assert(rest.drop_first() =~= views.subrange(i + 1, views.len() as int));
        assert(rest[0] == tune.tracks@[i as int]@);
        assert(spec_track_fits(tune.tracks@[i as int]@));
        let _ = write_track(&mut data, &tune.tracks[i]);
        i = i + 1;
        assert(data@ + spec_tracks_bytes(views.subrange(i as int, views.len() as int)) =~= head
            + spec_tracks_bytes(views));
    }
    assert(views.subrange(i as int, views.len() as int) =~= seq![]);
    assert(data@ =~= spec_midi_file(*tune));
    data
}

} // verus!
