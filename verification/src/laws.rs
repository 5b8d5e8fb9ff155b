//! Properties of the controller that span several calls.
use vstd::prelude::*;
use crate::protocol::{
    dump_frame, has_vendor_header, is_clean_frame, lemma_request_frames_clean, ping_frame,
    search_frame, transmit_mode_frame, COMMAND_START, DIRECT_COMMAND,
    DUMP_RESPONSE, MAX_DEVICES, PART_0_LENGTH, PART_1_LENGTH, PING_INTERVAL, PING_RESPONSE,
    PING_RESPONSE_LENGTH, SEARCH_INTERVAL, SEARCH_RESPONSE, SEARCH_RESPONSE_LENGTH, TERMINATOR,
    RESYNC_INTERVAL, TIMEOUT_TIME, ID_BYTE, COMMAND_BYTE, PART_BYTE,
};
use crate::reader::{frame_completes, frame_step, Framing};
use crate::ultradrive::{
    action_frames, apply_direct, feed, frame_effect, outgoing_effect,
    outgoing_safe, poll, port_attached, receive_byte, responsive, DeviceState, PollAction,
    UltradriveState,
};
use crate::location::{
    dumps_wf, law_patched_reads_back, read_byte, same_cell, skeleton_location, Dumps,
    LocationTables,
};

verus! {

/// Taking the bytes of `a` and then those of `b` leaves the controller as
/// taking the bytes of `a + b` at once: how the bus delivers the bytes in
/// chunks does not matter.
pub proof fn law_feed_concat(s: UltradriveState, a: Seq<u8>, b: Seq<u8>, now: u64)
    ensures
        feed(s, a + b, now) == feed(feed(s, a, now), b, now),
    decreases b.len(),
{
    if b.len() == 0 {
        assert(a + b =~= a);
    } else {
        assert((a + b).drop_last() =~= a + b.drop_last());
        assert((a + b).last() == b.last());
        law_feed_concat(s, a, b.drop_last(), now);
    }
}

/// The reader state while the first `k` bytes of the clean frame `f` are in.
pub open spec fn partial_reader(r: Framing, f: Seq<u8>, k: int) -> Framing {
    Framing {
        reading_command: true,
        serial_read: k as usize,
        serial_buffer: f.take(k) + r.serial_buffer.skip(k),
    }
}

/// The first `k` bytes of `f` open a frame: a start byte, then bytes that
/// are neither a start byte nor the terminator.
pub open spec fn opens_frame(f: Seq<u8>, k: int) -> bool {
    &&& 1 <= k <= f.len()
    &&& f[0] == COMMAND_START
    &&& forall|i: int| 0 < i < k ==> #[trigger] f[i] != COMMAND_START && f[i] != TERMINATOR
}

/// While a frame that fits the buffer comes in, only the reader changes,
/// and it holds the bytes received so far.
proof fn lemma_feed_frame_prefix(s: UltradriveState, f: Seq<u8>, k: int, now: u64)
    requires
        s.reader.wf(),
        opens_frame(f, k),
        k <= PART_0_LENGTH,
    ensures
        feed(s, f.take(k), now) == (UltradriveState { reader: partial_reader(s.reader, f, k), ..s }),
    decreases k,
{
    if k == 1 {
        let one = f.take(1);
        assert(one.drop_last() =~= Seq::<u8>::empty());
        assert(one.last() == COMMAND_START);
        assert(!frame_completes(s.reader, COMMAND_START));
        assert(frame_step(s.reader, COMMAND_START) =~= partial_reader(s.reader, f, 1));
        assert(feed(s, one.drop_last(), now) == s);
        assert(receive_byte(s, COMMAND_START, now) =~= (UltradriveState {
            reader: partial_reader(s.reader, f, 1),
            ..s
        }));
    } else {
        lemma_feed_frame_prefix(s, f, k - 1, now);
        let p = f.take(k);
        assert(p.drop_last() =~= f.take(k - 1));
        let b = f[k - 1];
        assert(p.last() == b);
        assert(b != COMMAND_START && b != TERMINATOR);
        let r = partial_reader(s.reader, f, k - 1);
        assert(!frame_completes(r, b));
        assert(frame_step(r, b) =~= partial_reader(s.reader, f, k));
        let prev = UltradriveState { reader: r, ..s };
        assert(feed(s, p, now) == receive_byte(prev, b, now));
        assert(receive_byte(prev, b, now) =~= (UltradriveState {
            reader: partial_reader(s.reader, f, k),
            ..s
        }));
    }
}

/// The reader state right after the clean frame `f` closed.
pub open spec fn closed_reader(r: Framing, f: Seq<u8>) -> Framing {
    Framing {
        reading_command: false,
        serial_read: f.len() as usize,
        serial_buffer: f + r.serial_buffer.skip(f.len() as int),
    }
}

/// Whatever the controller was in the middle of, a clean frame that fits
/// the buffer is taken whole: the controller acts on exactly that frame.
pub proof fn law_clean_frame_received(s: UltradriveState, f: Seq<u8>, now: u64)
    requires
        s.reader.wf(),
        is_clean_frame(f),
        f.len() <= PART_0_LENGTH,
    ensures
        feed(s, f, now) == frame_effect(
            UltradriveState { reader: closed_reader(s.reader, f), ..s },
            now,
        ),
{
    let n = f.len() as int;
    assert(opens_frame(f, n - 1));
    lemma_feed_frame_prefix(s, f, n - 1, now);
    assert(f.drop_last() =~= f.take(n - 1));
    let r = partial_reader(s.reader, f, n - 1);
    assert(frame_completes(r, TERMINATOR));
    assert(frame_step(r, TERMINATOR) =~= closed_reader(s.reader, f));
}

/// The reader after a frame ran past the buffer: no frame open, the
/// buffer holding the first bytes of the dropped frame.
pub open spec fn dropped_reader(f: Seq<u8>) -> Framing {
    Framing {
        reading_command: false,
        serial_read: 0,
        serial_buffer: f.take(PART_0_LENGTH as int),
    }
}

/// Past the buffer's end, bytes of an over-long frame up to the next start
/// byte change nothing.
proof fn lemma_feed_overlong(s: UltradriveState, f: Seq<u8>, k: int, now: u64)
    requires
        s.reader.wf(),
        opens_frame(f, PART_0_LENGTH as int),
        PART_0_LENGTH < k <= f.len(),
        forall|i: int| PART_0_LENGTH <= i < f.len() ==> #[trigger] f[i] != COMMAND_START,
    ensures
        feed(s, f.take(k), now) == (UltradriveState { reader: dropped_reader(f), ..s }),
    decreases k,
{
    let p = f.take(k);
    assert(p.drop_last() =~= f.take(k - 1));
    let b = f[k - 1];
    assert(p.last() == b);
    assert(b != COMMAND_START);
    let d = UltradriveState { reader: dropped_reader(f), ..s };
    if k == PART_0_LENGTH + 1 {
        lemma_feed_frame_prefix(s, f, PART_0_LENGTH as int, now);
        let r = partial_reader(s.reader, f, PART_0_LENGTH as int);
        assert(r.serial_buffer =~= f.take(PART_0_LENGTH as int));
        assert(!frame_completes(r, b));
        assert(frame_step(r, b) =~= dropped_reader(f));
        let prev = UltradriveState { reader: r, ..s };
        assert(feed(s, p, now) == receive_byte(prev, b, now));
        assert(receive_byte(prev, b, now) =~= d);
    } else {
        lemma_feed_overlong(s, f, k - 1, now);
        assert(!frame_completes(dropped_reader(f), b));
        assert(frame_step(dropped_reader(f), b) =~= dropped_reader(f));
        assert(feed(s, p, now) == receive_byte(d, b, now));
        assert(receive_byte(d, b, now) =~= d);
    }
}

/// A frame that still has no terminator when the buffer is full is
/// dropped: it changes no dump, device or status answer, and the bytes
/// after it are ignored until the next start byte. Only the reader's own
/// buffer keeps its first bytes.
pub proof fn law_overlong_frame_dropped(s: UltradriveState, f: Seq<u8>, now: u64)
    requires
        s.reader.wf(),
        f.len() > PART_0_LENGTH,
        opens_frame(f, PART_0_LENGTH as int),
        forall|i: int| PART_0_LENGTH <= i < f.len() ==> #[trigger] f[i] != COMMAND_START,
    ensures
        feed(s, f, now) == (UltradriveState { reader: dropped_reader(f), ..s }),
{
    lemma_feed_overlong(s, f, f.len() as int, now);
    assert(f.take(f.len() as int) =~= f);
}

/// A status answer read from the bus is what `write_device_status` gives
/// back afterwards.
pub proof fn law_ping_response_stored(s: UltradriveState, f: Seq<u8>, now: u64)
    requires
        s.reader.wf(),
        is_clean_frame(f),
        f.len() == PING_RESPONSE_LENGTH,
        f[6] == PING_RESPONSE,
    ensures
        feed(s, f, now).ping_response == f,
        feed(s, f, now) == (UltradriveState {
            reader: closed_reader(s.reader, f),
            ping_response: f,
            ..s
        }),
{
    law_clean_frame_received(s, f, now);
    let buf = closed_reader(s.reader, f).serial_buffer;
    assert(buf[6] == f[6]);
    assert(buf.take(PING_RESPONSE_LENGTH as int) =~= f);
    assert(has_vendor_header(buf));
}

/// A search answer of device `id` read from the bus records the device as
/// responsive with that answer; `write_devices` at the same instant lists it.
pub proof fn law_search_response_stored(s: UltradriveState, f: Seq<u8>, now: u64)
    requires
        s.reader.wf(),
        is_clean_frame(f),
        f.len() == SEARCH_RESPONSE_LENGTH,
        f[6] == SEARCH_RESPONSE,
        f[4] < MAX_DEVICES,
        s.devices.len() == MAX_DEVICES,
    ensures
        feed(s, f, now).devices[f[4] as int] == (DeviceState {
            last_response: Some(now),
            response: f,
        }),
        responsive(feed(s, f, now).devices[f[4] as int], now),
{
    law_clean_frame_received(s, f, now);
    let buf = closed_reader(s.reader, f).serial_buffer;
    assert(buf[6] == f[6]);
    assert(buf[4] == f[4]);
    assert(buf.take(SEARCH_RESPONSE_LENGTH as int) =~= f);
    assert(has_vendor_header(buf));
}

/// The second dump part read from the bus while the mirror is not stale is
/// what `write_device` gives back as its second part.
pub proof fn law_dump_part_1_stored(s: UltradriveState, f: Seq<u8>, now: u64)
    requires
        s.reader.wf(),
        is_clean_frame(f),
        f.len() == PART_1_LENGTH,
        f[6] == DUMP_RESPONSE,
        f[12] == 1,
        !s.invalidate_sync,
    ensures
        feed(s, f, now).dump1 == f,
        feed(s, f, now).dump0 == s.dump0,
{
    law_clean_frame_received(s, f, now);
    let buf = closed_reader(s.reader, f).serial_buffer;
    assert(buf[6] == f[6]);
    assert(buf[12] == f[12]);
    assert(buf.take(PART_1_LENGTH as int) =~= f);
    assert(has_vendor_header(buf));
}

/// The first dump part read from the bus while the mirror is not stale is
/// what `write_device` gives back as its first part.
pub proof fn law_dump_part_0_stored(s: UltradriveState, f: Seq<u8>, now: u64)
    requires
        s.reader.wf(),
        is_clean_frame(f),
        f.len() == PART_0_LENGTH,
        f[6] == DUMP_RESPONSE,
        f[12] == 0,
        !s.invalidate_sync,
    ensures
        feed(s, f, now).dump0 == f,
        feed(s, f, now).dump1 == s.dump1,
{
    law_clean_frame_received(s, f, now);
    let buf = closed_reader(s.reader, f).serial_buffer;
    assert(buf[6] == f[6]);
    assert(buf[12] == f[12]);
    assert(buf.take(PART_0_LENGTH as int) =~= f);
    assert(has_vendor_header(buf));
}

/// After a parameter change was sent, the dump answers in flight are
/// stale: a first part is dropped, and the next second part is dropped and
/// ends the stale period.
pub proof fn law_stale_dump_dropped(s: UltradriveState, f: Seq<u8>, now: u64)
    requires
        s.reader.wf(),
        is_clean_frame(f),
        f.len() > 12,
        f.len() <= PART_0_LENGTH,
        f[6] == DUMP_RESPONSE,
        f[12] == 0 || f[12] == 1,
        s.invalidate_sync,
    ensures
        feed(s, f, now).dump0 == s.dump0,
        feed(s, f, now).dump1 == s.dump1,
        feed(s, f, now).invalidate_sync == (f[12] == 0),
{
    law_clean_frame_received(s, f, now);
    let buf = closed_reader(s.reader, f).serial_buffer;
    assert(buf[6] == f[6]);
    assert(buf[12] == f[12]);
    assert(has_vendor_header(buf));
}

/// The changes of a direct command depend only on the bytes they occupy.
proof fn lemma_apply_direct_prefix(
    t: LocationTables,
    d: Dumps,
    b1: Seq<u8>,
    b2: Seq<u8>,
    count: nat,
)
    requires
        forall|i: int| 0 <= i < 4 * count + 8 ==> b1[i] == b2[i],
    ensures
        apply_direct(t, d, b1, count) == apply_direct(t, d, b2, count),
    decreases count,
{
    if count > 0 {
        lemma_apply_direct_prefix(t, d, b1, b2, (count - 1) as nat);
        let o = 4 * (count - 1);
        assert(b1[8 + o] == b2[8 + o]);
        assert(b1[9 + o] == b2[9 + o]);
        assert(b1[10 + o] == b2[10 + o]);
        assert(b1[11 + o] == b2[11 + o]);
    }
}

/// A direct command patches the mirror in the same way whether it is sent
/// to the device or read back from the bus.
pub proof fn law_direct_command_echo(s: UltradriveState, f: Seq<u8>, now: u64)
    requires
        s.reader.wf(),
        is_clean_frame(f),
        f.len() <= PART_0_LENGTH,
        f[6] == DIRECT_COMMAND,
        outgoing_safe(f),
    ensures
        feed(s, f, now).dumps() == outgoing_effect(s, f).dumps(),
        outgoing_effect(s, f).invalidate_sync,
{
    law_clean_frame_received(s, f, now);
    let buf = closed_reader(s.reader, f).serial_buffer;
    assert(buf[6] == f[6]);
    assert(buf[7] == f[7]);
    assert(has_vendor_header(buf));
    let count = f[7] as nat;
    assert forall|i: int| 0 <= i < 4 * count + 8 implies buf[i] == f[i] by {
        assert(i < f.len());
    }
    lemma_apply_direct_prefix(s.locations, s.dumps(), buf, f, count);
}

/// Taking bytes from the bus never changes whether a poll is the first one.
proof fn lemma_feed_keeps_first_run(s: UltradriveState, bytes: Seq<u8>, now: u64)
    ensures
        feed(s, bytes, now).is_first_run == s.is_first_run,
    decreases bytes.len(),
{
    if bytes.len() > 0 {
        lemma_feed_keeps_first_run(s, bytes.drop_last(), now);
    }
}

/// The first round after a port is attached sends a search, whatever
/// arrived from the bus.
pub proof fn law_new_port_searches_first(s: UltradriveState, bytes: Seq<u8>, now: u64)
    ensures
        poll(feed(port_attached(s), bytes, now), now).1 == PollAction::Search,
        action_frames(poll(feed(port_attached(s), bytes, now), now).1) == seq![search_frame()],
{
    lemma_feed_keeps_first_run(port_attached(s), bytes, now);
}

/// A search is sent at most once per search interval: a poll less than
/// the interval after the last search does not send another.
pub proof fn law_search_rate(s: UltradriveState, now: u64, t: u64)
    requires
        !s.is_first_run,
        s.last_search == Some(t),
        t <= now < t + SEARCH_INTERVAL,
    ensures
        poll(s, now).1 != PollAction::Search,
        poll(s, now).0.last_search == Some(t),
{
}

/// A ping is sent at most once per ping interval: a poll less than the
/// interval after the last ping does not send another.
pub proof fn law_ping_rate(s: UltradriveState, now: u64, p: u64)
    requires
        s.last_ping == Some(p),
        p <= now < p + PING_INTERVAL,
    ensures
        !(poll(s, now).1 is Ping),
{
}

/// A poll never repeats itself at the same instant: right after a poll
/// sent a search, a second poll at the same time sends none.
pub proof fn law_no_repeat_search(s: UltradriveState, now: u64)
    requires
        poll(s, now).1 == PollAction::Search,
    ensures
        poll(poll(s, now).0, now).1 != PollAction::Search,
{
}

/// The controller's own requests, read back from the bus (as an echo),
/// change nothing but the frame splitter.
pub proof fn law_own_requests_ignored(s: UltradriveState, id: u8, part: u8, now: u64)
    requires
        s.reader.wf(),
        id < 0x80,
        part < 0x80,
    ensures
        feed(s, search_frame(), now) == (UltradriveState {
            reader: closed_reader(s.reader, search_frame()),
            ..s
        }),
        feed(s, ping_frame(id), now) == (UltradriveState {
            reader: closed_reader(s.reader, ping_frame(id)),
            ..s
        }),
        feed(s, dump_frame(id, part), now) == (UltradriveState {
            reader: closed_reader(s.reader, dump_frame(id, part)),
            ..s
        }),
        feed(s, transmit_mode_frame(id), now) == (UltradriveState {
            reader: closed_reader(s.reader, transmit_mode_frame(id)),
            ..s
        }),
{
    lemma_request_frames_clean(id, part);
    law_clean_frame_received(s, search_frame(), now);
    law_clean_frame_received(s, ping_frame(id), now);
    law_clean_frame_received(s, dump_frame(id, part), now);
    law_clean_frame_received(s, transmit_mode_frame(id), now);
    assert(closed_reader(s.reader, search_frame()).serial_buffer[6] == 0x40u8);
    assert(closed_reader(s.reader, ping_frame(id)).serial_buffer[6] == 0x44u8);
    assert(closed_reader(s.reader, dump_frame(id, part)).serial_buffer[6] == 0x50u8);
    assert(closed_reader(s.reader, transmit_mode_frame(id)).serial_buffer[6] == 0x3Fu8);
}

/// The first poll sends a search and records its time.
pub proof fn law_poll_first_searches(s: UltradriveState, now: u64)
    requires
        s.is_first_run,
    ensures
        poll(s, now).1 == PollAction::Search,
        poll(s, now).0 == (UltradriveState { is_first_run: false, last_search: Some(now), ..s }),
{
}

/// A search is sent again once 5000 ms passed since the last one (or if
/// none was recorded), before anything else; only its time is recorded.
pub proof fn law_poll_search_recurs(s: UltradriveState, now: u64, a: u64)
    requires
        !s.is_first_run,
        s.last_search == Some(a) && a + 5000 <= now || s.last_search is None,
    ensures
        poll(s, now).1 == PollAction::Search,
        poll(s, now).0 == (UltradriveState { last_search: Some(now), ..s }),
{
}

/// While no search is due, the selected device is pinged once 1000 ms
/// passed since the last ping (or if none was recorded); only the ping's
/// time is recorded.
pub proof fn law_poll_ping_recurs(s: UltradriveState, now: u64, a: u64, b: u64)
    requires
        !s.is_first_run,
        s.last_search == Some(a),
        a <= now < a + 5000,
        s.last_ping == Some(b) && b + 1000 <= now || s.last_ping is None,
    ensures
        poll(s, now).1 == PollAction::Ping(s.selected_device as u8),
        poll(s, now).0 == (UltradriveState { last_ping: Some(now), ..s }),
{
}

/// While no search or ping is due, the selected device is resynchronised
/// (transmit mode and both dump parts) once 5000 ms passed since the last
/// resynchronisation (or if none was recorded), provided it answered a
/// search less than 20000 ms ago; only the resynchronisation's time is
/// recorded. So the resynchronisation recurs every interval.
pub proof fn law_poll_resync_recurs(s: UltradriveState, now: u64, a: u64, b: u64, t: u64, r: u64)
    requires
        s.wf(),
        !s.is_first_run,
        s.last_search == Some(a),
        a <= now < a + 5000,
        s.last_ping == Some(b),
        b <= now < b + 1000,
        s.devices[s.selected_device as int].last_response == Some(t),
        t <= now < t + 20000,
        s.last_resync == Some(r) && r + 5000 <= now || s.last_resync is None,
    ensures
        poll(s, now).1 == PollAction::Sync(s.selected_device as u8),
        poll(s, now).0 == (UltradriveState { last_resync: Some(now), ..s }),
{
}

/// Less than 5000 ms after a resynchronisation, with no search or ping
/// due, a poll does nothing and changes nothing.
pub proof fn law_poll_idle_after_resync(s: UltradriveState, now: u64, a: u64, b: u64, r: u64)
    requires
        !s.is_first_run,
        s.last_search == Some(a),
        a <= now < a + 5000,
        s.last_ping == Some(b),
        b <= now < b + 1000,
        s.last_resync == Some(r),
        r <= now < r + 5000,
    ensures
        poll(s, now).1 == PollAction::Idle,
        poll(s, now).0 == s,
{
}

/// A selected device that never answered a search, or last answered 20000
/// ms or more ago, is never resynchronised: with no search or ping due, a
/// poll does nothing and changes nothing.
pub proof fn law_poll_silent_device_not_synced(s: UltradriveState, now: u64, a: u64, b: u64)
    requires
        s.wf(),
        !s.is_first_run,
        s.last_search == Some(a),
        a <= now < a + 5000,
        s.last_ping == Some(b),
        b <= now < b + 1000,
        match s.devices[s.selected_device as int].last_response {
            None => true,
            Some(t) => t + 20000 <= now,
        },
    ensures
        poll(s, now).1 == PollAction::Idle,
        poll(s, now).0 == s,
{
}

/// The frames each poll action sends, byte by byte.
pub proof fn law_action_frames(id: u8)
    ensures
        action_frames(PollAction::Idle).len() == 0,
        action_frames(PollAction::Search) == seq![
            seq![0xF0u8, 0x00u8, 0x20u8, 0x32u8, 0x20u8, 0x0Eu8, 0x40u8, 0xF7u8]
        ],
        action_frames(PollAction::Ping(id)) == seq![
            seq![0xF0u8, 0x00u8, 0x20u8, 0x32u8, id, 0x0Eu8, 0x44u8, 0x00u8, 0x00u8, 0xF7u8]
        ],
        action_frames(PollAction::Sync(id)) == seq![
            seq![0xF0u8, 0x00u8, 0x20u8, 0x32u8, id, 0x0Eu8, 0x3Fu8, 0x0Cu8, 0x00u8, 0xF7u8],
            seq![0xF0u8, 0x00u8, 0x20u8, 0x32u8, id, 0x0Eu8, 0x50u8, 0x01u8, 0x00u8, 0x00u8, 0xF7u8],
            seq![0xF0u8, 0x00u8, 0x20u8, 0x32u8, id, 0x0Eu8, 0x50u8, 0x01u8, 0x00u8, 0x01u8, 0xF7u8],
        ],
{
}

/// Sending a frame changes the controller only for a vendor direct
/// command: then the mirror is marked stale and only the dumps change
/// besides. Any other frame, vendor or not, leaves every field as it was.
pub proof fn law_outgoing_only_direct_changes(s: UltradriveState, data: Seq<u8>)
    ensures
        !(data.len() >= 5 && has_vendor_header(data) && data[6] == DIRECT_COMMAND)
            ==> outgoing_effect(s, data) == s,
        data.len() >= 5 && has_vendor_header(data) && data[6] == DIRECT_COMMAND ==> ({
            let r = outgoing_effect(s, data);
            &&& r.invalidate_sync
            &&& r.devices == s.devices && r.ping_response == s.ping_response
            &&& r.last_resync == s.last_resync && r.last_ping == s.last_ping && r.last_search
                == s.last_search
            &&& r.selected_device == s.selected_device && r.is_first_run == s.is_first_run
            &&& r.reader == s.reader && r.port_active == s.port_active && r.locations
                == s.locations
        }),
{
    assert(COMMAND_BYTE == 6);
}

/// A new port starts from a clean slate: both dumps and the status answer
/// are all zero bytes of their fixed lengths, no device is known, and the
/// next poll is the first; the selection, the frame splitter, the stale
/// mark and the location tables are kept.
pub proof fn law_new_port_clears(s: UltradriveState)
    ensures
        ({
            let r = port_attached(s);
            &&& r.port_active && r.is_first_run
            &&& r.last_search is None && r.last_ping is None && r.last_resync is None
            &&& r.dump0.len() == PART_0_LENGTH && r.dump1.len() == PART_1_LENGTH
            &&& r.ping_response.len() == PING_RESPONSE_LENGTH
            &&& forall|i: int| 0 <= i < PART_0_LENGTH ==> #[trigger] r.dump0[i] == 0
            &&& forall|i: int| 0 <= i < PART_1_LENGTH ==> #[trigger] r.dump1[i] == 0
            &&& forall|i: int| 0 <= i < PING_RESPONSE_LENGTH ==> #[trigger] r.ping_response[i] == 0
            &&& r.devices.len() == MAX_DEVICES
            &&& forall|i: int| 0 <= i < MAX_DEVICES ==> (#[trigger] r.devices[i]).last_response
                is None
            &&& r.selected_device == s.selected_device && r.reader == s.reader
            &&& r.invalidate_sync == s.invalidate_sync && r.locations == s.locations
        }),
{
}

/// What a received frame may change. Whatever the frame, the splitter,
/// the timers, the selection, the port and the tables stay. The stale mark
/// changes only when a second dump part arrives while it is set, and then
/// it is cleared without storing anything. The status answer changes only
/// to a 25-byte status frame; the device list only for a 26-byte search
/// answer of an id below 16, at that id. The second dump changes only for a
/// 911-byte second part while the mirror is not stale, or for a direct
/// command; the first dump likewise for a 1015-byte first part, or a
/// direct command. A direct command from the device changes nothing but
/// the dumps.
pub proof fn law_frame_effect_scope(s: UltradriveState, now: u64)
    ensures
        ({
            let r = frame_effect(s, now);
            let buf = s.reader.serial_buffer;
            let n = s.reader.serial_read;
            let vendor = n >= 5 && has_vendor_header(buf);
            let command = buf[6];
            &&& r.reader == s.reader && r.last_resync == s.last_resync && r.last_ping
                == s.last_ping && r.last_search == s.last_search
            &&& r.selected_device == s.selected_device && r.is_first_run == s.is_first_run
            &&& r.port_active == s.port_active && r.locations == s.locations
            &&& r.invalidate_sync != s.invalidate_sync ==> vendor && command == DUMP_RESPONSE
                && buf[12] == 1 && s.invalidate_sync && !r.invalidate_sync && r.dump0 == s.dump0
                && r.dump1 == s.dump1
            &&& r.ping_response != s.ping_response ==> vendor && command == PING_RESPONSE && n
                == PING_RESPONSE_LENGTH && r.ping_response == buf.take(25)
            &&& r.devices != s.devices ==> vendor && command == SEARCH_RESPONSE && n
                == SEARCH_RESPONSE_LENGTH && buf[4] < MAX_DEVICES && r.devices == s.devices.update(
                buf[4] as int,
                DeviceState { last_response: Some(now), response: buf.take(26) },
            )
            &&& r.dump0 != s.dump0 ==> vendor && ((command == DUMP_RESPONSE && buf[12] == 0
                && !s.invalidate_sync && n == PART_0_LENGTH && r.dump0 == buf.take(1015))
                || command == DIRECT_COMMAND)
            &&& r.dump1 != s.dump1 ==> vendor && ((command == DUMP_RESPONSE && buf[12] == 1
                && !s.invalidate_sync && n == PART_1_LENGTH && r.dump1 == buf.take(911))
                || command == DIRECT_COMMAND)
            &&& vendor && command == DIRECT_COMMAND ==> r.invalidate_sync == s.invalidate_sync
                && r.devices == s.devices && r.ping_response == s.ping_response
        }),
{
    assert(COMMAND_BYTE == 6 && PART_BYTE == 12 && ID_BYTE == 4);
}

/// A device counts as present while fewer than 20000 ms passed since its
/// last search answer (an answer stamped later than `now` counts as just
/// received); a device that never answered is absent. `write_devices` and
/// the resynchronisation go by this.
pub proof fn law_responsive_window(d: DeviceState, now: u64)
    ensures
        responsive(d, now) == match d.last_response {
            None => false,
            Some(t) => now < t + 20000,
        },
{
    assert(TIMEOUT_TIME == 20000);
}

/// A direct command with one change writes it where the location tables
/// put (channel, parameter) = (byte 8, byte 9): the low byte is byte 11,
/// the middle bit is bit 0 of byte 10 and the high byte is byte 10 shifted
/// right once (when the three places are distinct); a parameter without a
/// location leaves the dumps as they were.
pub proof fn law_direct_change_written(t: LocationTables, d: Dumps, buf: Seq<u8>)
    requires
        t.wf(),
        dumps_wf(d),
        buf.len() >= 12,
    ensures
        skeleton_location(t, buf[8], buf[9]) is None ==> apply_direct(t, d, buf, 1) == d,
        skeleton_location(t, buf[8], buf[9]) matches Some(l) ==> {
            let r = apply_direct(t, d, buf, 1);
            &&& !(l.middle.byte >= 0 && same_cell(l.low.part, l.low.byte, l.middle.part, l.middle.byte))
                && !(l.high.byte >= 0 && same_cell(l.low.part, l.low.byte, l.high.part, l.high.byte))
                ==> read_byte(r, l.low.part, l.low.byte) == buf[11]
            &&& l.high.byte >= 0 ==> read_byte(r, l.high.part, l.high.byte) == buf[10] >> 1
            &&& l.middle.byte >= 0 && !(l.high.byte >= 0 && same_cell(
                l.middle.part,
                l.middle.byte,
                l.high.part,
                l.high.byte,
            )) ==> (read_byte(r, l.middle.part, l.middle.byte) >> (l.middle.index as u32)) & 1 == (
            if buf[10] & 1 != 0 {
                1u8
            } else {
                0u8
            })
        },
{
    assert(apply_direct(t, d, buf, 0) == d);
    match skeleton_location(t, buf[8], buf[9]) {
        Some(l) => {
            crate::location::lemma_skeleton_location_valid(t, buf[8], buf[9]);
            law_patched_reads_back(d, buf[11], buf[10], l, l.low.part, l.low.byte);
        },
        None => {},
    }
}

} // verus!
