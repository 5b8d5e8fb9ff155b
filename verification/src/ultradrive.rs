//! The controller of one serial bus with DCX2496 devices on it.
//!
//! The controller keeps a mirror of the selected device's state (two dump
//! parts), the last status answer, and the search answers of every device
//! id. It turns the bytes that arrive from the bus into updates of that
//! mirror, decides when to search, ping and resynchronise, and patches the
//! mirror when parameter changes are sent to the device.
use vstd::prelude::*;
use crate::protocol::{
    dump_frame, dump_request, has_vendor_header, ping_frame, ping_request, search_frame,
    search_request, transmit_mode_frame, transmit_mode_request, COMMAND_BYTE, DIRECT_COMMAND,
    DUMP_RESPONSE, ID_BYTE, MAX_DEVICES, PARAM_COUNT_BYTE, PART_0_LENGTH, PART_1_LENGTH,
    PART_BYTE, PING_INTERVAL, PING_RESPONSE, PING_RESPONSE_LENGTH, RESYNC_INTERVAL,
    SEARCH_INTERVAL, SEARCH_RESPONSE, SEARCH_RESPONSE_LENGTH, TIMEOUT_TIME, CHANNEL_BYTE,
    PARAM_BYTE, VALUE_HI_BYTE, VALUE_LOW_BYTE,
};
use crate::location::{
    lemma_patched_wf, lemma_skeleton_location_valid, patched, skeleton_patched, DataLocation, Dumps, LocationTables, ParamLocations,
};
use crate::reader::{
    direct_fits, frame_completes, frame_step, initial_framing, zeros, FrameReader,
    Framing, stream_safe, framing_after,
};

verus! {

/// What is known of one device id on the bus.
#[verifier::ext_equal]
pub struct DeviceState {
    /// When the device last answered a search, in milliseconds.
    pub last_response: Option<u64>,
    /// Its last search answer.
    pub response: Seq<u8>,
}

/// The state of the controller.
#[verifier::ext_equal]
pub struct UltradriveState {
    pub devices: Seq<DeviceState>,
    pub dump0: Seq<u8>,
    pub dump1: Seq<u8>,
    pub ping_response: Seq<u8>,
    pub last_resync: Option<u64>,
    pub last_ping: Option<u64>,
    pub last_search: Option<u64>,
    pub selected_device: usize,
    /// A parameter change was sent since the last full dump: the next dump
    /// answer is stale.
    pub invalidate_sync: bool,
    pub is_first_run: bool,
    pub reader: Framing,
    /// A serial port is attached.
    pub port_active: bool,
    pub locations: LocationTables,
}

/// A device slot that never answered.
pub open spec fn empty_device() -> DeviceState {
    DeviceState {
        last_response: None,
        response: Seq::new(SEARCH_RESPONSE_LENGTH as nat, |i: int| 0u8),
    }
}

/// `n` zero bytes.
pub open spec fn zero_bytes(n: nat) -> Seq<u8> {
    Seq::new(n, |i: int| 0u8)
}

impl UltradriveState {
    /// Every buffer has its fixed length, the selected device is one of the
    /// slots, and the location tables are well formed.
    pub open spec fn wf(self) -> bool {
        &&& self.devices.len() == MAX_DEVICES
        &&& forall|i: int|
            0 <= i < self.devices.len() ==> (#[trigger] self.devices[i]).response.len()
                == SEARCH_RESPONSE_LENGTH
        &&& self.dump0.len() == PART_0_LENGTH
        &&& self.dump1.len() == PART_1_LENGTH
        &&& self.ping_response.len() == PING_RESPONSE_LENGTH
        &&& self.selected_device < MAX_DEVICES
        &&& self.reader.wf()
        &&& self.locations.wf()
    }

    /// The two dump parts.
    pub open spec fn dumps(self) -> Dumps {
        (self.dump0, self.dump1)
    }

    /// The state with the two dump parts replaced.
    pub open spec fn with_dumps(self, d: Dumps) -> UltradriveState {
        UltradriveState { dump0: d.0, dump1: d.1, ..self }
    }
}

/// A fresh controller.
pub open spec fn initial_state(port_active: bool, locations: LocationTables) -> UltradriveState {
    UltradriveState {
        devices: Seq::new(MAX_DEVICES as nat, |i: int| empty_device()),
        dump0: zero_bytes(PART_0_LENGTH as nat),
        dump1: zero_bytes(PART_1_LENGTH as nat),
        ping_response: zero_bytes(PING_RESPONSE_LENGTH as nat),
        last_resync: None,
        last_ping: None,
        last_search: None,
        selected_device: 0,
        invalidate_sync: false,
        is_first_run: true,
        reader: initial_framing(),
        port_active,
        locations,
    }
}

/// The dumps after the first `count` parameter changes of the direct
/// command in `buf`: change `i` is (channel, parameter, high, low) at
/// positions `8 + 4 * i` to `11 + 4 * i`.
pub open spec fn apply_direct(t: LocationTables, d: Dumps, buf: Seq<u8>, count: nat) -> Dumps
    decreases count,
{
    if count == 0 {
        d
    } else {
        let prev = apply_direct(t, d, buf, (count - 1) as nat);
        let o = 4 * (count - 1);
        skeleton_patched(
            t,
            prev,
            buf[CHANNEL_BYTE + o],
            buf[PARAM_BYTE + o],
            buf[VALUE_HI_BYTE + o],
            buf[VALUE_LOW_BYTE + o],
        )
    }
}

/// The effect of the frame now in the reader's buffer (of
/// `reader.serial_read` bytes) on the rest of the state.
pub open spec fn frame_effect(s: UltradriveState, now: u64) -> UltradriveState {
    let buf = s.reader.serial_buffer;
    let n = s.reader.serial_read;
    let command = buf[COMMAND_BYTE as int];
    if n < 5 || !has_vendor_header(buf) {
        s
    } else if command == SEARCH_RESPONSE {
        let id = buf[ID_BYTE as int];
        if n == SEARCH_RESPONSE_LENGTH && id < MAX_DEVICES {
            UltradriveState {
                devices: s.devices.update(
                    id as int,
                    DeviceState {
                        last_response: Some(now),
                        response: buf.take(SEARCH_RESPONSE_LENGTH as int),
                    },
                ),
                ..s
            }
        } else {
            s
        }
    } else if command == DUMP_RESPONSE {
        let part = buf[PART_BYTE as int];
        if part == 0 {
            if !s.invalidate_sync && n == PART_0_LENGTH {
                UltradriveState { dump0: buf.take(PART_0_LENGTH as int), ..s }
            } else {
                s
            }
        } else if part == 1 {
            if s.invalidate_sync {
                UltradriveState { invalidate_sync: false, ..s }
            } else if n == PART_1_LENGTH {
                UltradriveState { dump1: buf.take(PART_1_LENGTH as int), ..s }
            } else {
                s
            }
        } else {
            s
        }
    } else if command == PING_RESPONSE {
        if n == PING_RESPONSE_LENGTH {
            UltradriveState { ping_response: buf.take(PING_RESPONSE_LENGTH as int), ..s }
        } else {
            s
        }
    } else if command == DIRECT_COMMAND {
        s.with_dumps(
            apply_direct(s.locations, s.dumps(), buf, buf[PARAM_COUNT_BYTE as int] as nat),
        )
    } else {
        s
    }
}

/// The state after byte `b` arrives at time `now`.
pub open spec fn receive_byte(s: UltradriveState, b: u8, now: u64) -> UltradriveState {
    let s2 = UltradriveState { reader: frame_step(s.reader, b), ..s };
    if frame_completes(s.reader, b) {
        frame_effect(s2, now)
    } else {
        s2
    }
}

/// The state after every byte of `bytes` arrives, in order, at time `now`.
pub open spec fn feed(s: UltradriveState, bytes: Seq<u8>, now: u64) -> UltradriveState
    decreases bytes.len(),
{
    if bytes.len() == 0 {
        s
    } else {
        receive_byte(feed(s, bytes.drop_last(), now), bytes.last(), now)
    }
}

/// What the controller sends on one poll.
pub enum PollAction {
    /// Nothing.
    Idle,
    /// A search for devices.
    Search,
    /// A ping of the given device.
    Ping(u8),
    /// Transmit mode and both dump parts of the given device.
    Sync(u8),
}

/// Milliseconds from `t` to `now`, or zero when `t` is later.
pub open spec fn elapsed(now: u64, t: u64) -> int {
    if now >= t {
        now - t
    } else {
        0
    }
}

/// At least `interval` milliseconds passed since `last`, or it never happened.
pub open spec fn due(last: Option<u64>, now: u64, interval: u64) -> bool {
    match last {
        None => true,
        Some(t) => elapsed(now, t) >= interval,
    }
}

/// The device answered a search less than the timeout ago.
pub open spec fn responsive(d: DeviceState, now: u64) -> bool {
    match d.last_response {
        None => false,
        Some(t) => elapsed(now, t) < TIMEOUT_TIME,
    }
}

/// The state and the action of one poll at time `now`: the first poll and
/// every due search come first, then a due ping of the selected device,
/// then a due resynchronisation of the selected device if it is responsive.
pub open spec fn poll(s: UltradriveState, now: u64) -> (UltradriveState, PollAction) {
    if s.is_first_run {
        (
            UltradriveState { is_first_run: false, last_search: Some(now), ..s },
            PollAction::Search,
        )
    } else if due(s.last_search, now, SEARCH_INTERVAL) {
        (UltradriveState { last_search: Some(now), ..s }, PollAction::Search)
    } else if due(s.last_ping, now, PING_INTERVAL) {
        (UltradriveState { last_ping: Some(now), ..s }, PollAction::Ping(s.selected_device as u8))
    } else if due(s.last_resync, now, RESYNC_INTERVAL) && responsive(
        s.devices[s.selected_device as int],
        now,
    ) {
        (
            UltradriveState { last_resync: Some(now), ..s },
            PollAction::Sync(s.selected_device as u8),
        )
    } else {
        (s, PollAction::Idle)
    }
}

/// The frames an action sends, in order.
pub open spec fn action_frames(a: PollAction) -> Seq<Seq<u8>> {
    match a {
        PollAction::Idle => seq![],
        PollAction::Search => seq![search_frame()],
        PollAction::Ping(id) => seq![ping_frame(id)],
        PollAction::Sync(id) => seq![transmit_mode_frame(id), dump_frame(id, 0), dump_frame(id, 1)],
    }
}

/// The contents of a list of frames.
pub open spec fn frames_view(v: Seq<Vec<u8>>) -> Seq<Seq<u8>> {
    v.map_values(|f: Vec<u8>| f@)
}

/// The search answers of the responsive devices, in order of id.
pub open spec fn live_responses(ds: Seq<DeviceState>, now: u64) -> Seq<u8>
    decreases ds.len(),
{
    if ds.len() == 0 {
        seq![]
    } else {
        live_responses(ds.drop_last(), now) + if responsive(ds.last(), now) {
            ds.last().response
        } else {
            seq![]
        }
    }
}

/// `data` can be sent without reading past its end: a vendor frame must
/// hold its command byte, and a direct command its count and every change
/// it announces.
pub open spec fn outgoing_safe(data: Seq<u8>) -> bool {
    data.len() >= 5 && has_vendor_header(data) ==> {
        &&& data.len() > COMMAND_BYTE
        &&& data[COMMAND_BYTE as int] == DIRECT_COMMAND ==> data.len() > PARAM_COUNT_BYTE
            && direct_fits(data.len() as int, data[PARAM_COUNT_BYTE as int])
    }
}

/// The state after `data` is sent: a vendor direct command marks the
/// mirror as stale and patches it with every change it carries; anything
/// else leaves the state as it was.
pub open spec fn outgoing_effect(s: UltradriveState, data: Seq<u8>) -> UltradriveState {
    if data.len() >= 5 && has_vendor_header(data) && data[COMMAND_BYTE as int] == DIRECT_COMMAND {
        UltradriveState {
            invalidate_sync: true,
            ..s.with_dumps(
                apply_direct(s.locations, s.dumps(), data, data[PARAM_COUNT_BYTE as int] as nat),
            )
        }
    } else {
        s
    }
}

/// The state after a new serial port is attached: polling starts over,
/// every device is forgotten and the mirror is cleared.
pub open spec fn port_attached(s: UltradriveState) -> UltradriveState {
    UltradriveState {
        port_active: true,
        is_first_run: true,
        last_search: None,
        last_ping: None,
        last_resync: None,
        devices: Seq::new(MAX_DEVICES as nat, |i: int| empty_device()),
        dump0: zero_bytes(PART_0_LENGTH as nat),
        dump1: zero_bytes(PART_1_LENGTH as nat),
        ping_response: zero_bytes(PING_RESPONSE_LENGTH as nat),
        ..s
    }
}

/// One device slot.
struct Device {
    last_response: Option<u64>,
    response: Vec<u8>,
}

impl View for Device {
    type V = DeviceState;

    closed spec fn view(&self) -> DeviceState {
        DeviceState { last_response: self.last_response, response: self.response@ }
    }
}

impl Default for Device {
    fn default() -> (r: Device)
        ensures
            r@ == empty_device(),
    {
        Device { last_response: None, response: zeros(SEARCH_RESPONSE_LENGTH) }
    }
}

/// The controller.
pub struct Ultradrive {
    devices: Vec<Device>,
    dump0: Vec<u8>,
    dump1: Vec<u8>,
    ping_response: Vec<u8>,
    last_resync: Option<u64>,
    last_ping: Option<u64>,
    last_search: Option<u64>,
    selected_device: usize,
    invalidate_sync: bool,
    is_first_run: bool,
    reader: FrameReader,
    port_active: bool,
    locations: ParamLocations,
}

impl View for Ultradrive {
    type V = UltradriveState;

    closed spec fn view(&self) -> UltradriveState {
        UltradriveState {
            devices: devices_view(self.devices@),
            dump0: self.dump0@,
            dump1: self.dump1@,
            ping_response: self.ping_response@,
            last_resync: self.last_resync,
            last_ping: self.last_ping,
            last_search: self.last_search,
            selected_device: self.selected_device,
            invalidate_sync: self.invalidate_sync,
            is_first_run: self.is_first_run,
            reader: self.reader@,
            port_active: self.port_active,
            locations: self.locations@,
        }
    }
}

/// The contents of the device slots.
spec fn devices_view(v: Seq<Device>) -> Seq<DeviceState> {
    v.map_values(|d: Device| d@)
}

/// A fresh set of device slots.
fn empty_devices() -> (r: Vec<Device>)
    ensures
        devices_view(r@) == Seq::new(MAX_DEVICES as nat, |i: int| empty_device()),
{
    let mut r: Vec<Device> = Vec::new();
    let mut i: usize = 0;
    while i < MAX_DEVICES
        invariant
            i <= MAX_DEVICES,
            r@.len() == i,
            devices_view(r@) == Seq::new(i as nat, |k: int| empty_device()),
        decreases MAX_DEVICES - i,
    {
        let ghost prev = r@;
        let d = Device::default();
        r.push(d);
        i = i + 1;
        assert forall|k: int| 0 <= k < i implies #[trigger] devices_view(r@)[k]
            == empty_device() by {
            if k < i - 1 {
                assert(r@[k] == prev[k]);
                assert(devices_view(prev)[k] == empty_device());
            }
        }
        assert(devices_view(r@) =~= Seq::new(i as nat, |k: int| empty_device()));
    }
    r
}

impl Ultradrive {
    /// A controller with no device known, an empty mirror, and the given
    /// location tables; `port_active` tells whether a port is attached.
    pub fn new(port_active: bool, locations: ParamLocations) -> (r: Ultradrive)
        requires
            locations@.wf(),
        ensures
            r@ == initial_state(port_active, locations@),
            r@.wf(),
    {
        let r = Ultradrive {
            devices: empty_devices(),
            dump0: zeros(PART_0_LENGTH),
            dump1: zeros(PART_1_LENGTH),
            ping_response: zeros(PING_RESPONSE_LENGTH),
            last_resync: None,
            last_ping: None,
            last_search: None,
            selected_device: 0,
            invalidate_sync: false,
            is_first_run: true,
            reader: FrameReader::new(),
            port_active,
            locations,
        };
        assert(r@ =~= initial_state(port_active, locations@));
        r
    }
}

impl Ultradrive {
    /// Writes the value (`low`, `high`) at location `l` of the mirror.
    pub fn patch_buffer(&mut self, low: u8, high: u8, l: DataLocation)
        requires
            old(self)@.wf(),
            l.valid(),
        ensures
            final(self)@ == old(self)@.with_dumps(patched(old(self)@.dumps(), low, high, l)),
            final(self)@.wf(),
    {
        let ghost d0 = old(self)@.dumps();
        if l.low.part == 0 {
            self.dump0.set(l.low.byte as usize, low);
        } else {
            self.dump1.set(l.low.byte as usize, low);
        }
        let ghost d1 = (self.dump0@, self.dump1@);
        assert(d1 =~= crate::location::write_byte(d0, l.low.part, l.low.byte, low));
        if l.middle.byte >= 0 {
            let mask: u8 = 1u8 << (l.middle.index as u32);
            let at = l.middle.byte as usize;
            if l.middle.part == 0 {
                let old_byte = self.dump0[at];
                let new_byte = if high & 1 != 0 {
                    old_byte | mask
                } else {
                    old_byte & !mask
                };
                self.dump0.set(at, new_byte);
            } else {
                let old_byte = self.dump1[at];
                let new_byte = if high & 1 != 0 {
                    old_byte | mask
                } else {
                    old_byte & !mask
                };
                self.dump1.set(at, new_byte);
            }
        }
        let ghost d2 = (self.dump0@, self.dump1@);
        if l.high.byte >= 0 {
            if l.high.part == 0 {
                self.dump0.set(l.high.byte as usize, high >> 1);
            } else {
                self.dump1.set(l.high.byte as usize, high >> 1);
            }
        }
        proof {
            lemma_patched_wf(d0, low, high, l);
            assert((self.dump0@, self.dump1@) =~= patched(d0, low, high, l));
            assert(self@ =~= old(self)@.with_dumps(patched(d0, low, high, l)));
        }
    }
}

impl Ultradrive {
    /// Applies one parameter change (channel, parameter, high, low) to the
    /// mirror, if the parameter has a location.
    fn patch_buffer_skeleton(&mut self, channel: u8, param: u8, high: u8, low: u8)
        requires
            old(self)@.wf(),
        ensures
            final(self)@ == old(self)@.with_dumps(
                skeleton_patched(old(self)@.locations, old(self)@.dumps(), channel, param, high, low),
            ),
            final(self)@.wf(),
    {
        let found = self.locations.lookup(channel, param);
        match found {
            Some(l) => {
                proof {
                    lemma_skeleton_location_valid(self@.locations, channel, param);
                }
                self.patch_buffer(low, high, l);
            },
            None => {
                assert(self@ =~= old(self)@.with_dumps(old(self)@.dumps()));
            },
        }
    }

    /// Applies the changes of the direct command now in the reader's buffer.
    fn apply_received_direct(&mut self)
        requires
            old(self)@.wf(),
            direct_fits(
                PART_0_LENGTH as int,
                old(self)@.reader.serial_buffer[PARAM_COUNT_BYTE as int],
            ),
        ensures
            final(self)@ == old(self)@.with_dumps(
                apply_direct(
                    old(self)@.locations,
                    old(self)@.dumps(),
                    old(self)@.reader.serial_buffer,
                    old(self)@.reader.serial_buffer[PARAM_COUNT_BYTE as int] as nat,
                ),
            ),
            final(self)@.wf(),
    {
        let ghost s0 = self@;
        let ghost buf = self@.reader.serial_buffer;
        let count = self.reader.byte(PARAM_COUNT_BYTE) as usize;
        let mut i: usize = 0;
        assert(self@ =~= s0.with_dumps(apply_direct(s0.locations, s0.dumps(), buf, 0)));
        while i < count
            invariant
                i <= count,
                count == buf[PARAM_COUNT_BYTE as int],
                direct_fits(PART_0_LENGTH as int, count as u8),
                s0.wf(),
                buf == s0.reader.serial_buffer,
                self@.wf(),
                self@ == s0.with_dumps(apply_direct(s0.locations, s0.dumps(), buf, i as nat)),
            decreases count - i,
        {
            let o = 4 * i;
            let channel = self.reader.byte(CHANNEL_BYTE + o);
            let param = self.reader.byte(PARAM_BYTE + o);
            let high = self.reader.byte(VALUE_HI_BYTE + o);
            let low = self.reader.byte(VALUE_LOW_BYTE + o);
            self.patch_buffer_skeleton(channel, param, high, low);
            i = i + 1;
            assert(self@ =~= s0.with_dumps(apply_direct(s0.locations, s0.dumps(), buf, i as nat)));
        }
    }

    /// Acts on the frame that the reader just closed.
    fn handle_frame(&mut self, now: u64)
        requires
            old(self)@.wf(),
            !crate::reader::frame_faults(old(self)@.reader),
        ensures
            final(self)@ == frame_effect(old(self)@, now),
            final(self)@.wf(),
    {
        let n = self.reader.frame_len();
        if n < 5 {
            return;
        }
        let header = self.reader.byte(0) == 0xF0 && self.reader.byte(1) == 0x00
            && self.reader.byte(2) == 0x20 && self.reader.byte(3) == 0x32;
        if !header {
            return;
        }
        let command = self.reader.byte(COMMAND_BYTE);
        if command == SEARCH_RESPONSE {
            if n == SEARCH_RESPONSE_LENGTH {
                let id = self.reader.byte(ID_BYTE) as usize;
                if id < MAX_DEVICES {
                    let response = self.reader.take(SEARCH_RESPONSE_LENGTH);
                    let ghost before = self.devices@;
                    self.devices.set(id, Device { last_response: Some(now), response });
                    proof {
                        assert(devices_view(self.devices@) =~= devices_view(before).update(
                            id as int,
                            DeviceState {
                                last_response: Some(now),
                                response: old(self)@.reader.serial_buffer.take(
                                    SEARCH_RESPONSE_LENGTH as int,
                                ),
                            },
                        ));
                        assert(self@ =~= frame_effect(old(self)@, now));
                    }
                }
            }
        } else if command == DUMP_RESPONSE {
            let part = self.reader.byte(PART_BYTE);
            if part == 0 {
                if !self.invalidate_sync && n == PART_0_LENGTH {
                    self.dump0 = self.reader.take(PART_0_LENGTH);
                    assert(self@ =~= frame_effect(old(self)@, now));
                }
            } else if part == 1 {
                if self.invalidate_sync {
                    self.invalidate_sync = false;
                    assert(self@ =~= frame_effect(old(self)@, now));
                } else if n == PART_1_LENGTH {
                    self.dump1 = self.reader.take(PART_1_LENGTH);
                    assert(self@ =~= frame_effect(old(self)@, now));
                }
            }
        } else if command == PING_RESPONSE {
            if n == PING_RESPONSE_LENGTH {
                self.ping_response = self.reader.take(PING_RESPONSE_LENGTH);
                assert(self@ =~= frame_effect(old(self)@, now));
            }
        } else if command == DIRECT_COMMAND {
            self.apply_received_direct();
        }
    }

    /// Takes one byte from the bus, received at time `now`; the byte must not
    /// close a frame whose handling would read past the frame buffer.
    pub fn read_commands(&mut self, b: u8, now: u64)
        requires
            old(self)@.wf(),
            !crate::reader::byte_faults(old(self)@.reader, b),
        ensures
            final(self)@ == receive_byte(old(self)@, b, now),
            final(self)@.wf(),
    {
        let complete = self.reader.push(b);
        assert(self@ =~= UltradriveState { reader: frame_step(old(self)@.reader, b), ..old(self)@ });
        if complete {
            self.handle_frame(now);
        }
    }
}

/// The state after the bytes of `received`, one by one, is the state after
/// all of them; in particular its reader is the splitter after them.
pub proof fn lemma_feed_reader(s: UltradriveState, bytes: Seq<u8>, now: u64)
    ensures
        feed(s, bytes, now).reader == framing_after(s.reader, bytes),
    decreases bytes.len(),
{
    if bytes.len() > 0 {
        lemma_feed_reader(s, bytes.drop_last(), now);
    }
}

/// Whether `interval` milliseconds passed since `last` (or it never happened).
fn is_due(last: Option<u64>, now: u64, interval: u64) -> (r: bool)
    ensures
        r == due(last, now, interval),
{
    match last {
        None => true,
        Some(t) => if now >= t {
            now - t >= interval
        } else {
            0 >= interval
        },
    }
}

/// Appends the bytes of `src` to `buf`.
fn append_bytes(buf: &mut Vec<u8>, src: &Vec<u8>)
    ensures
        final(buf)@ == old(buf)@ + src@,
{
    let ghost start = buf@;
    let mut i: usize = 0;
    while i < src.len()
        invariant
            i <= src@.len(),
            buf@ == start + src@.take(i as int),
        decreases src@.len() - i,
    {
        buf.push(src[i]);
        i = i + 1;
        assert(buf@ =~= start + src@.take(i as int));
    }
    assert(src@.take(src@.len() as int) =~= src@);
}

impl Ultradrive {
    /// One round of the controller at time `now`, given the bytes
    /// `received` from the bus since the last round. Without a port nothing
    /// happens. Otherwise every byte is taken in order, then the poll
    /// decides what to send; the frames to write to the port, in order, are
    /// returned.
    pub fn process_incoming(&mut self, received: &[u8], now: u64) -> (frames: Vec<Vec<u8>>)
        requires
            old(self)@.wf(),
            old(self)@.port_active ==> stream_safe(old(self)@.reader, received@),
        ensures
            final(self)@.wf(),
            !old(self)@.port_active ==> final(self)@ == old(self)@ && frames@.len() == 0,
            old(self)@.port_active ==> final(self)@ == poll(feed(old(self)@, received@, now), now).0,
            old(self)@.port_active ==> frames_view(frames@) == action_frames(
                poll(feed(old(self)@, received@, now), now).1,
            ),
    {
        if !self.port_active {
            return Vec::new();
        }
        let ghost s0 = self@;
        let mut i: usize = 0;
        assert(received@.take(0) =~= Seq::<u8>::empty());
        while i < received.len()
            invariant
                i <= received@.len(),
                s0.wf(),
                s0.port_active,
                stream_safe(s0.reader, received@),
                self@.wf(),
                self@ == feed(s0, received@.take(i as int), now),
            decreases received@.len() - i,
        {
            proof {
                lemma_feed_reader(s0, received@.take(i as int), now);
                assert(!crate::reader::byte_faults(
                    framing_after(s0.reader, received@.take(i as int)),
                    received@[i as int],
                ));
            }
            self.read_commands(received[i], now);
            i = i + 1;
            assert(received@.take(i as int).drop_last() =~= received@.take(i - 1));
        }
        assert(received@.take(received@.len() as int) =~= received@);
        let ghost fed = self@;
        let mut frames: Vec<Vec<u8>> = Vec::new();
        if self.is_first_run {
            self.is_first_run = false;
            self.last_search = Some(now);
            frames.push(search_request());
        } else if is_due(self.last_search, now, SEARCH_INTERVAL) {
            self.last_search = Some(now);
            frames.push(search_request());
        } else if is_due(self.last_ping, now, PING_INTERVAL) {
            self.last_ping = Some(now);
            frames.push(ping_request(self.selected_device as u8));
        } else if is_due(self.last_resync, now, RESYNC_INTERVAL) {
            let sel = self.selected_device;
            let answered = self.devices[sel].last_response;
            assert(fed.devices[sel as int] == self.devices@[sel as int]@);
            match answered {
                Some(t) => {
                    let recent = if now >= t {
                        now - t < TIMEOUT_TIME
                    } else {
                        true
                    };
                    if recent {
                        self.last_resync = Some(now);
                        let id = sel as u8;
                        frames.push(transmit_mode_request(id));
                        frames.push(dump_request(id, 0));
                        frames.push(dump_request(id, 1));
                    }
                },
                None => {},
            }
        }
        assert(self@ =~= poll(fed, now).0);
        assert(frames_view(frames@) =~= action_frames(poll(fed, now).1));
        frames
    }

    /// Whether feeding `received` to `process_incoming` would close a frame
    /// whose handling reads past the frame buffer.
    pub fn incoming_faults(&self, received: &[u8]) -> (r: bool)
        requires
            self@.wf(),
        ensures
            r == (self@.port_active && !stream_safe(self@.reader, received@)),
    {
        self.port_active && self.reader.stream_faults(received)
    }

    /// Takes a frame that is about to be sent to the device. A vendor direct
    /// command marks the mirror stale and patches it. Returns whether the
    /// frame is to be written to the port: a vendor frame while a port is
    /// attached.
    pub fn process_outgoing(&mut self, data: &[u8]) -> (forward: bool)
        requires
            old(self)@.wf(),
            outgoing_safe(data@),
        ensures
            final(self)@.wf(),
            final(self)@ == outgoing_effect(old(self)@, data@),
            forward == (old(self)@.port_active && data@.len() >= 5 && has_vendor_header(data@)),
    {
        if data.len() < 5 || !(data[0] == 0xF0 && data[1] == 0x00 && data[2] == 0x20 && data[3]
            == 0x32) {
            return false;
        }
        let command = data[COMMAND_BYTE];
        if command == DIRECT_COMMAND {
            self.invalidate_sync = true;
            let ghost s0 = self@;
            let count = data[PARAM_COUNT_BYTE] as usize;
            let mut i: usize = 0;
            assert(self@ =~= s0.with_dumps(apply_direct(s0.locations, s0.dumps(), data@, 0)));
            while i < count
                invariant
                    i <= count,
                    count == data@[PARAM_COUNT_BYTE as int],
                    direct_fits(data@.len() as int, count as u8),
                    s0.wf(),
                    self@.wf(),
                    self@ == s0.with_dumps(apply_direct(s0.locations, s0.dumps(), data@, i as nat)),
                decreases count - i,
            {
                let o = 4 * i;
                let channel = data[CHANNEL_BYTE + o];
                let param = data[PARAM_BYTE + o];
                let high = data[VALUE_HI_BYTE + o];
                let low = data[VALUE_LOW_BYTE + o];
                self.patch_buffer_skeleton(channel, param, high, low);
                i = i + 1;
                assert(self@ =~= s0.with_dumps(
                    apply_direct(s0.locations, s0.dumps(), data@, i as nat),
                ));
            }
            assert(self@ =~= outgoing_effect(old(self)@, data@));
        }
        self.port_active
    }

    /// Whether `process_outgoing` would read past the end of `data`.
    pub fn outgoing_faults(data: &[u8]) -> (r: bool)
        ensures
            r == !outgoing_safe(data@),
    {
        if data.len() < 5 || !(data[0] == 0xF0 && data[1] == 0x00 && data[2] == 0x20 && data[3]
            == 0x32) {
            return false;
        }
        if data.len() <= COMMAND_BYTE {
            return true;
        }
        if data[COMMAND_BYTE] != DIRECT_COMMAND {
            return false;
        }
        if data.len() <= PARAM_COUNT_BYTE {
            return true;
        }
        let count = data[PARAM_COUNT_BYTE] as usize;
        !(count == 0 || 4 * count + 7 < data.len())
    }

    /// A new serial port is attached: polling starts over, every device is
    /// forgotten and the mirror is cleared.
    pub fn set_port(&mut self)
        requires
            old(self)@.wf(),
        ensures
            final(self)@ == port_attached(old(self)@),
            final(self)@.wf(),
    {
        self.port_active = true;
        self.is_first_run = true;
        self.last_search = None;
        self.last_ping = None;
        self.last_resync = None;
        self.devices = empty_devices();
        self.dump0 = zeros(PART_0_LENGTH);
        self.dump1 = zeros(PART_1_LENGTH);
        self.ping_response = zeros(PING_RESPONSE_LENGTH);
        assert(self@ =~= port_attached(old(self)@));
    }

    /// The serial port is detached; nothing else changes.
    pub fn close_port(&mut self)
        requires
            old(self)@.wf(),
        ensures
            final(self)@ == (UltradriveState { port_active: false, ..old(self)@ }),
            final(self)@.wf(),
    {
        self.port_active = false;
        assert(self@ =~= (UltradriveState { port_active: false, ..old(self)@ }));
    }

    /// Whether a serial port is attached.
    pub fn get_port_active(&self) -> (r: bool)
        ensures
            r == self@.port_active,
    {
        self.port_active
    }

    /// The search request, to be written when a port is attached.
    pub fn search(&self) -> (r: Option<Vec<u8>>)
        ensures
            r is Some == self@.port_active,
            r matches Some(f) ==> f@ == search_frame(),
    {
        if self.port_active {
            Some(search_request())
        } else {
            None
        }
    }

    /// The ping request for `device_id`, to be written when a port is attached.
    pub fn ping(&self, device_id: u8) -> (r: Option<Vec<u8>>)
        ensures
            r is Some == self@.port_active,
            r matches Some(f) ==> f@ == ping_frame(device_id),
    {
        if self.port_active {
            Some(ping_request(device_id))
        } else {
            None
        }
    }

    /// The request for dump part `part` of `device_id`, to be written when a
    /// port is attached.
    pub fn dump(&self, device_id: u8, part: u8) -> (r: Option<Vec<u8>>)
        ensures
            r is Some == self@.port_active,
            r matches Some(f) ==> f@ == dump_frame(device_id, part),
    {
        if self.port_active {
            Some(dump_request(device_id, part))
        } else {
            None
        }
    }

    /// The transmit-mode request for `device_id`, to be written when a port
    /// is attached.
    pub fn set_transmit_mode(&self, device_id: u8) -> (r: Option<Vec<u8>>)
        ensures
            r is Some == self@.port_active,
            r matches Some(f) ==> f@ == transmit_mode_frame(device_id),
    {
        if self.port_active {
            Some(transmit_mode_request(device_id))
        } else {
            None
        }
    }

    /// Appends the whole mirror, both dump parts, to `buf`.
    pub fn write_device(&self, buf: &mut Vec<u8>)
        requires
            self@.wf(),
        ensures
            final(buf)@ == old(buf)@ + self@.dump0 + self@.dump1,
            final(buf)@.len() == old(buf)@.len() + PART_0_LENGTH + PART_1_LENGTH,
    {
        append_bytes(buf, &self.dump0);
        append_bytes(buf, &self.dump1);
    }

    /// Appends the last status answer to `buf`.
    pub fn write_device_status(&self, buf: &mut Vec<u8>)
        requires
            self@.wf(),
        ensures
            final(buf)@ == old(buf)@ + self@.ping_response,
            final(buf)@.len() == old(buf)@.len() + PING_RESPONSE_LENGTH,
    {
        append_bytes(buf, &self.ping_response);
    }

    /// Appends the search answers of the devices that answered less than
    /// the timeout before `now`, in order of id.
    pub fn write_devices(&self, buf: &mut Vec<u8>, now: u64)
        requires
            self@.wf(),
        ensures
            final(buf)@ == old(buf)@ + live_responses(self@.devices, now),
    {
        let ghost start = buf@;
        let ghost ds = self@.devices;
        let mut i: usize = 0;
        assert(ds.take(0) =~= Seq::<DeviceState>::empty());
        assert(start + live_responses(ds.take(0), now) =~= start);
        while i < self.devices.len()
            invariant
                i <= self.devices@.len(),
                ds == self@.devices,
                ds.len() == self.devices@.len(),
                buf@ == start + live_responses(ds.take(i as int), now),
            decreases self.devices@.len() - i,
        {
            let device = &self.devices[i];
            assert(ds[i as int] == device@);
            assert(ds.take(i + 1).drop_last() =~= ds.take(i as int));
            match device.last_response {
                Some(t) => {
                    let recent = if now >= t {
                        now - t < TIMEOUT_TIME
                    } else {
                        true
                    };
                    if recent {
                        append_bytes(buf, &device.response);
                    }
                },
                None => {},
            }
            i = i + 1;
            assert(buf@ =~= start + live_responses(ds.take(i as int), now));
        }
        assert(ds.take(ds.len() as int) =~= ds);
    }

    /// Selects `device_id` when it is one of the device slots; otherwise
    /// nothing changes.
    pub fn set_selected(&mut self, device_id: usize)
        requires
            old(self)@.wf(),
        ensures
            final(self)@ == (if device_id < MAX_DEVICES {
                UltradriveState { selected_device: device_id, ..old(self)@ }
            } else {
                old(self)@
            }),
            final(self)@.wf(),
    {
        if device_id < MAX_DEVICES {
            self.selected_device = device_id;
            assert(self@ =~= UltradriveState { selected_device: device_id, ..old(self)@ });
        }
    }

    /// The selected device.
    pub fn get_selected(&self) -> (r: usize)
        ensures
            r == self@.selected_device,
    {
        self.selected_device
    }
}

} // verus!
