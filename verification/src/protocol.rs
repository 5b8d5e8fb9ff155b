//! Constants of the DCX2496 serial protocol and the request frames the
//! controller sends.
//!
//! Every frame is a vendor SysEx message: it starts with `COMMAND_START`,
//! carries the four-byte vendor header, and ends with `TERMINATOR`.
use vstd::prelude::*;

verus! {

/// Number of device ids that can share the serial bus.
pub const MAX_DEVICES: usize = 16;

/// Milliseconds between two pings of the selected device.
pub const PING_INTERVAL: u64 = 1000;

/// Milliseconds after its last answer when a device counts as gone.
pub const TIMEOUT_TIME: u64 = 20000;

/// Milliseconds between two searches for devices.
pub const SEARCH_INTERVAL: u64 = 5000;

/// Milliseconds between two full state dumps of the selected device.
pub const RESYNC_INTERVAL: u64 = 5000;

/// Length of the answer to a search request.
pub const SEARCH_RESPONSE_LENGTH: usize = 26;

/// Length of the answer to a ping.
pub const PING_RESPONSE_LENGTH: usize = 25;

/// Length of the first part of a state dump; also the longest frame read.
pub const PART_0_LENGTH: usize = 1015;

/// Length of the second part of a state dump.
pub const PART_1_LENGTH: usize = 911;

/// Command byte of a search answer.
pub const SEARCH_RESPONSE: u8 = 0;

/// Command byte of a ping answer.
pub const PING_RESPONSE: u8 = 4;

/// Command byte of a state dump part.
pub const DUMP_RESPONSE: u8 = 16;

/// Command byte of a frame of direct parameter changes.
pub const DIRECT_COMMAND: u8 = 32;

/// Position of the device id in a frame.
pub const ID_BYTE: usize = 4;

/// Position of the command byte in a frame.
pub const COMMAND_BYTE: usize = 6;

/// Position of the number of parameter changes in a direct command.
pub const PARAM_COUNT_BYTE: usize = 7;

/// Position of the channel of the first parameter change.
pub const CHANNEL_BYTE: usize = 8;

/// Position of the parameter of the first parameter change.
pub const PARAM_BYTE: usize = 9;

/// Position of the part number in a dump request.
pub const DUMP_PART_BYTE: usize = 9;

/// Position of the high value byte of the first parameter change.
pub const VALUE_HI_BYTE: usize = 10;

/// Position of the low value byte of the first parameter change.
pub const VALUE_LOW_BYTE: usize = 11;

/// Position of the part number in a dump answer.
pub const PART_BYTE: usize = 12;

/// First byte of every frame.
pub const COMMAND_START: u8 = 240;

/// Last byte of every frame.
pub const TERMINATOR: u8 = 247;

/// `s` begins with the vendor header.
pub open spec fn has_vendor_header(s: Seq<u8>) -> bool {
    s.len() >= 4 && s[0] == 0xF0u8 && s[1] == 0x00u8 && s[2] == 0x20u8 && s[3] == 0x32u8
}

/// Broadcast request asking every device on the bus to identify itself.
pub open spec fn search_frame() -> Seq<u8> {
    seq![0xF0u8, 0x00u8, 0x20u8, 0x32u8, 0x20u8, 0x0Eu8, 0x40u8, TERMINATOR]
}

/// Request for the status of device `id`.
pub open spec fn ping_frame(id: u8) -> Seq<u8> {
    seq![0xF0u8, 0x00u8, 0x20u8, 0x32u8, id, 0x0Eu8, 0x44u8, 0x00u8, 0x00u8, TERMINATOR]
}

/// Request for part `part` of the state of device `id`.
pub open spec fn dump_frame(id: u8, part: u8) -> Seq<u8> {
    seq![0xF0u8, 0x00u8, 0x20u8, 0x32u8, id, 0x0Eu8, 0x50u8, 0x01u8, 0x00u8, part, TERMINATOR]
}

/// Request that device `id` reports every parameter change it makes.
pub open spec fn transmit_mode_frame(id: u8) -> Seq<u8> {
    seq![0xF0u8, 0x00u8, 0x20u8, 0x32u8, id, 0x0Eu8, 0x3Fu8, 0x0Cu8, 0x00u8, TERMINATOR]
}

/// `f` is a single SysEx frame of the device: it starts with the vendor
/// header, ends with the terminator, and neither the start byte nor the
/// terminator occurs in between.
pub open spec fn is_clean_frame(f: Seq<u8>) -> bool {
    &&& f.len() >= 5
    &&& has_vendor_header(f)
    &&& f.last() == TERMINATOR
    &&& forall|i: int| 0 < i < f.len() - 1 ==> #[trigger] f[i] != COMMAND_START && f[i] != TERMINATOR
}

/// Every request frame is a clean vendor frame, as long as the id and part
/// bytes are data bytes (below 0x80, as SysEx requires).
pub proof fn lemma_request_frames_clean(id: u8, part: u8)
    requires
        id < 0x80,
        part < 0x80,
    ensures
        is_clean_frame(search_frame()),
        is_clean_frame(ping_frame(id)),
        is_clean_frame(dump_frame(id, part)),
        is_clean_frame(transmit_mode_frame(id)),
{
}

/// Builds a frame from its bytes.
fn frame_of(bytes: &[u8]) -> (r: Vec<u8>)
    ensures
        r@ == bytes@,
{
    let mut r: Vec<u8> = Vec::new();
    let mut i: usize = 0;
    while i < bytes.len()
        invariant
            i <= bytes@.len(),
            r@ == bytes@.take(i as int),
        decreases bytes@.len() - i,
    {
        r.push(bytes[i]);
        i = i + 1;
        assert(r@ =~= bytes@.take(i as int));
    }
    assert(bytes@.take(bytes@.len() as int) =~= bytes@);
    r
}

/// The search request.
pub fn search_request() -> (r: Vec<u8>)
    ensures
        r@ == search_frame(),
{
    let r = frame_of(&[0xF0, 0x00, 0x20, 0x32, 0x20, 0x0E, 0x40, TERMINATOR]);
    assert(r@ =~= search_frame());
    r
}

/// The ping request for device `device_id`.
pub fn ping_request(device_id: u8) -> (r: Vec<u8>)
    ensures
        r@ == ping_frame(device_id),
{
    let r = frame_of(&[0xF0, 0x00, 0x20, 0x32, device_id, 0x0E, 0x44, 0x00, 0x00, TERMINATOR]);
    assert(r@ =~= ping_frame(device_id));
    r
}

/// The request for dump part `part` of device `device_id`.
pub fn dump_request(device_id: u8, part: u8) -> (r: Vec<u8>)
    ensures
        r@ == dump_frame(device_id, part),
{
    let r = frame_of(
        &[0xF0, 0x00, 0x20, 0x32, device_id, 0x0E, 0x50, 0x01, 0x00, part, TERMINATOR],
    );
    assert(r@ =~= dump_frame(device_id, part));
    r
}

/// The request that switches device `device_id` to transmit mode.
pub fn transmit_mode_request(device_id: u8) -> (r: Vec<u8>)
    ensures
        r@ == transmit_mode_frame(device_id),
{
    let r = frame_of(&[0xF0, 0x00, 0x20, 0x32, device_id, 0x0E, 0x3F, 0x0C, 0x00, TERMINATOR]);
    assert(r@ =~= transmit_mode_frame(device_id));
    r
}

} // verus!
