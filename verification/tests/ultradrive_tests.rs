use duinodcx::location::{DataLocation, HighByte, LowByte, MiddleBit, ParamLocations};
use duinodcx::protocol::{
    dump_request, ping_request, search_request, transmit_mode_request, PART_0_LENGTH,
    PART_1_LENGTH, PING_RESPONSE_LENGTH, SEARCH_RESPONSE_LENGTH,
};
use duinodcx::ultradrive::Ultradrive;

fn fresh() -> Ultradrive {
    Ultradrive::new(true, ParamLocations::empty())
}

/// A vendor frame of `len` bytes with the given id and command byte; the
/// other data bytes are `fill`.
fn frame(len: usize, id: u8, command: u8, fill: u8) -> Vec<u8> {
    let mut f = vec![fill; len];
    f[0] = 0xF0;
    f[1] = 0x00;
    f[2] = 0x20;
    f[3] = 0x32;
    f[4] = id;
    f[5] = 0x0E;
    f[6] = command;
    f[len - 1] = 0xF7;
    f
}

fn dump_part(len: usize, part: u8, fill: u8) -> Vec<u8> {
    let mut f = frame(len, 0, 16, fill);
    f[12] = part;
    f
}

fn mirror(u: &Ultradrive) -> Vec<u8> {
    let mut buf = Vec::new();
    u.write_device(&mut buf);
    buf
}

fn status(u: &Ultradrive) -> Vec<u8> {
    let mut buf = Vec::new();
    u.write_device_status(&mut buf);
    buf
}

fn devices(u: &Ultradrive, now: u64) -> Vec<u8> {
    let mut buf = Vec::new();
    u.write_devices(&mut buf, now);
    buf
}

fn loc(low: (i32, i32), middle: (i32, i32, i32), high: (i32, i32)) -> DataLocation {
    DataLocation {
        low: LowByte { part: low.0, byte: low.1 },
        middle: MiddleBit { part: middle.0, byte: middle.1, index: middle.2 },
        high: HighByte { part: high.0, byte: high.1 },
    }
}

#[test]
fn request_frames_have_their_bytes() {
    assert_eq!(search_request(), vec![0xF0, 0x00, 0x20, 0x32, 0x20, 0x0E, 0x40, 0xF7]);
    assert_eq!(ping_request(3), vec![0xF0, 0x00, 0x20, 0x32, 3, 0x0E, 0x44, 0x00, 0x00, 0xF7]);
    assert_eq!(
        dump_request(2, 1),
        vec![0xF0, 0x00, 0x20, 0x32, 2, 0x0E, 0x50, 0x01, 0x00, 1, 0xF7]
    );
    assert_eq!(
        transmit_mode_request(5),
        vec![0xF0, 0x00, 0x20, 0x32, 5, 0x0E, 0x3F, 0x0C, 0x00, 0xF7]
    );
}

#[test]
fn requests_only_with_a_port() {
    let with = fresh();
    assert_eq!(with.search(), Some(search_request()));
    assert_eq!(with.ping(4), Some(ping_request(4)));
    assert_eq!(with.dump(4, 0), Some(dump_request(4, 0)));
    assert_eq!(with.set_transmit_mode(4), Some(transmit_mode_request(4)));
    let without = Ultradrive::new(false, ParamLocations::empty());
    assert_eq!(without.search(), None);
    assert_eq!(without.ping(4), None);
    assert_eq!(without.dump(4, 1), None);
    assert_eq!(without.set_transmit_mode(4), None);
}

#[test]
fn fresh_controller_has_empty_mirror() {
    let u = fresh();
    assert_eq!(u.get_selected(), 0);
    assert!(u.get_port_active());
    assert_eq!(mirror(&u), vec![0u8; PART_0_LENGTH + PART_1_LENGTH]);
    assert_eq!(status(&u), vec![0u8; PING_RESPONSE_LENGTH]);
    assert!(devices(&u, 0).is_empty());
}

#[test]
fn write_device_appends_to_existing_bytes() {
    let u = fresh();
    let mut buf = vec![7u8, 8];
    u.write_device(&mut buf);
    assert_eq!(buf.len(), 2 + PART_0_LENGTH + PART_1_LENGTH);
    assert_eq!(&buf[..2], &[7, 8]);
}

#[test]
fn poll_schedule_search_ping_idle() {
    let mut u = fresh();
    assert_eq!(u.process_incoming(&[], 1000), vec![search_request()]);
    assert_eq!(u.process_incoming(&[], 1010), vec![ping_request(0)]);
    assert!(u.process_incoming(&[], 1020).is_empty());
    // The ping interval has passed, but not the search interval.
    assert_eq!(u.process_incoming(&[], 2010), vec![ping_request(0)]);
    // The search interval has passed.
    assert_eq!(u.process_incoming(&[], 6000), vec![search_request()]);
}

#[test]
fn poll_without_port_does_nothing() {
    let mut u = Ultradrive::new(false, ParamLocations::empty());
    let ping = frame(PING_RESPONSE_LENGTH, 0, 4, 1);
    assert!(u.process_incoming(&ping, 0).is_empty());
    assert!(u.process_incoming(&[], 100000).is_empty());
    assert_eq!(status(&u), vec![0u8; PING_RESPONSE_LENGTH]);
}

#[test]
fn responsive_selected_device_is_synced() {
    let mut u = fresh();
    let answer = frame(SEARCH_RESPONSE_LENGTH, 0, 0, 0x11);
    assert_eq!(u.process_incoming(&answer, 0), vec![search_request()]);
    assert_eq!(u.process_incoming(&[], 1), vec![ping_request(0)]);
    assert_eq!(
        u.process_incoming(&[], 2),
        vec![transmit_mode_request(0), dump_request(0, 0), dump_request(0, 1)]
    );
    assert!(u.process_incoming(&[], 3).is_empty());
}

#[test]
fn unresponsive_selected_device_is_not_synced() {
    let mut u = fresh();
    u.set_selected(3);
    let answer = frame(SEARCH_RESPONSE_LENGTH, 0, 0, 0x11);
    assert_eq!(u.process_incoming(&answer, 0), vec![search_request()]);
    assert_eq!(u.process_incoming(&[], 1), vec![ping_request(3)]);
    assert!(u.process_incoming(&[], 2).is_empty());
}

#[test]
fn ping_response_is_stored() {
    let mut u = fresh();
    let answer = frame(PING_RESPONSE_LENGTH, 0, 4, 0x2A);
    u.process_incoming(&answer, 0);
    assert_eq!(status(&u), answer);
}

#[test]
fn ping_response_of_wrong_length_is_ignored() {
    let mut u = fresh();
    let answer = frame(PING_RESPONSE_LENGTH + 1, 0, 4, 0x2A);
    u.process_incoming(&answer, 0);
    assert_eq!(status(&u), vec![0u8; PING_RESPONSE_LENGTH]);
}

#[test]
fn frame_after_garbage_is_stored() {
    let mut u = fresh();
    let mut bytes = vec![0x01, 0x02, 0xF0, 0x05, 0x06];
    let answer = frame(PING_RESPONSE_LENGTH, 0, 4, 0x2B);
    bytes.extend_from_slice(&answer);
    u.process_incoming(&bytes, 0);
    assert_eq!(status(&u), answer);
}

#[test]
fn frame_without_vendor_header_is_ignored() {
    let mut u = fresh();
    let mut answer = frame(PING_RESPONSE_LENGTH, 0, 4, 0x2B);
    answer[2] = 0x21;
    u.process_incoming(&answer, 0);
    assert_eq!(status(&u), vec![0u8; PING_RESPONSE_LENGTH]);
}

#[test]
fn search_response_listed_until_timeout() {
    let mut u = fresh();
    let answer = frame(SEARCH_RESPONSE_LENGTH, 2, 0, 0x33);
    u.process_incoming(&answer, 500);
    assert_eq!(devices(&u, 500), answer);
    assert_eq!(devices(&u, 500 + 19999), answer);
    assert!(devices(&u, 500 + 20000).is_empty());
}

#[test]
fn search_response_of_unknown_id_is_ignored() {
    let mut u = fresh();
    let answer = frame(SEARCH_RESPONSE_LENGTH, 16, 0, 0x33);
    u.process_incoming(&answer, 0);
    assert!(devices(&u, 0).is_empty());
}

#[test]
fn devices_are_listed_in_id_order() {
    let mut u = fresh();
    let second = frame(SEARCH_RESPONSE_LENGTH, 9, 0, 0x09);
    let first = frame(SEARCH_RESPONSE_LENGTH, 1, 0, 0x01);
    u.process_incoming(&second, 0);
    u.process_incoming(&first, 0);
    let mut expected = first.clone();
    expected.extend_from_slice(&second);
    assert_eq!(devices(&u, 0), expected);
}

#[test]
fn dump_parts_are_stored() {
    let mut u = fresh();
    let p0 = dump_part(PART_0_LENGTH, 0, 0x05);
    let p1 = dump_part(PART_1_LENGTH, 1, 0x06);
    u.process_incoming(&p0, 0);
    u.process_incoming(&p1, 0);
    let mut expected = p0.clone();
    expected.extend_from_slice(&p1);
    assert_eq!(mirror(&u), expected);
}

#[test]
fn chunked_bytes_equal_whole_bytes() {
    let p1 = dump_part(PART_1_LENGTH, 1, 0x06);
    let mut whole = fresh();
    whole.process_incoming(&p1, 0);
    let mut chunked = fresh();
    for chunk in p1.chunks(128) {
        chunked.process_incoming(chunk, 0);
    }
    assert_eq!(mirror(&whole), mirror(&chunked));
}

#[test]
fn stale_dumps_dropped_after_parameter_change() {
    let mut u = fresh();
    let change = [0xF0, 0x00, 0x20, 0x32, 0x00, 0x0E, 0x20, 0x00, 0xF7];
    assert!(u.process_outgoing(&change));
    let p0 = dump_part(PART_0_LENGTH, 0, 0x05);
    let p1 = dump_part(PART_1_LENGTH, 1, 0x06);
    u.process_incoming(&p0, 0);
    u.process_incoming(&p1, 0);
    assert_eq!(mirror(&u), vec![0u8; PART_0_LENGTH + PART_1_LENGTH]);
    // The stale period is over: the next second part is stored.
    u.process_incoming(&p1, 0);
    assert_eq!(&mirror(&u)[PART_0_LENGTH..], &p1[..]);
}

#[test]
fn patch_buffer_writes_low_middle_and_high() {
    let mut u = fresh();
    let l = loc((0, 10), (0, 11, 3), (1, 20));
    u.patch_buffer(0x7F, 0x05, l);
    let m = mirror(&u);
    assert_eq!(m[10], 0x7F);
    assert_eq!(m[11], 0b0000_1000);
    assert_eq!(m[PART_0_LENGTH + 20], 0x02);
    // Bit 0 of the high byte clear: the middle bit is cleared again.
    u.patch_buffer(0x01, 0x04, l);
    let m = mirror(&u);
    assert_eq!(m[10], 0x01);
    assert_eq!(m[11], 0);
    assert_eq!(m[PART_0_LENGTH + 20], 0x02);
}

#[test]
fn patch_buffer_without_middle_or_high() {
    let mut u = fresh();
    let l = loc((3, 0), (0, -1, 0), (0, -1));
    u.patch_buffer(0x44, 0xFF, l);
    let m = mirror(&u);
    assert_eq!(m[PART_0_LENGTH], 0x44);
    assert_eq!(m.iter().filter(|b| **b != 0).count(), 1);
}

#[test]
fn patch_buffer_twice_is_patch_once() {
    let mut once = fresh();
    let mut twice = fresh();
    let l = loc((0, 5), (0, 5, 7), (0, 6));
    once.patch_buffer(0x12, 0x81, l);
    twice.patch_buffer(0x12, 0x81, l);
    twice.patch_buffer(0x12, 0x81, l);
    assert_eq!(mirror(&once), mirror(&twice));
    assert_eq!(mirror(&once)[5], 0x92);
    assert_eq!(mirror(&once)[6], 0x40);
}

fn tables() -> ParamLocations {
    let mut t = ParamLocations::empty();
    // Setup parameters 2, 3 at setup index 0, 1.
    t.setup.push(loc((0, 100), (0, -1, 0), (0, 101)));
    t.setup.push(loc((0, 102), (0, -1, 0), (0, 103)));
    // Input channel 2 (table 1), parameter 2.
    t.inputs[1].push(loc((1, 50), (1, 51, 0), (1, 52)));
    // Output channel 10 (table 5), parameter 3 (index 1).
    t.outputs[5].push(loc((0, 200), (0, -1, 0), (0, -1)));
    t.outputs[5].push(loc((0, 201), (0, -1, 0), (0, -1)));
    assert!(t.is_valid());
    t
}

fn direct(changes: &[[u8; 4]]) -> Vec<u8> {
    let mut f = vec![0xF0, 0x00, 0x20, 0x32, 0x00, 0x0E, 0x20, changes.len() as u8];
    for c in changes {
        f.extend_from_slice(c);
    }
    f.push(0xF7);
    f
}

#[test]
fn outgoing_direct_command_patches_mirror() {
    let mut u = Ultradrive::new(true, tables());
    let f = direct(&[[0, 2, 0x03, 0x11], [2, 2, 0x03, 0x22], [10, 3, 0x00, 0x33], [11, 2, 1, 1]]);
    assert!(u.process_outgoing(&f));
    let m = mirror(&u);
    assert_eq!(m[100], 0x11);
    assert_eq!(m[101], 0x01);
    assert_eq!(m[PART_0_LENGTH + 50], 0x22);
    assert_eq!(m[PART_0_LENGTH + 51], 0x01);
    assert_eq!(m[PART_0_LENGTH + 52], 0x01);
    assert_eq!(m[201], 0x33);
    assert_eq!(m.iter().filter(|b| **b != 0).count(), 6);
}

#[test]
fn setup_parameters_after_eleven_are_numbered_from_ten() {
    let mut u = Ultradrive::new(true, tables());
    // Parameter 12 maps to setup index 2 (absent), parameter 1 below zero
    // (absent), parameter 3 to index 1.
    let f = direct(&[[0, 12, 0, 0x55], [0, 1, 0, 0x66], [0, 3, 0, 0x77]]);
    u.process_outgoing(&f);
    let m = mirror(&u);
    assert_eq!(m[102], 0x77);
    assert_eq!(m.iter().filter(|b| **b != 0).count(), 1);
}

#[test]
fn echoed_direct_command_patches_like_outgoing() {
    let f = direct(&[[0, 2, 0x03, 0x11], [2, 2, 0x03, 0x22]]);
    let mut sent = Ultradrive::new(true, tables());
    sent.process_outgoing(&f);
    let mut echoed = Ultradrive::new(true, tables());
    echoed.process_incoming(&f, 0);
    assert_eq!(mirror(&sent), mirror(&echoed));
}

#[test]
fn outgoing_non_vendor_data_is_not_forwarded() {
    let mut u = Ultradrive::new(true, tables());
    assert!(!u.process_outgoing(&[0x01, 0x02, 0x03]));
    assert!(!u.process_outgoing(&[0xF0, 0x00, 0x20, 0x33, 0x00, 0x0E, 0x20, 0x00]));
    assert_eq!(mirror(&u), vec![0u8; PART_0_LENGTH + PART_1_LENGTH]);
}

#[test]
fn outgoing_vendor_data_forwarded_only_with_port() {
    let ping = ping_request(1);
    let mut with = fresh();
    assert!(with.process_outgoing(&ping));
    let mut without = Ultradrive::new(false, ParamLocations::empty());
    assert!(!without.process_outgoing(&ping));
}

#[test]
fn outgoing_faults_on_truncated_frames() {
    assert!(Ultradrive::outgoing_faults(&[0xF0, 0x00, 0x20, 0x32, 0x00]));
    assert!(Ultradrive::outgoing_faults(&[0xF0, 0x00, 0x20, 0x32, 0x00, 0x0E]));
    assert!(Ultradrive::outgoing_faults(&[0xF0, 0x00, 0x20, 0x32, 0x00, 0x0E, 0x20]));
    assert!(Ultradrive::outgoing_faults(&[0xF0, 0x00, 0x20, 0x32, 0x00, 0x0E, 0x20, 1, 0, 2]));
    assert!(!Ultradrive::outgoing_faults(&direct(&[[0, 2, 0, 0]])));
    assert!(!Ultradrive::outgoing_faults(&[0x00, 0x00]));
    assert!(!Ultradrive::outgoing_faults(&[0xF0, 0x00, 0x20, 0x32, 0x00, 0x0E, 0x44]));
}

#[test]
fn incoming_faults_on_oversized_direct_count() {
    let u = fresh();
    let mut big = vec![0xF0, 0x00, 0x20, 0x32, 0x00, 0x0E, 0x20, 252];
    big.push(0xF7);
    assert!(u.incoming_faults(&big));
    let mut fits = vec![0xF0, 0x00, 0x20, 0x32, 0x00, 0x0E, 0x20, 251];
    fits.push(0xF7);
    assert!(!u.incoming_faults(&fits));
    let off = Ultradrive::new(false, ParamLocations::empty());
    assert!(!off.incoming_faults(&big));
}

#[test]
fn set_selected_ignores_ids_past_the_slots() {
    let mut u = fresh();
    u.set_selected(5);
    assert_eq!(u.get_selected(), 5);
    u.set_selected(16);
    assert_eq!(u.get_selected(), 5);
    u.set_selected(15);
    assert_eq!(u.get_selected(), 15);
}

#[test]
fn set_port_starts_over() {
    let mut u = fresh();
    u.process_incoming(&frame(PING_RESPONSE_LENGTH, 0, 4, 0x2A), 0);
    u.process_incoming(&frame(SEARCH_RESPONSE_LENGTH, 1, 0, 0x2A), 0);
    u.set_selected(1);
    u.close_port();
    assert!(!u.get_port_active());
    u.set_port();
    assert!(u.get_port_active());
    assert_eq!(status(&u), vec![0u8; PING_RESPONSE_LENGTH]);
    assert!(devices(&u, 0).is_empty());
    assert_eq!(u.get_selected(), 1);
    assert_eq!(u.process_incoming(&[], 50), vec![search_request()]);
}

#[test]
fn close_port_keeps_mirror() {
    let mut u = fresh();
    let answer = frame(PING_RESPONSE_LENGTH, 0, 4, 0x2A);
    u.process_incoming(&answer, 0);
    u.close_port();
    assert_eq!(status(&u), answer);
    assert_eq!(u.search(), None);
}

#[test]
fn location_tables_are_checked() {
    assert!(ParamLocations::empty().is_valid());
    let mut t = ParamLocations::empty();
    t.setup.push(loc((0, 1015), (0, -1, 0), (0, -1)));
    assert!(!t.is_valid());
    let mut t = ParamLocations::empty();
    t.setup.push(loc((1, 910), (0, 3, 8), (0, -1)));
    assert!(!t.is_valid());
    let mut t = ParamLocations::empty();
    t.inputs.pop();
    assert!(!t.is_valid());
    assert_eq!(tables().lookup(2, 2).map(|l| l.low.byte), Some(50));
    assert_eq!(tables().lookup(0, 11).map(|l| l.low.byte), None);
    assert_eq!(tables().lookup(11, 2).map(|l| l.low.byte), None);
}

#[test]
fn own_requests_echoed_are_ignored() {
    let mut u = fresh();
    let answer = frame(PING_RESPONSE_LENGTH, 0, 4, 0x2A);
    u.process_incoming(&answer, 0);
    let before = (mirror(&u), status(&u), devices(&u, 0));
    let mut echo = search_request();
    echo.extend_from_slice(&ping_request(3));
    echo.extend_from_slice(&dump_request(3, 1));
    echo.extend_from_slice(&transmit_mode_request(3));
    u.process_incoming(&echo, 0);
    assert_eq!((mirror(&u), status(&u), devices(&u, 0)), before);
}

#[test]
fn bytes_one_by_one_store_a_frame() {
    let mut u = fresh();
    let answer = frame(PING_RESPONSE_LENGTH, 0, 4, 0x3C);
    for b in &answer {
        u.read_commands(*b, 0);
    }
    assert_eq!(status(&u), answer);
}

#[test]
fn overlong_frame_is_dropped() {
    let mut u = fresh();
    let mut long = frame(PART_0_LENGTH + 1, 0, 4, 0x01);
    long[PART_0_LENGTH] = 0x02;
    long.extend_from_slice(&[0xF7, 0x05]);
    u.process_incoming(&long, 0);
    assert_eq!(status(&u), vec![0u8; PING_RESPONSE_LENGTH]);
    assert_eq!(mirror(&u), vec![0u8; PART_0_LENGTH + PART_1_LENGTH]);
    let answer = frame(PING_RESPONSE_LENGTH, 0, 4, 0x3C);
    u.process_incoming(&answer, 0);
    assert_eq!(status(&u), answer);
}
