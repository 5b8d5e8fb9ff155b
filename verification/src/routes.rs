//! What the HTTP endpoints of the controller compute: the bodies they
//! answer with and the commands they hand to the connection manager.
use vstd::prelude::*;
use crate::connection::{ConnectionCommand, DEFAULT_BAUD_RATE};
use crate::protocol::MAX_DEVICES;
use crate::text::{
    contains_char, decimal_string, drop_leading, parse_u32, parse_unsigned, parse_usize, trim,
    trim_leading_slashes, trimmed, u32_to_string,
};
use crate::ultradrive::{live_responses, Ultradrive, UltradriveState};

verus! {

/// Body of a request to switch to another serial port, at the given baud
/// rate or, when it names none, the default rate.
pub struct PortUpdate {
    pub port_name: String,
    pub baud_rate: Option<u32>,
}

/// The rate a port switch asks for.
pub open spec fn requested_port_rate(baud_rate: Option<u32>) -> u32 {
    match baud_rate {
        Some(r) => r,
        None => DEFAULT_BAUD_RATE,
    }
}

/// Form of a request to connect; the password field carries the baud rate.
pub struct ConnectionUpdate {
    pub ssid: String,
    pub password: Option<String>,
}

/// Answer describing the current connection.
pub struct ConnectionResponse {
    pub current: String,
    pub ip: String,
}

/// Answer describing the software version.
pub struct VersionResponse {
    pub version: String,
    pub build_date: String,
}

/// Answer describing the settings.
pub struct SettingsResponse {
    pub ap_ssid: String,
    pub ap_password: String,
    pub auth: String,
    pub mdns_host: String,
    pub flow_control: String,
    pub auto_disable_ap: String,
}

/// Form of a request to change the settings; the password field carries
/// the baud rate.
pub struct SettingsUpdate {
    pub ap_ssid: String,
    pub ap_password: String,
}

/// The baud rate a request names, or the default when it names none or
/// something that is not a number.
pub open spec fn requested_baud_rate(s: Option<Seq<char>>) -> u32 {
    match s {
        Some(t) => match parse_unsigned(t, u32::MAX as nat) {
            Some(v) => v as u32,
            None => DEFAULT_BAUD_RATE,
        },
        None => DEFAULT_BAUD_RATE,
    }
}

/// Reads a baud rate, falling back to the default.
fn baud_rate_of(s: Option<&str>) -> (r: u32)
    ensures
        r == requested_baud_rate(
            match s {
                Some(t) => Some(t@),
                None => None,
            },
        ),
{
    match s {
        Some(t) => match parse_u32(t) {
            Some(v) => v,
            None => DEFAULT_BAUD_RATE,
        },
        None => DEFAULT_BAUD_RATE,
    }
}

/// The software version and its build date.
pub fn get_version() -> (r: VersionResponse)
    ensures
        r.version@ == "1.0.0"@,
        r.build_date@ == "2026-05-14"@,
{
    VersionResponse {
        version: String::from_str("1.0.0"),
        build_date: String::from_str("2026-05-14"),
    }
}

/// Port names offered when the system lists none.
pub open spec fn fallback_ports(windows: bool) -> Seq<Seq<char>> {
    if windows {
        seq!["COM1"@, "COM2"@, "COM3"@, "COM4"@]
    } else {
        seq![
            "/dev/ttyUSB0"@,
            "/dev/ttyUSB1"@,
            "/dev/ttyS0"@,
            "/dev/ttyS1"@,
            "/dev/ttyAMA0"@,
            "/dev/ttyACM0"@,
        ]
    }
}

/// The contents of a list of strings.
pub open spec fn strings_view(v: Seq<String>) -> Seq<Seq<char>> {
    v.map_values(|s: String| s@)
}

/// Builds a list of strings from literals.
fn strings_of(items: &[&str]) -> (r: Vec<String>)
    ensures
        strings_view(r@) == items@.map_values(|s: &str| s@),
{
    let mut r: Vec<String> = Vec::new();
    let mut i: usize = 0;
    while i < items.len()
        invariant
            i <= items@.len(),
            r@.len() == i,
            strings_view(r@) == items@.take(i as int).map_values(|s: &str| s@),
        decreases items@.len() - i,
    {
        let ghost prev = r@;
        r.push(String::from_str(items[i]));
        i = i + 1;
        assert forall|k: int| 0 <= k < i implies #[trigger] strings_view(r@)[k] == items@[k]@ by {
            if k < i - 1 {
                assert(r@[k] == prev[k]);
                assert(strings_view(prev)[k] == items@.take(i - 1)[k]@);
            }
        }
        assert(strings_view(r@) =~= items@.take(i as int).map_values(|s: &str| s@));
    }
    assert(items@.take(items@.len() as int) =~= items@);
    r
}

/// The port names to offer: those the system found, or the fallback list
/// for the platform (`windows` or not) when it found none or failed.
pub fn list_ports(found: Option<Vec<String>>, windows: bool) -> (r: Vec<String>)
    ensures
        match found {
            Some(v) => if v@.len() > 0 {
                r@ == v@
            } else {
                strings_view(r@) == fallback_ports(windows)
            },
            None => strings_view(r@) == fallback_ports(windows),
        },
{
    match found {
        Some(v) => {
            if v.len() > 0 {
                return v;
            }
        },
        None => {},
    }
    if windows {
        let r = strings_of(&["COM1", "COM2", "COM3", "COM4"]);
        assert(strings_view(r@) =~= fallback_ports(windows));
        r
    } else {
        let r = strings_of(
            &["/dev/ttyUSB0", "/dev/ttyUSB1", "/dev/ttyS0", "/dev/ttyS1", "/dev/ttyAMA0", "/dev/ttyACM0"],
        );
        assert(strings_view(r@) =~= fallback_ports(windows));
        r
    }
}

/// Switching to another port: the manager is told to connect to it at the
/// requested rate (the default when none is named), and it becomes the
/// current port name.
pub fn update_port(payload: PortUpdate) -> (r: (ConnectionCommand, String))
    ensures
        r.0 matches ConnectionCommand::Connect { port, baud_rate } && port@ == payload.port_name@
            && baud_rate == requested_port_rate(payload.baud_rate),
        r.1@ == payload.port_name@,
{
    let current = payload.port_name.clone();
    let rate = match payload.baud_rate {
        Some(r) => r,
        None => DEFAULT_BAUD_RATE,
    };
    (ConnectionCommand::Connect { port: payload.port_name, baud_rate: rate }, current)
}

/// The current connection: the port name, over a serial line.
pub fn get_connection(current: &String) -> (r: ConnectionResponse)
    ensures
        r.current@ == current@,
        r.ip@ == "Serial"@,
{
    ConnectionResponse { current: current.clone(), ip: String::from_str("Serial") }
}

/// Disconnecting: the manager is told to disconnect, the current port name
/// is cleared, and the answer says so.
pub fn delete_connection() -> (r: (ConnectionCommand, String, ConnectionResponse))
    ensures
        r.0 is Disconnect,
        r.1@ == Seq::<char>::empty(),
        r.2.current@ == Seq::<char>::empty(),
        r.2.ip@ == "Disconnected"@,
{
    (
        ConnectionCommand::Disconnect,
        String::new(),
        ConnectionResponse { current: String::new(), ip: String::from_str("Disconnected") },
    )
}

/// Connecting through the form: the manager is told to connect to the
/// named port at the rate the password field names (default when it names
/// none), the port becomes current, and the answer shows the rate.
pub fn update_connection(payload: ConnectionUpdate) -> (r: (ConnectionCommand, String, ConnectionResponse))
    ensures
        ({
            let rate = requested_baud_rate(
                match payload.password {
                    Some(p) => Some(p@),
                    None => None,
                },
            );
            &&& r.0 matches ConnectionCommand::Connect { port, baud_rate } && port@
                == payload.ssid@ && baud_rate == rate
            &&& r.1@ == payload.ssid@
            &&& r.2.current@ == payload.ssid@
            &&& r.2.ip@ == "Serial ("@ + decimal_string(rate as nat) + ")"@
        }),
{
    let rate = match &payload.password {
        Some(p) => baud_rate_of(Some(p.as_str())),
        None => baud_rate_of(None),
    };
    let mut ip = String::from_str("Serial (");
    let digits = u32_to_string(rate);
    ip.append(digits.as_str());
    ip.append(")");
    let current = payload.ssid.clone();
    let shown = payload.ssid.clone();
    (
        ConnectionCommand::Connect { port: payload.ssid, baud_rate: rate },
        current,
        ConnectionResponse { current: shown, ip },
    )
}

/// The full state answer: the selected device, both dump parts, then the
/// search answers of the responsive devices.
pub open spec fn state_bytes(s: UltradriveState, now: u64) -> Seq<u8> {
    seq![s.selected_device as u8] + s.dump0 + s.dump1 + live_responses(s.devices, now)
}

/// The full state of the controller at time `now`.
pub fn get_state(device: &Ultradrive, now: u64) -> (r: Vec<u8>)
    requires
        device@.wf(),
    ensures
        r@ == state_bytes(device@, now),
{
    let mut buf: Vec<u8> = Vec::new();
    buf.push(device.get_selected() as u8);
    device.write_device(&mut buf);
    device.write_devices(&mut buf, now);
    assert(buf@ =~= state_bytes(device@, now));
    buf
}

/// The last status answer of the selected device.
pub fn get_status(device: &Ultradrive) -> (r: Vec<u8>)
    requires
        device@.wf(),
    ensures
        r@ == device@.ping_response,
{
    let mut buf: Vec<u8> = Vec::new();
    device.write_device_status(&mut buf);
    assert(buf@ =~= device@.ping_response);
    buf
}

/// Selecting a device by a request body holding its id: accepted when the
/// trimmed body is a number, which is then selected if it names a slot.
pub fn select_device(device: &mut Ultradrive, body: &str) -> (accepted: bool)
    requires
        old(device)@.wf(),
    ensures
        final(device)@.wf(),
        accepted == parse_unsigned(trimmed(body@), usize::MAX as nat) is Some,
        match parse_unsigned(trimmed(body@), usize::MAX as nat) {
            Some(id) => final(device)@ == (if id < MAX_DEVICES {
                UltradriveState { selected_device: id as usize, ..old(device)@ }
            } else {
                old(device)@
            }),
            None => final(device)@ == old(device)@,
        },
{
    match parse_usize(trim(body)) {
        Some(id) => {
            device.set_selected(id);
            true
        },
        None => false,
    }
}

/// The settings: the current port name, with the default rate and the
/// fixed remaining fields.
pub fn get_settings(current: &String) -> (r: SettingsResponse)
    ensures
        r.ap_ssid@ == current@,
        r.ap_password@ == "38400"@,
        r.auth@ == "Basic YWRtaW46YWRtaW4="@,
        r.mdns_host@ == "ultradrive"@,
        r.flow_control@ == "0"@,
        r.auto_disable_ap@ == "0"@,
{
    SettingsResponse {
        ap_ssid: current.clone(),
        ap_password: String::from_str("38400"),
        auth: String::from_str("Basic YWRtaW46YWRtaW4="),
        mdns_host: String::from_str("ultradrive"),
        flow_control: String::from_str("0"),
        auto_disable_ap: String::from_str("0"),
    }
}

/// Changing the settings: the manager is told to connect to the named
/// port at the rate the password field names (default when it is not a
/// number), and the port becomes current.
pub fn update_settings(payload: SettingsUpdate) -> (r: (ConnectionCommand, String))
    ensures
        r.0 matches ConnectionCommand::Connect { port, baud_rate } && port@ == payload.ap_ssid@
            && baud_rate == requested_baud_rate(Some(payload.ap_password@)),
        r.1@ == payload.ap_ssid@,
{
    let rate = baud_rate_of(Some(payload.ap_password.as_str()));
    let current = payload.ap_ssid.clone();
    (ConnectionCommand::Connect { port: payload.ap_ssid, baud_rate: rate }, current)
}

/// How a request for a static file is answered.
pub enum StaticRoute {
    /// With the main page.
    Index,
    /// With the embedded file of that path, served as `content_type`.
    Asset { content_type: String },
    /// With "not found".
    NotFound,
}

/// The MIME type that `mime_guess` gives for `path`, by its extension.
pub uninterp spec fn mime_for_path(path: Seq<char>) -> Seq<char>;

/// `mime_guess::from_path(path).first_or_octet_stream()`: the first MIME
/// type known for the extension of `path`, or `application/octet-stream`;
/// the result is named by `mime_for_path`. It looks at the path text only.
#[verifier::external_body]
pub(crate) fn guess_mime(path: &str) -> (r: String)
    ensures
        r@ == mime_for_path(path@),
{
    mime_guess::from_path(path).first_or_octet_stream().as_ref().to_string()
}

/// The embedded-file path a request path names: the path without its
/// leading slashes.
pub fn asset_path(uri_path: &str) -> (r: &str)
    ensures
        r@ == drop_leading(uri_path@, '/'),
{
    trim_leading_slashes(uri_path)
}

/// How a request for the file at `path` (as `asset_path` gives it) is
/// answered, given whether an embedded file has that path: the main page
/// for the empty path and for `index.html`; the file when it exists;
/// "not found" for a missing path that looks like a file name (has a dot);
/// the main page for any other path, so that the page handles it. A file
/// is served with the MIME type its path's extension names.
pub fn static_route(path: &str, asset_found: bool) -> (r: StaticRoute)
    ensures
        r matches StaticRoute::Asset { content_type } ==> content_type@ == mime_for_path(path@),
        path@.len() == 0 || path@ == "index.html"@ ==> r is Index,
        !(path@.len() == 0 || path@ == "index.html"@) ==> (if asset_found {
            r is Asset
        } else if path@.contains('.') {
            r is NotFound
        } else {
            r is Index
        }),
{
    let p = String::from_str(path);
    let index = String::from_str("index.html");
    if path.is_empty() || p == index {
        return StaticRoute::Index;
    }
    if asset_found {
        StaticRoute::Asset { content_type: guess_mime(path) }
    } else if contains_char(path, '.') {
        StaticRoute::NotFound
    } else {
        StaticRoute::Index
    }
}

} // verus!
