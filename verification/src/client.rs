//! The browser side of the connection panel: the bodies it exchanges with
//! the controller and the decisions of the panel.
use vstd::prelude::*;
use crate::text::{decimal_string, u32_to_string};

verus! {

/// Answer describing the current connection.
pub struct ConnectionResponse {
    pub current: String,
    pub ip: String,
}

/// Body of a request to switch to another serial port at a baud rate.
pub struct PortUpdate {
    pub port_name: String,
    pub baud_rate: Option<u32>,
}

/// Answer describing the software version.
pub struct VersionResponse {
    pub version: String,
    pub build_date: String,
}

/// The body that asks the controller to switch to `port_name` at
/// `baud_rate`.
pub fn port_update(port_name: &str, baud_rate: u32) -> (r: PortUpdate)
    ensures
        r.port_name@ == port_name@,
        r.baud_rate == Some(baud_rate),
{
    PortUpdate { port_name: String::from_str(port_name), baud_rate: Some(baud_rate) }
}

/// The baud rates the panel offers.
pub open spec fn offered_rates() -> Seq<u32> {
    seq![9600u32, 19200u32, 38400u32, 57600u32, 115200u32]
}

/// `rate` is one of the rates the panel offers.
pub open spec fn is_offered_rate(rate: u32) -> bool {
    offered_rates().contains(rate)
}

/// The rate the panel starts with.
pub const INITIAL_BAUD_RATE: u32 = 38400;

/// The baud rates the panel offers, in the order shown.
pub fn baud_rates() -> (r: Vec<u32>)
    ensures
        r@ == offered_rates(),
{
    let r = vec![9600u32, 19200u32, 38400u32, 57600u32, 115200u32];
    assert(r@ =~= offered_rates());
    r
}

/// The outcome of a request that got an answer with HTTP status `status`:
/// success for a 2xx status (`ok`), otherwise an error naming the status.
pub fn request_outcome(ok: bool, status: u16) -> (r: Result<(), String>)
    ensures
        ok ==> r is Ok,
        !ok ==> (r matches Err(e) && e@ == "Error: "@ + decimal_string(status as nat)),
{
    if ok {
        Ok(())
    } else {
        let mut e = String::from_str("Error: ");
        let digits = u32_to_string(status as u32);
        e.append(digits.as_str());
        Err(e)
    }
}

/// What the connect button asks for.
pub enum PanelRequest {
    /// Disconnect from the current port.
    Disconnect,
    /// Connect to the named port at the given baud rate.
    Connect(String, u32),
}

/// The state of the connection panel.
#[verifier::ext_equal]
pub struct PanelState {
    pub ports: Seq<Seq<char>>,
    pub selected_port: Seq<char>,
    pub selected_rate: u32,
    pub status: Seq<char>,
    pub is_connected: bool,
}

impl PanelState {
    /// The selected rate is one of the offered rates.
    pub open spec fn wf(self) -> bool {
        is_offered_rate(self.selected_rate)
    }
}

/// The contents of a list of strings.
pub open spec fn names_view(v: Seq<String>) -> Seq<Seq<char>> {
    v.map_values(|s: String| s@)
}

/// The contents of an optional port list.
pub open spec fn ports_view(ports: Option<Vec<String>>) -> Option<Seq<Seq<char>>> {
    match ports {
        Some(p) => Some(names_view(p@)),
        None => None,
    }
}

/// The contents of an optional connection answer.
pub open spec fn connection_view(c: Option<ConnectionResponse>) -> Option<(Seq<char>, Seq<char>)> {
    match c {
        Some(c) => Some((c.current@, c.ip@)),
        None => None,
    }
}

/// The panel after the first load: the ports found (the first one
/// selected), then the current connection if there is one.
pub open spec fn after_load(
    s: PanelState,
    ports: Option<Seq<Seq<char>>>,
    connection: Option<(Seq<char>, Seq<char>)>,
) -> PanelState {
    let s1 = match ports {
        Some(p) => if p.len() > 0 {
            PanelState { ports: p, selected_port: p[0], ..s }
        } else {
            PanelState { ports: p, ..s }
        },
        None => s,
    };
    match connection {
        Some((current, ip)) => if current.len() > 0 {
            PanelState { selected_port: current, status: ip, is_connected: true, ..s1 }
        } else {
            s1
        },
        None => s1,
    }
}

/// What the panel shows for its state.
pub struct PanelDisplay {
    pub button_label: String,
    pub button_style: String,
    pub select_disabled: bool,
}

/// The panel after a connect request succeeded and the connection was read
/// back as (`current`, `ip`), or could not be read back (`None`).
pub open spec fn after_connected(s: PanelState, c: Option<(Seq<char>, Seq<char>)>) -> PanelState {
    match c {
        Some((_, ip)) => PanelState { status: ip, is_connected: true, ..s },
        None => s,
    }
}

/// The panel after a disconnect request finished, successfully or not.
pub open spec fn after_disconnected(s: PanelState, ok: bool) -> PanelState {
    if ok {
        PanelState { status: "Disconnected"@, is_connected: false, ..s }
    } else {
        s
    }
}

/// What the connect button asks for: `None` to disconnect, otherwise the
/// port and rate to connect to.
pub open spec fn button_request(s: PanelState) -> Option<(Seq<char>, u32)> {
    if s.is_connected {
        None
    } else {
        Some((s.selected_port, s.selected_rate))
    }
}

/// The connection panel.
pub struct ConnectionPanel {
    ports: Vec<String>,
    selected_port: String,
    selected_rate: u32,
    status: String,
    is_connected: bool,
}

impl View for ConnectionPanel {
    type V = PanelState;

    closed spec fn view(&self) -> PanelState {
        PanelState {
            ports: names_view(self.ports@),
            selected_port: self.selected_port@,
            selected_rate: self.selected_rate,
            status: self.status@,
            is_connected: self.is_connected,
        }
    }
}

impl ConnectionPanel {
    /// A panel with no ports, nothing selected, the initial rate chosen,
    /// disconnected.
    pub fn new() -> (r: ConnectionPanel)
        ensures
            r@.ports.len() == 0,
            r@.selected_port.len() == 0,
            r@.selected_rate == INITIAL_BAUD_RATE,
            r@.status == "Disconnected"@,
            !r@.is_connected,
            r@.wf(),
    {
        let r = ConnectionPanel {
            ports: Vec::new(),
            selected_port: String::new(),
            selected_rate: INITIAL_BAUD_RATE,
            status: String::from_str("Disconnected"),
            is_connected: false,
        };
        assert(r@.ports =~= Seq::<Seq<char>>::empty());
        assert(offered_rates()[2] == INITIAL_BAUD_RATE);
        r
    }

    /// Takes the results of the first load: the port list and the current
    /// connection, each absent when its request failed.
    pub fn loaded(&mut self, ports: Option<Vec<String>>, connection: Option<ConnectionResponse>)
        ensures
            final(self)@ == after_load(old(self)@, ports_view(ports), connection_view(connection)),
    {
        let ghost pv = ports_view(ports);
        let ghost cv = connection_view(connection);
        match ports {
            Some(p) => {
                if p.len() > 0 {
                    self.selected_port = p[0].clone();
                }
                self.ports = p;
            },
            None => {},
        }
        match connection {
            Some(c) => {
                if !c.current.as_str().is_empty() {
                    self.selected_port = c.current;
                    self.status = c.ip;
                    self.is_connected = true;
                }
            },
            None => {},
        }
        assert(self@ =~= after_load(old(self)@, pv, cv));
    }

    /// The user picked port `port`.
    pub fn select(&mut self, port: String)
        ensures
            final(self)@ == (PanelState { selected_port: port@, ..old(self)@ }),
    {
        self.selected_port = port;
        assert(self@ =~= PanelState { selected_port: port@, ..old(self)@ });
    }

    /// The user picked baud rate `rate` in the rate list: accepted when it is
    /// one of the offered rates, which then becomes the selected rate;
    /// anything else changes nothing.
    pub fn select_rate(&mut self, rate: u32) -> (accepted: bool)
        ensures
            accepted == is_offered_rate(rate),
            accepted ==> final(self)@ == (PanelState { selected_rate: rate, ..old(self)@ }),
            !accepted ==> final(self)@ == old(self)@,
    {
        let offered = rate == 9600 || rate == 19200 || rate == 38400 || rate == 57600 || rate
            == 115200;
        proof {
            let o = offered_rates();
            if offered {
                if rate == 9600 {
                    assert(o[0] == rate);
                } else if rate == 19200 {
                    assert(o[1] == rate);
                } else if rate == 38400 {
                    assert(o[2] == rate);
                } else if rate == 57600 {
                    assert(o[3] == rate);
                } else {
                    assert(o[4] == rate);
                }
            } else {
                assert forall|i: int| 0 <= i < o.len() implies o[i] != rate by {}
            }
        }
        if offered {
            self.selected_rate = rate;
            assert(self@ =~= PanelState { selected_rate: rate, ..old(self)@ });
        }
        offered
    }

    /// What the connect button asks for: disconnecting when connected,
    /// otherwise connecting to the selected port at the selected rate.
    pub fn on_connect(&self) -> (r: PanelRequest)
        ensures
            button_request(self@) is None ==> r is Disconnect,
            button_request(self@) matches Some((port, rate)) ==> (r matches PanelRequest::Connect(
                p,
                q,
            ) && p@ == port && q == rate),
    {
        if self.is_connected {
            PanelRequest::Disconnect
        } else {
            PanelRequest::Connect(self.selected_port.clone(), self.selected_rate)
        }
    }

    /// What the panel shows: the button reads "Disconnect" on green while
    /// connected and "Connect" on red otherwise, and the port and rate
    /// lists are locked while connected.
    pub fn display(&self) -> (r: PanelDisplay)
        ensures
            self@.is_connected ==> r.button_label@ == "Disconnect"@ && r.button_style@
                == "background-color: #28a745; color: white;"@,
            !self@.is_connected ==> r.button_label@ == "Connect"@ && r.button_style@
                == "background-color: #dc3545; color: white;"@,
            r.select_disabled == self@.is_connected,
    {
        if self.is_connected {
            PanelDisplay {
                button_label: String::from_str("Disconnect"),
                button_style: String::from_str("background-color: #28a745; color: white;"),
                select_disabled: true,
            }
        } else {
            PanelDisplay {
                button_label: String::from_str("Connect"),
                button_style: String::from_str("background-color: #dc3545; color: white;"),
                select_disabled: false,
            }
        }
    }

    /// The selected baud rate.
    pub fn selected_rate(&self) -> (r: u32)
        ensures
            r == self@.selected_rate,
    {
        self.selected_rate
    }

    /// The disconnect request finished; `ok` tells whether it succeeded.
    pub fn disconnected(&mut self, ok: bool)
        ensures
            final(self)@ == after_disconnected(old(self)@, ok),
    {
        if ok {
            self.status = String::from_str("Disconnected");
            self.is_connected = false;
            assert(self@ =~= after_disconnected(old(self)@, ok));
        }
    }

    /// The connect request succeeded and the connection was read back
    /// (absent when reading it failed).
    pub fn connected(&mut self, connection: Option<ConnectionResponse>)
        ensures
            final(self)@ == after_connected(old(self)@, connection_view(connection)),
    {
        let ghost cv = connection_view(connection);
        match connection {
            Some(c) => {
                self.status = c.ip;
                self.is_connected = true;
                assert(self@ =~= after_connected(old(self)@, cv));
            },
            None => {},
        }
    }

    /// The panel's state, for display.
    pub fn is_connected(&self) -> (r: bool)
        ensures
            r == self@.is_connected,
    {
        self.is_connected
    }

    /// The status line.
    pub fn status(&self) -> (r: String)
        ensures
            r@ == self@.status,
    {
        self.status.clone()
    }

    /// The ports the port list offers, in order.
    pub fn ports(&self) -> (r: Vec<String>)
        ensures
            names_view(r@) == self@.ports,
    {
        let mut r: Vec<String> = Vec::new();
        let mut i: usize = 0;
        while i < self.ports.len()
            invariant
                i <= self.ports@.len(),
                r@.len() == i,
                forall|k: int| 0 <= k < i ==> #[trigger] r@[k]@ == self.ports@[k]@,
            decreases self.ports@.len() - i,
        {
            r.push(self.ports[i].clone());
            i = i + 1;
        }
        assert(names_view(r@) =~= names_view(self.ports@));
        r
    }

    /// The status line shown under the controls.
    pub fn status_line(&self) -> (r: String)
        ensures
            r@ == "Status: "@ + self@.status,
    {
        let mut r = String::from_str("Status: ");
        r.append(self.status.as_str());
        r
    }

    /// The selected port.
    pub fn selected_port(&self) -> (r: String)
        ensures
            r@ == self@.selected_port,
    {
        self.selected_port.clone()
    }
}

/// The connect button toggles: on a disconnected panel it asks to connect
/// to the selected port at the selected rate; once that succeeded it asks
/// to disconnect; once that succeeded it asks to connect to the same port
/// and rate again, and the status reads "Disconnected".
pub proof fn law_button_toggles(s: PanelState, current: Seq<char>, ip: Seq<char>)
    requires
        !s.is_connected,
    ensures
        button_request(s) == Some((s.selected_port, s.selected_rate)),
        button_request(after_connected(s, Some((current, ip)))) is None,
        button_request(after_disconnected(after_connected(s, Some((current, ip))), true)) == Some(
            (s.selected_port, s.selected_rate),
        ),
        after_disconnected(after_connected(s, Some((current, ip))), true).status == "Disconnected"@,
{
}

} // verus!
