use duinodcx::client::{baud_rates, port_update, request_outcome, ConnectionPanel, ConnectionResponse, PanelRequest};
use duinodcx::routes::{update_port, PortUpdate};
use duinodcx::connection::{ConnectionAction, ConnectionCommand, ConnectionEvent, Reconnector};

fn connect(port: &str, baud_rate: u32) -> ConnectionEvent {
    ConnectionEvent::Command(ConnectionCommand::Connect { port: port.to_string(), baud_rate })
}

fn open_of(a: ConnectionAction) -> Option<(String, u32, bool)> {
    match a {
        ConnectionAction::Open { port, baud_rate, prime_first } => Some((port, baud_rate, prime_first)),
        _ => None,
    }
}

#[test]
fn connect_opens_at_once_and_primes_at_38400() {
    let mut r = Reconnector::new();
    assert_eq!(open_of(r.step(connect("COM3", 38400), false)), Some(("COM3".to_string(), 38400, true)));
    let mut r = Reconnector::new();
    assert_eq!(open_of(r.step(connect("COM3", 9600), false)), Some(("COM3".to_string(), 9600, false)));
}

#[test]
fn nothing_opens_while_a_port_is_attached() {
    let mut r = Reconnector::new();
    assert!(matches!(r.step(connect("COM3", 9600), true), ConnectionAction::Nothing));
    assert!(matches!(r.step(ConnectionEvent::Timer, true), ConnectionAction::Nothing));
}

#[test]
fn blank_port_is_never_opened() {
    let mut r = Reconnector::new();
    assert!(matches!(r.step(connect("  ", 9600), false), ConnectionAction::Nothing));
    assert!(matches!(r.step(ConnectionEvent::Timer, false), ConnectionAction::Nothing));
}

#[test]
fn timer_retries_without_limit() {
    let mut r = Reconnector::new();
    assert!(open_of(r.step(connect("COM1", 9600), false)).is_some());
    for _ in 0..1000 {
        assert_eq!(open_of(r.step(ConnectionEvent::Timer, false)), Some(("COM1".to_string(), 9600, false)));
    }
    // While a port is attached nothing is opened; once it is lost, retries resume.
    assert!(matches!(r.step(ConnectionEvent::Timer, true), ConnectionAction::Nothing));
    assert!(open_of(r.step(ConnectionEvent::Timer, false)).is_some());
}

#[test]
fn later_connect_replaces_target() {
    let mut r = Reconnector::new();
    r.step(connect("COM1", 9600), false);
    assert_eq!(open_of(r.step(connect("COM2", 38400), false)), Some(("COM2".to_string(), 38400, true)));
    for _ in 0..20 {
        assert_eq!(open_of(r.step(ConnectionEvent::Timer, false)), Some(("COM2".to_string(), 38400, true)));
    }
}

#[test]
fn timer_without_request_does_nothing() {
    let mut r = Reconnector::new();
    assert!(matches!(r.step(ConnectionEvent::Timer, false), ConnectionAction::Nothing));
}

#[test]
fn disconnect_closes_and_stops() {
    let mut r = Reconnector::new();
    r.step(connect("COM1", 9600), false);
    assert!(matches!(r.step(ConnectionEvent::Command(ConnectionCommand::Disconnect), true), ConnectionAction::ClosePort));
    assert!(r.current().is_none());
    assert!(matches!(r.step(ConnectionEvent::Timer, false), ConnectionAction::Nothing));
}

#[test]
fn current_port_is_remembered() {
    let mut r = Reconnector::new();
    r.step(connect("COM5", 19200), true);
    assert_eq!(r.current(), Some(("COM5".to_string(), 19200)));
}

#[test]
fn client_bodies() {
    let body = port_update("COM3", 57600);
    assert_eq!(body.port_name, "COM3");
    assert_eq!(body.baud_rate, Some(57600));
    assert!(request_outcome(true, 200).is_ok());
    assert_eq!(request_outcome(false, 404), Err("Error: 404".to_string()));
    assert_eq!(request_outcome(false, 0), Err("Error: 0".to_string()));
}

#[test]
fn panel_loads_ports_and_connection() {
    let mut p = ConnectionPanel::new();
    assert_eq!(p.status(), "Disconnected");
    p.loaded(Some(vec!["COM1".to_string(), "COM2".to_string()]), None);
    assert_eq!(p.selected_port(), "COM1");
    assert!(!p.is_connected());
    p.loaded(None, Some(ConnectionResponse { current: "COM2".to_string(), ip: "Serial".to_string() }));
    assert_eq!(p.selected_port(), "COM2");
    assert_eq!(p.status(), "Serial");
    assert!(p.is_connected());
}

#[test]
fn panel_ignores_empty_connection() {
    let mut p = ConnectionPanel::new();
    p.loaded(Some(Vec::new()), Some(ConnectionResponse { current: String::new(), ip: "x".to_string() }));
    assert_eq!(p.selected_port(), "");
    assert!(!p.is_connected());
}

#[test]
fn panel_button_toggles() {
    let mut p = ConnectionPanel::new();
    p.select("COM4".to_string());
    match p.on_connect() {
        PanelRequest::Connect(port, rate) => {
            assert_eq!(port, "COM4");
            assert_eq!(rate, 38400);
        }
        PanelRequest::Disconnect => panic!("expected a connect request"),
    }
    p.connected(Some(ConnectionResponse { current: "COM4".to_string(), ip: "Serial (38400)".to_string() }));
    assert!(p.is_connected());
    assert_eq!(p.status(), "Serial (38400)");
    assert!(matches!(p.on_connect(), PanelRequest::Disconnect));
    p.disconnected(false);
    assert!(p.is_connected());
    p.disconnected(true);
    assert!(!p.is_connected());
    assert_eq!(p.status(), "Disconnected");
}

#[test]
fn panel_offers_five_rates() {
    assert_eq!(baud_rates(), vec![9600, 19200, 38400, 57600, 115200]);
    let mut p = ConnectionPanel::new();
    assert_eq!(p.selected_rate(), 38400);
    assert!(!p.select_rate(12345));
    assert_eq!(p.selected_rate(), 38400);
    for r in baud_rates() {
        assert!(p.select_rate(r));
        assert_eq!(p.selected_rate(), r);
    }
}

#[test]
fn panel_rate_reaches_port_switch() {
    let mut p = ConnectionPanel::new();
    p.select("COM6".to_string());
    assert!(p.select_rate(9600));
    let (port, rate) = match p.on_connect() {
        PanelRequest::Connect(port, rate) => (port, rate),
        PanelRequest::Disconnect => panic!("expected a connect request"),
    };
    let body = port_update(&port, rate);
    let (cmd, current) = update_port(PortUpdate { port_name: body.port_name, baud_rate: body.baud_rate });
    assert_eq!(current, "COM6");
    match cmd {
        ConnectionCommand::Connect { port, baud_rate } => {
            assert_eq!(port, "COM6");
            assert_eq!(baud_rate, 9600);
        }
        ConnectionCommand::Disconnect => panic!("expected a connect command"),
    }
}

#[test]
fn panel_display_follows_connection() {
    let mut p = ConnectionPanel::new();
    let d = p.display();
    assert_eq!(d.button_label, "Connect");
    assert_eq!(d.button_style, "background-color: #dc3545; color: white;");
    assert!(!d.select_disabled);
    p.connected(Some(ConnectionResponse { current: "COM1".to_string(), ip: "Serial".to_string() }));
    let d = p.display();
    assert_eq!(d.button_label, "Disconnect");
    assert_eq!(d.button_style, "background-color: #28a745; color: white;");
    assert!(d.select_disabled);
}

#[test]
fn panel_lists_ports_and_status_line() {
    let mut p = ConnectionPanel::new();
    assert!(p.ports().is_empty());
    assert_eq!(p.status_line(), "Status: Disconnected");
    p.loaded(Some(vec!["COM3".to_string(), "COM1".to_string()]), None);
    assert_eq!(p.ports(), vec!["COM3", "COM1"]);
    p.connected(Some(ConnectionResponse { current: "COM3".to_string(), ip: "Serial (9600)".to_string() }));
    assert_eq!(p.status_line(), "Status: Serial (9600)");
}
