use duinodcx::page::{inject_connection_script, CONNECTION_SCRIPT};
use duinodcx::connection::ConnectionCommand;
use duinodcx::location::ParamLocations;
use duinodcx::protocol::{PART_0_LENGTH, PART_1_LENGTH, PING_RESPONSE_LENGTH};
use duinodcx::routes::{
    asset_path, delete_connection, get_connection, get_settings, get_state, get_status,
    get_version, list_ports, select_device, static_route, update_connection, update_port,
    update_settings, ConnectionUpdate, PortUpdate, SettingsUpdate, StaticRoute,
};
use duinodcx::ultradrive::Ultradrive;

fn connect_of(c: ConnectionCommand) -> (String, u32) {
    match c {
        ConnectionCommand::Connect { port, baud_rate } => (port, baud_rate),
        ConnectionCommand::Disconnect => panic!("expected a connect command"),
    }
}

#[test]
fn version_is_fixed() {
    let v = get_version();
    assert_eq!(v.version, "1.0.0");
    assert_eq!(v.build_date, "2026-05-14");
}

#[test]
fn found_ports_are_listed() {
    let found = vec!["/dev/ttyUSB3".to_string()];
    assert_eq!(list_ports(Some(found.clone()), false), found);
    assert_eq!(list_ports(Some(found.clone()), true), found);
}

#[test]
fn fallback_ports_when_none_found() {
    assert_eq!(list_ports(None, true), vec!["COM1", "COM2", "COM3", "COM4"]);
    assert_eq!(list_ports(Some(Vec::new()), true), vec!["COM1", "COM2", "COM3", "COM4"]);
    assert_eq!(
        list_ports(None, false),
        vec!["/dev/ttyUSB0", "/dev/ttyUSB1", "/dev/ttyS0", "/dev/ttyS1", "/dev/ttyAMA0", "/dev/ttyACM0"]
    );
}

#[test]
fn update_port_connects_at_default_rate() {
    let (cmd, current) = update_port(PortUpdate { port_name: "COM7".to_string(), baud_rate: None });
    assert_eq!(connect_of(cmd), ("COM7".to_string(), 38400));
    assert_eq!(current, "COM7");
    let (cmd, _) = update_port(PortUpdate { port_name: "COM7".to_string(), baud_rate: Some(115200) });
    assert_eq!(connect_of(cmd), ("COM7".to_string(), 115200));
}

#[test]
fn connection_answers() {
    let c = get_connection(&"COM3".to_string());
    assert_eq!(c.current, "COM3");
    assert_eq!(c.ip, "Serial");
    let (cmd, current, answer) = delete_connection();
    assert!(matches!(cmd, ConnectionCommand::Disconnect));
    assert_eq!(current, "");
    assert_eq!(answer.current, "");
    assert_eq!(answer.ip, "Disconnected");
}

#[test]
fn update_connection_reads_rate_from_password() {
    let (cmd, current, answer) = update_connection(ConnectionUpdate {
        ssid: "COM2".to_string(),
        password: Some("9600".to_string()),
    });
    assert_eq!(connect_of(cmd), ("COM2".to_string(), 9600));
    assert_eq!(current, "COM2");
    assert_eq!(answer.current, "COM2");
    assert_eq!(answer.ip, "Serial (9600)");
}

#[test]
fn update_connection_defaults_rate() {
    for password in [None, Some(""), Some("abc"), Some(" 9600"), Some("-5"), Some("4294967296")] {
        let (cmd, _, answer) = update_connection(ConnectionUpdate {
            ssid: "COM2".to_string(),
            password: password.map(|p| p.to_string()),
        });
        assert_eq!(connect_of(cmd).1, 38400);
        assert_eq!(answer.ip, "Serial (38400)");
    }
    let (cmd, _, answer) = update_connection(ConnectionUpdate {
        ssid: "x".to_string(),
        password: Some("+115200".to_string()),
    });
    assert_eq!(connect_of(cmd).1, 115200);
    assert_eq!(answer.ip, "Serial (115200)");
    let (cmd, _, _) = update_connection(ConnectionUpdate {
        ssid: "x".to_string(),
        password: Some("4294967295".to_string()),
    });
    assert_eq!(connect_of(cmd).1, 4294967295);
}

#[test]
fn settings_answer_and_update() {
    let s = get_settings(&"COM9".to_string());
    assert_eq!(s.ap_ssid, "COM9");
    assert_eq!(s.ap_password, "38400");
    assert_eq!(s.auth, "Basic YWRtaW46YWRtaW4=");
    assert_eq!(s.mdns_host, "ultradrive");
    assert_eq!(s.flow_control, "0");
    assert_eq!(s.auto_disable_ap, "0");
    let (cmd, current) = update_settings(SettingsUpdate {
        ap_ssid: "COM4".to_string(),
        ap_password: "57600".to_string(),
    });
    assert_eq!(connect_of(cmd), ("COM4".to_string(), 57600));
    assert_eq!(current, "COM4");
    let (cmd, _) = update_settings(SettingsUpdate {
        ap_ssid: "COM4".to_string(),
        ap_password: "fast".to_string(),
    });
    assert_eq!(connect_of(cmd).1, 38400);
}

#[test]
fn state_and_status_bodies() {
    let mut u = Ultradrive::new(true, ParamLocations::empty());
    u.set_selected(2);
    let mut answer = vec![0x11u8; 26];
    answer[0] = 0xF0;
    answer[1] = 0x00;
    answer[2] = 0x20;
    answer[3] = 0x32;
    answer[4] = 4;
    answer[6] = 0;
    answer[25] = 0xF7;
    u.process_incoming(&answer, 100);
    let state = get_state(&u, 100);
    assert_eq!(state.len(), 1 + PART_0_LENGTH + PART_1_LENGTH + 26);
    assert_eq!(state[0], 2);
    assert_eq!(&state[1 + PART_0_LENGTH + PART_1_LENGTH..], &answer[..]);
    assert_eq!(get_state(&u, 100 + 20000).len(), 1 + PART_0_LENGTH + PART_1_LENGTH);
    assert_eq!(get_status(&u), vec![0u8; PING_RESPONSE_LENGTH]);
}

#[test]
fn select_device_by_body() {
    let mut u = Ultradrive::new(true, ParamLocations::empty());
    assert!(select_device(&mut u, " 3\n"));
    assert_eq!(u.get_selected(), 3);
    assert!(!select_device(&mut u, "three"));
    assert!(!select_device(&mut u, ""));
    assert_eq!(u.get_selected(), 3);
    assert!(select_device(&mut u, "20"));
    assert_eq!(u.get_selected(), 3);
    assert!(select_device(&mut u, "\t15 "));
    assert_eq!(u.get_selected(), 15);
}

#[test]
fn static_files_are_routed() {
    assert_eq!(asset_path("/assets/app.js"), "assets/app.js");
    assert_eq!(asset_path("///x"), "x");
    assert_eq!(asset_path("/"), "");
    assert!(matches!(static_route("", false), StaticRoute::Index));
    assert!(matches!(static_route("index.html", true), StaticRoute::Index));
    match static_route("app.js", true) {
        StaticRoute::Asset { content_type } => assert_eq!(content_type, "text/javascript"),
        _ => panic!("expected the file"),
    }
    match static_route("assets/logo.PNG", true) {
        StaticRoute::Asset { content_type } => assert_eq!(content_type, "image/png"),
        _ => panic!("expected the file"),
    }
    match static_route("data.unknownext", true) {
        StaticRoute::Asset { content_type } => assert_eq!(content_type, "application/octet-stream"),
        _ => panic!("expected the file"),
    }
    assert!(matches!(static_route("missing.js", false), StaticRoute::NotFound));
    assert!(matches!(static_route("settings/outputs", false), StaticRoute::Index));
}

#[test]
fn page_gets_connection_script() {
    let page = b"<html><body><p>x</p></body></html>";
    let out = inject_connection_script(page);
    assert_eq!(out, format!("<html><body><p>x</p>{}</html>", CONNECTION_SCRIPT));
    assert!(out.contains("MutationObserver"));
    assert!(CONNECTION_SCRIPT.ends_with("</body>\n"));
    let plain = b"<html>no end tag</html>";
    assert_eq!(inject_connection_script(plain), "<html>no end tag</html>");
    let broken = [0x3C, 0xFF, 0x3E];
    assert_eq!(inject_connection_script(&broken), "<\u{FFFD}>");
}
