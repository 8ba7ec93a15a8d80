use self_esp::firmware::configurator::parse_credentials;
use self_esp::hermes::configure::credentials_message;
use self_esp::hermes::monitor::{monitor_step, Configure, MonitorStep, PortRead};

fn first_line(s: &str) -> &str {
    match s.find('\n') {
        Some(i) => &s[..i + 1],
        None => s,
    }
}

#[test]
fn message_joins_trimmed_answers() {
    assert_eq!(credentials_message("  home-net \n", "s3cret\r\n"), "home-net:::s3cret\n\n");
    assert_eq!(credentials_message("\n", "\n"), ":::\n\n");
}

#[test]
fn firmware_reads_back_what_configure_sends() {
    for (ssid, psk) in [("home-net\n", "s3cret\n"), (" a b ", "p:q"), ("\n", "x"), ("net", "")] {
        let msg = credentials_message(ssid, psk);
        let (s, p) = parse_credentials(first_line(&msg)).unwrap();
        assert_eq!(s, ssid.trim());
        assert_eq!(p, psk.trim());
    }
}

#[test]
fn round_trip_fails_for_ssid_ending_in_colon() {
    let msg = credentials_message("net:", "pw");
    let (s, p) = parse_credentials(first_line(&msg)).unwrap();
    assert_eq!((s.as_str(), p.as_str()), ("net", ":pw"));
}

#[test]
fn monitor_steps() {
    let _ = Configure::new(vec![]);
    match monitor_step(PortRead::Data(b"boot ok\n".to_vec())) {
        MonitorStep::Print(t) => assert_eq!(t, "boot ok\n"),
        _ => panic!("expected text"),
    }
    match monitor_step(PortRead::Data(vec![0xff, 0x01])) {
        MonitorStep::PrintBytes(b) => assert_eq!(b, vec![0xff, 0x01]),
        _ => panic!("expected bytes"),
    }
    assert!(matches!(monitor_step(PortRead::Data(vec![])), MonitorStep::Idle));
    assert!(matches!(monitor_step(PortRead::TimedOut), MonitorStep::Idle));
    assert!(matches!(monitor_step(PortRead::Failed), MonitorStep::Stop));
}
