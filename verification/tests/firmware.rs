use self_esp::firmware::configurator::{
    configure_step, parse_credentials, ConfigureStep, ConsoleRead, RETRY_WAIT_MS,
    WOULD_BLOCK_WAIT_MS,
};
use self_esp::firmware::credentials::{credentials_source, stored_credentials, CredentialsSource};
use self_esp::firmware::html::{index_html, templated, upload_done_html};
use self_esp::firmware::upload::{accepts_content_type, UploadBody, UploadStep, MAX_BODY_SIZE};

#[test]
fn credentials_line() {
    assert_eq!(
        parse_credentials("  home:::pass word \r\n"),
        Some(("home".to_string(), "pass word".to_string()))
    );
    assert_eq!(parse_credentials("a:::b:::c\n"), Some(("a".to_string(), "b".to_string())));
    assert_eq!(parse_credentials(":::\n"), Some((String::new(), String::new())));
    assert_eq!(parse_credentials("a::::b"), Some(("a".to_string(), ":b".to_string())));
    assert_eq!(parse_credentials("home::pass\n"), None);
    assert_eq!(parse_credentials(""), None);
}

#[test]
fn configure_steps() {
    assert!(matches!(
        configure_step(ConsoleRead::Eof),
        ConfigureStep::Retry { prompt: true, wait_ms: RETRY_WAIT_MS }
    ));
    assert!(matches!(
        configure_step(ConsoleRead::WouldBlock),
        ConfigureStep::Retry { prompt: true, wait_ms: WOULD_BLOCK_WAIT_MS }
    ));
    assert!(matches!(
        configure_step(ConsoleRead::Line("hello\n".to_string())),
        ConfigureStep::Retry { prompt: false, wait_ms: 500 }
    ));
    match configure_step(ConsoleRead::Line("net:::pw\n".to_string())) {
        ConfigureStep::Done { ssid, psk } => assert_eq!((ssid.as_str(), psk.as_str()), ("net", "pw")),
        _ => panic!("expected credentials"),
    }
    match configure_step(ConsoleRead::Failed) {
        ConfigureStep::Done { ssid, psk } => {
            assert_eq!((ssid.as_str(), psk.as_str()), ("unknown", "unknown"))
        },
        _ => panic!("expected the defaults"),
    }
}

#[test]
fn pages() {
    let page = templated("post /");
    assert_eq!(
        page,
        "\n<!DOCTYPE html>\n<html>\n    <head>\n        <meta charset=\"utf-8\">\n        <title>esp-rs web server</title>\n    </head>\n    <body>\n        post /\n    </body>\n</html>\n"
    );
    assert_eq!(upload_done_html(), page);
    assert_eq!(index_html(), templated("Hello from mcu!"));
    assert!(index_html().contains("<body>\n        Hello from mcu!\n    </body>"));
}

#[test]
fn content_type_check() {
    assert!(accepts_content_type(Some("application/octet-stream")));
    assert!(!accepts_content_type(Some("application/json")));
    assert!(!accepts_content_type(Some("application/octet-stream; x")));
    assert!(!accepts_content_type(None));
}

#[test]
fn body_collects_chunks_under_limit() {
    let mut body = UploadBody::new();
    assert_eq!(body.len(), 0);
    assert!(body.push_chunk(&[1, 2, 3]) == UploadStep::Continue);
    assert!(body.push_chunk(&[4]) == UploadStep::Continue);
    assert!(body.push_chunk(&[]) == UploadStep::Finished);
    assert_eq!(body.into_bytes(), vec![1, 2, 3, 4]);
}

#[test]
fn body_refuses_over_limit() {
    let mut body = UploadBody::new();
    let chunk = [7u8; 1024];
    for _ in 0..4 {
        assert!(body.push_chunk(&chunk) == UploadStep::Continue);
    }
    assert_eq!(body.len(), MAX_BODY_SIZE);
    assert!(body.push_chunk(&[1]) == UploadStep::TooLarge);
    assert_eq!(body.len(), MAX_BODY_SIZE);
    let bytes = body.into_bytes();
    assert_eq!(bytes.len(), 4096);
    let mut small = UploadBody::new();
    assert!(small.push_chunk(&[0u8; 1000]) == UploadStep::Continue);
    assert!(small.push_chunk(&[0u8; 3097]) == UploadStep::TooLarge);
    assert!(small.push_chunk(&[0u8; 3096]) == UploadStep::Continue);
    assert_eq!(small.len(), 4096);
}

#[test]
fn stored_credentials_decode() {
    assert_eq!(
        stored_credentials(b"home", b"pw"),
        Some(("home".to_string(), "pw".to_string()))
    );
    assert_eq!(stored_credentials(&[0xc3], b"pw"), None);
    assert_eq!(stored_credentials(b"home", &[0xff]), None);
}

#[test]
fn credentials_source_decisions() {
    assert!(matches!(credentials_source(None, None), CredentialsSource::Configure));
    assert!(matches!(credentials_source(None, Some(b"pw")), CredentialsSource::Configure));
    assert!(matches!(credentials_source(Some(b"home"), None), CredentialsSource::MissingPsk));
    assert!(matches!(credentials_source(Some(&[0xff]), Some(b"pw")), CredentialsSource::NotText));
    assert!(matches!(credentials_source(Some(b"home"), Some(&[0xc0])), CredentialsSource::NotText));
    match credentials_source(Some(b"home"), Some(b"pw")) {
        CredentialsSource::Stored { ssid, psk } => assert_eq!((ssid.as_str(), psk.as_str()), ("home", "pw")),
        _ => panic!("expected the stored credentials"),
    }
}
