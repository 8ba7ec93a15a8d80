use self_esp::cli::upload::{
    debounce_step, upload_address_text, upload_url, watch_step, WatchEvent, WatchStep,
};

#[test]
fn upload_address() {
    assert_eq!(upload_address_text("http://192.168.4.1"), "http://192.168.4.1/upload");
    assert_eq!(upload_address_text(""), "/upload");
}

#[test]
fn upload_url_parses() {
    let u = upload_url("http://192.168.4.1").unwrap();
    assert_eq!(u.as_str(), "http://192.168.4.1/upload");
    assert_eq!(u.path(), "/upload");
    assert!(upload_url("192.168.4.1").is_none());
    assert!(upload_url("").is_none());
}

#[test]
fn watch_steps() {
    assert!(watch_step(WatchEvent::ContentModified, 700) == WatchStep::Publish);
    assert!(watch_step(WatchEvent::ContentModified, 5000) == WatchStep::Publish);
    assert!(watch_step(WatchEvent::ContentModified, 699) == WatchStep::Skip);
    assert!(watch_step(WatchEvent::Other, 5000) == WatchStep::Skip);
    assert!(watch_step(WatchEvent::Failed, 0) == WatchStep::Exit);
    assert!(watch_step(WatchEvent::ChannelFailed, 0) == WatchStep::Report);
}

#[test]
fn debounce_groups_changes_within_700_ms() {
    let (step, last) = debounce_step(None, WatchEvent::ContentModified, 10);
    assert!(step == WatchStep::Publish);
    assert_eq!(last, Some(10));
    let (step, last) = debounce_step(last, WatchEvent::ContentModified, 300);
    assert!(step == WatchStep::Skip);
    assert_eq!(last, Some(10));
    let (step, last) = debounce_step(last, WatchEvent::ContentModified, 709);
    assert!(step == WatchStep::Skip);
    let (step, last) = debounce_step(last, WatchEvent::ContentModified, 710);
    assert!(step == WatchStep::Publish);
    assert_eq!(last, Some(710));
    let (step, last2) = debounce_step(last, WatchEvent::Other, 5000);
    assert!(step == WatchStep::Skip);
    assert_eq!(last2, last);
    assert!(debounce_step(last, WatchEvent::Failed, 5000).0 == WatchStep::Exit);
    assert!(debounce_step(last, WatchEvent::ChannelFailed, 5000).0 == WatchStep::Report);
    assert!(debounce_step(Some(1000), WatchEvent::ContentModified, 5).0 == WatchStep::Skip);
}
