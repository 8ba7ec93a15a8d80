use self_esp::cli::flasher::{board_info_report, BoardInfo};

#[test]
fn board_report_with_revision() {
    let info = BoardInfo {
        chip: "esp32".to_string(),
        revision: Some((3, 1)),
        crystal_frequency: "40 MHz".to_string(),
        flash_size: "4MB".to_string(),
        features: vec!["WiFi".to_string(), "BT".to_string(), "Dual Core".to_string()],
        mac_address: "24:0a:c4:00:00:01".to_string(),
    };
    assert_eq!(
        board_info_report(&info),
        "Chip type:         esp32 (revision v3.1)\n\
         Crystal frequency: 40 MHz\n\
         Flash size:        4MB\n\
         Features:          WiFi, BT, Dual Core\n\
         MAC address:       24:0a:c4:00:00:01\n"
    );
}

#[test]
fn board_report_without_revision() {
    let info = BoardInfo {
        chip: "esp32c3".to_string(),
        revision: None,
        crystal_frequency: "40 MHz".to_string(),
        flash_size: "2MB".to_string(),
        features: vec![],
        mac_address: "m".to_string(),
    };
    assert_eq!(
        board_info_report(&info),
        "Chip type:         esp32c3\nCrystal frequency: 40 MHz\nFlash size:        2MB\nFeatures:          \nMAC address:       m\n"
    );
}

