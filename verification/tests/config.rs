use std::time::Duration;

use inspect_core::config::{depth_allows, ProtocolInspectionConfig, ProtocolInspectionSizeLimit};

#[test]
fn config_defaults() {
    let config = ProtocolInspectionConfig::default();
    assert_eq!(config.max_depth(), 4);
    assert_eq!(config.data0_buffer_size(), 4096);
    assert_eq!(config.data0_wait_timeout(), Duration::from_secs(60));
    assert_eq!(config.data0_read_timeout(), Duration::from_secs(4));
    assert_eq!(config.size_limit(), &ProtocolInspectionSizeLimit::default());
    assert_eq!(config.size_limit().http_client_request_uri, 4096);
    assert_eq!(config.size_limit().smtp_server_greeting_msg, 512);
    assert_eq!(config.size_limit().ftp_server_greeting_msg, 512);
    assert_eq!(config.size_limit().imap_server_greeting_msg, 512);
    assert_eq!(config.size_limit().nats_server_info_line, 1024);
    assert!(depth_allows(&config, 3));
    assert!(!depth_allows(&config, 4));
}

#[test]
fn config_setters() {
    let mut config = ProtocolInspectionConfig::default();
    config.set_max_depth(2);
    config.set_data0_buffer_size(512);
    config.set_data0_wait_timeout(Duration::from_millis(1500));
    config.set_data0_read_timeout(Duration::from_secs(1));
    config.size_limit_mut().set_smtp_server_greeting_msg(1024);
    config.size_limit_mut().set_http_client_request_uri(8192);
    config.size_limit_mut().set_ftp_server_greeting_msg(1);
    config.size_limit_mut().set_imap_server_greeting_msg(2);
    config.size_limit_mut().set_nats_server_info_line(3);
    assert_eq!(config.max_depth(), 2);
    assert_eq!(config.data0_buffer_size(), 512);
    assert_eq!(config.data0_wait_timeout(), Duration::from_millis(1500));
    assert_eq!(config.data0_read_timeout(), Duration::from_secs(1));
    assert_eq!(
        config.size_limit(),
        &ProtocolInspectionSizeLimit {
            ftp_server_greeting_msg: 1,
            http_client_request_uri: 8192,
            imap_server_greeting_msg: 2,
            nats_server_info_line: 3,
            smtp_server_greeting_msg: 1024,
        }
    );
    let copy = config.clone();
    assert_eq!(copy, config);
    assert_ne!(copy, ProtocolInspectionConfig::default());
}
