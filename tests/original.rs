use vless_core::config::PerformanceConfig;
use vless_core::memory::{BufferPool, GlobalBufferPools};
use vless_core::utils::{generate_vless_url, url_encode};
use vless_core::xtls::{detect_tls_content, TlsContentType};

#[test]
fn test_udp_config_defaults() {
    let config = PerformanceConfig::default();
    assert_eq!(config.udp_timeout, 30);
    assert_eq!(config.udp_recv_buffer, 64 * 1024);
}

#[test]
fn test_buffer_pool_basic() {
    let mut pool = BufferPool::new(1024, 2, 10);

    let buf1 = pool.get_buffer();
    assert_eq!(buf1.len(), 1024);

    let buf2 = pool.get_buffer();
    assert_eq!(buf2.len(), 1024);

    let stats = pool.get_stats();
    assert_eq!(stats.total_allocated, 2);
}

#[test]
fn test_buffer_pool_reuse() {
    let mut pool = BufferPool::new(1024, 1, 10);

    {
        let buf = pool.get_buffer();
        buf.return_to_pool(&mut pool);
    }

    let _buf2 = pool.get_buffer();

    let stats = pool.get_stats();
    assert_eq!(stats.total_allocated, 2);
    assert_eq!(stats.total_returned, 1);
    assert!(stats.cache_hits > 0);
}

#[test]
fn memory_test_global_pools() {
    let mut pools = GlobalBufferPools::new();

    let small = pools.get_small_buffer();
    let medium = pools.get_medium_buffer();
    let large = pools.get_large_buffer();

    assert_eq!(small.len(), 4 * 1024);
    assert_eq!(medium.len(), 64 * 1024);
    assert_eq!(large.len(), 128 * 1024);
}

#[test]
fn test_generate_vless_url_with_email() {
    let url = generate_vless_url(
        "615767da-4db9-4df7-9f12-d7d617fc1d96",
        "123.45.67.89",
        8443,
        Some("user@example.com"),
    );

    assert!(url.starts_with("vless://"));
    assert!(url.contains("@123.45.67.89:8443?"));
    assert!(url.contains("encryption=none"));
    assert!(url.contains("security=none"));
    assert!(url.contains("type=tcp"));
    assert!(url.ends_with("#123.45.67.89%2buser%40example.com"));
}

#[test]
fn test_generate_vless_url_without_email() {
    let url = generate_vless_url(
        "615767da-4db9-4df7-9f12-d7d617fc1d96",
        "123.45.67.89",
        8443,
        None,
    );

    assert!(url.ends_with("#123.45.67.89%2b615767da"));
}

#[test]
fn test_url_encode() {
    assert_eq!(url_encode("user@example.com"), "user%40example.com");
    assert_eq!(url_encode("123.45.67.89"), "123.45.67.89");
}

#[test]
fn test_tls_content_type_detection() {
    assert!(TlsContentType::is_tls_record(0x16));
    assert!(TlsContentType::is_tls_record(0x17));
    assert!(TlsContentType::is_tls_record(0x14));
    assert!(TlsContentType::is_tls_record(0x15));

    assert!(!TlsContentType::is_tls_record(0x00));
    assert!(!TlsContentType::is_tls_record(0x01));
    assert!(!TlsContentType::is_tls_record(0xFF));
}

#[test]
fn test_tls_content_detection() {
    let tls_data = [0x16, 0x03, 0x01, 0x00, 0x01, 0x00];
    assert!(detect_tls_content(&tls_data));

    let app_data = [0x17, 0x03, 0x04, 0x00, 0x02, 0x00, 0x00];
    assert!(detect_tls_content(&app_data));

    let non_tls = [0x00, 0x01, 0x02, 0x03];
    assert!(!detect_tls_content(&non_tls));

    assert!(!detect_tls_content(&[]));
}

#[test]
fn test_tls_version_validation() {
    let tls_10 = [0x16, 0x03, 0x01, 0x00, 0x01, 0x00];
    assert!(detect_tls_content(&tls_10));

    let tls_13 = [0x17, 0x03, 0x04, 0x00, 0x02, 0x00, 0x00];
    assert!(detect_tls_content(&tls_13));

    let invalid_major = [0x16, 0x02, 0x01, 0x00, 0x01, 0x00];
    assert!(!detect_tls_content(&invalid_major));

    let invalid_minor = [0x16, 0x03, 0x00, 0x00, 0x01, 0x00];
    assert!(!detect_tls_content(&invalid_minor));
}

#[test]
fn test_tls_length_validation() {
    let mut valid_length = [0x16u8; 6];
    valid_length[1] = 0x03;
    valid_length[2] = 0x01;
    valid_length[3] = 0x00;
    valid_length[4] = 0x01;
    assert!(detect_tls_content(&valid_length));

    let mut too_large = [0x16u8; 6];
    too_large[1] = 0x03;
    too_large[2] = 0x01;
    too_large[3] = 0x40;
    too_large[4] = 0x01;
    assert!(!detect_tls_content(&too_large));

    let mut incomplete = [0x16u8; 6];
    incomplete[1] = 0x03;
    incomplete[2] = 0x01;
    incomplete[3] = 0x00;
    incomplete[4] = 0x10;
    assert!(!detect_tls_content(&incomplete));
}
