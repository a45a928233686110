use vless_core::buffer_pool;
use vless_core::config::{
    clamp_buffer_size, header_buffer_size, normalize_ws_path, validate_config, validate_parsed, Config, ConfigError,
    MonitoringConfig, PerformanceConfig, ServerSettings, TlsConfig, TransportProtocol, UserConfig,
};
use vless_core::stats::{format_duration, Stats, UserCounters};
use vless_core::time::{civil_from_days, format_rfc3339, UtcTime};
use vless_core::wizard::ConfigWizard;

fn config(port: u16, uuids: &[&str], udp_timeout: u64) -> Config {
    let mut performance = PerformanceConfig::default();
    performance.udp_timeout = udp_timeout;
    Config {
        server: ServerSettings {
            listen: "0.0.0.0".to_string(),
            port,
            protocol: TransportProtocol::Tcp,
            ws_path: "/".to_string(),
        },
        users: uuids
            .iter()
            .map(|u| UserConfig { uuid: u.to_string(), email: Some("a b@c.d".to_string()) })
            .collect(),
        monitoring: MonitoringConfig::default(),
        performance,
        tls: TlsConfig::default(),
        vless_url: None,
    }
}

const ID: &str = "615767da-4db9-4df7-9f12-d7d617fc1d96";

#[test]
fn valid_config_yields_user_ids() {
    let ids = validate_config(&config(443, &[ID], 30)).unwrap();
    assert_eq!(ids, vec![0x615767da4db94df79f12d7d617fc1d96]);
}

#[test]
fn udp_timeout_bounds() {
    assert_eq!(validate_config(&config(443, &[ID], 0)), Err(ConfigError::InvalidUdpTimeout(0)));
    assert_eq!(validate_config(&config(443, &[ID], 3601)), Err(ConfigError::InvalidUdpTimeout(3601)));
    assert!(validate_config(&config(443, &[ID], 1)).is_ok());
    assert!(validate_config(&config(443, &[ID], 3600)).is_ok());
}

#[test]
fn port_users_and_uuids() {
    assert_eq!(validate_config(&config(0, &[ID], 30)), Err(ConfigError::InvalidPort));
    assert_eq!(validate_config(&config(443, &[], 30)), Err(ConfigError::NoUsers));
    assert_eq!(validate_config(&config(443, &[ID, "nope", "bad"], 30)), Err(ConfigError::InvalidUuid(1)));
    let c = config(443, &[ID, ID], 30);
    assert_eq!(validate_parsed(&c, &vec![Some(1), None]), Err(ConfigError::InvalidUuid(1)));
    assert_eq!(validate_parsed(&c, &vec![Some(1), Some(2)]), Ok(vec![1, 2]));
}

#[test]
fn buffer_size_is_clamped() {
    assert_eq!(clamp_buffer_size(1024), 1024);
    assert_eq!(clamp_buffer_size(1000), 1024);
    assert_eq!(clamp_buffer_size(0), 1024);
    assert_eq!(clamp_buffer_size(131072), 131072);
    assert_eq!(clamp_buffer_size(1 << 30), 16 * 1024 * 1024);
    let pool = buffer_pool::BufferPool::new(512, 0);
    assert_eq!(pool.buffer_size(), 1024);
}

#[test]
fn relay_pool_reuses_buffers() {
    let mut pool = buffer_pool::BufferPool::new(2048, 1);
    let mut a = pool.acquire();
    assert_eq!(a.len(), 2048);
    a.as_mut()[0] = 7;
    pool.release(a);
    assert_eq!(pool.pool_size(), 1);
    let b = pool.acquire();
    assert_eq!(pool.pool_size(), 0);
    let data = b.detach();
    assert_eq!(data.len(), 2048);
    assert_eq!(data[0], 0);
    let c = pool.acquire();
    let d = pool.acquire();
    pool.release(c);
    pool.release(d);
    assert_eq!(pool.pool_size(), 1);
}

#[test]
fn ws_path_gets_a_slash() {
    assert_eq!(normalize_ws_path("vless"), "/vless");
    assert_eq!(normalize_ws_path("/vless"), "/vless");
    assert_eq!(normalize_ws_path(""), "/");
}

#[test]
fn config_share_link() {
    let c = config(443, &[ID], 30);
    assert_eq!(
        c.generate_vless_url(),
        format!("vless://{}@127.0.0.1:443?security=none&encryption=none&flow=&type=tcp#a%20b@c.d", ID)
    );
    let mut t = config(8443, &[ID], 30);
    t.server.listen = "1.2.3.4".to_string();
    t.tls.enabled = true;
    t.users[0].email = None;
    assert_eq!(
        t.generate_vless_url(),
        format!("vless://{}@1.2.3.4:8443?security=tls&encryption=none&flow=&sni=localhost&alpn=h2,http/1.1&type=tcp#vless-rust", ID)
    );
    assert_eq!(config(443, &[], 30).generate_vless_url(), "");
}

#[test]
fn rfc3339_dates() {
    assert_eq!(format_rfc3339(0), "1970-01-01T00:00:00Z");
    assert_eq!(format_rfc3339(1707222896), "2024-02-06T12:34:56Z");
    assert_eq!(format_rfc3339(951782400), "2000-02-29T00:00:00Z");
    assert_eq!(format_rfc3339(1704067199), "2023-12-31T23:59:59Z");
    assert_eq!(format_rfc3339(4102444800), "2100-01-01T00:00:00Z");
    assert_eq!(format_rfc3339(253402300799), "9999-12-31T23:59:59Z");
    assert_eq!(civil_from_days(0), (1970, 1, 1));
    assert_eq!(civil_from_days(365), (1971, 1, 1));
}

#[test]
fn utc_time_differences() {
    let a = UtcTime { timestamp: 100 };
    let b = UtcTime { timestamp: 40 };
    assert_eq!(a.signed_duration_since(b), 60);
    assert_eq!(b.signed_duration_since(a), -60);
    let now = UtcTime::now();
    assert!(now.timestamp > 1_600_000_000);
    assert_eq!(now.to_rfc3339().len(), 20);
}

#[test]
fn uptime_text() {
    assert_eq!(format_duration(0), "0s");
    assert_eq!(format_duration(59), "59s");
    assert_eq!(format_duration(61), "1m 1s");
    assert_eq!(format_duration(3600), "1h 0m 0s");
    assert_eq!(format_duration(90061), "1d 1h 1m 1s");
}

#[test]
fn defaults() {
    let m = MonitoringConfig::default();
    assert_eq!(m.vless_max_connections, 300);
    let t = TlsConfig::default();
    assert_eq!(t.cert_file, "certs/server.crt");
    assert_eq!(t.key_file, "certs/server.key");
    assert_eq!(t.server_name, "localhost");
    assert!(!t.enabled);
    let p = PerformanceConfig::default();
    assert_eq!(p.buffer_size, 128 * 1024);
    assert_eq!(p.stats_batch_size, 64 * 1024);
}

#[test]
fn email_format_check() {
    assert!(ConfigWizard::is_valid_email_format("user@example.com"));
    assert!(ConfigWizard::is_valid_email_format("a@b.c"));
    assert!(!ConfigWizard::is_valid_email_format("userexample.com"));
    assert!(!ConfigWizard::is_valid_email_format("@example.com"));
    assert!(!ConfigWizard::is_valid_email_format("user@"));
    assert!(!ConfigWizard::is_valid_email_format("user@.com"));
    assert!(!ConfigWizard::is_valid_email_format("user@example."));
    assert!(!ConfigWizard::is_valid_email_format("user@example"));
}

#[test]
fn first_read_size() {
    assert_eq!(header_buffer_size(131072), 4096);
    assert_eq!(header_buffer_size(1024), 1024);
    assert_eq!(header_buffer_size(0), 1);
}

#[test]
fn traffic_counters() {
    let mut s = Stats::new();
    s.add_user_upload_bytes(7, 100);
    s.add_user_download_bytes(7, 40);
    s.add_user_upload_bytes(8, 1);
    s.increment_user_connection(7);
    s.increment_user_connection(7);
    s.decrement_user_connection(7);
    s.increment_rejected_connections();
    assert_eq!(s.upload, 101);
    assert_eq!(s.download, 40);
    assert_eq!(s.get_active_connections(), 1);
    assert_eq!(s.get_rejected_connections(), 1);
    assert_eq!(s.get_user(7), UserCounters { upload: 100, download: 40, active: 1 });
    assert_eq!(s.get_user(9), UserCounters { upload: 0, download: 0, active: 0 });
    s.decrement_user_connection(9);
    assert_eq!(s.get_active_connections(), 0);
    assert_eq!(s.get_user(7).active, 1);
    s.add_upload_bytes(u64::MAX);
    assert_eq!(s.upload, u64::MAX);
}
