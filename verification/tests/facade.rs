use peerdrive_ctl::api;
use peerdrive_ctl::command::{self, ControlVerb};
use peerdrive_ctl::peers;
use peerdrive_ctl::pins;
use peerdrive_ctl::settings::UserConfig;
use peerdrive_ctl::store;

fn words(args: Vec<Vec<u8>>) -> Vec<String> {
    args.into_iter()
        .map(|a| String::from_utf8(a).unwrap())
        .collect()
}

#[test]
fn control_args_are_non_blocking() {
    let args = words(command::control_args(&ControlVerb::Start, b"peerdrive"));
    assert_eq!(
        args,
        ["--user", "--no-pager", "start", "--no-block", "peerdrive.service"]
    );
    let args = words(command::control_args(&ControlVerb::Stop, b"peerdrive.service"));
    assert_eq!(
        args,
        ["--user", "--no-pager", "stop", "--no-block", "peerdrive.service"]
    );
    let args = words(command::control_args(&ControlVerb::Restart, b"peerdrive"));
    assert_eq!(
        args,
        ["--user", "--no-pager", "restart", "--no-block", "peerdrive.service"]
    );
}

#[test]
fn status_args_query_is_active() {
    let args = words(command::status_args(b"peerdrive"));
    assert_eq!(args, ["--user", "is-active", "peerdrive.service"]);
}

#[test]
fn journal_args_follow_with_backlog() {
    let args = words(command::journal_args(b"peerdrive"));
    assert_eq!(
        args,
        ["--user", "-u", "peerdrive.service", "-f", "-n", "200", "-o", "short-iso"]
    );
}

#[test]
fn decimal_rendering() {
    assert_eq!(api::u64_to_dec(0), b"0".to_vec());
    assert_eq!(api::u64_to_dec(7), b"7".to_vec());
    assert_eq!(api::u64_to_dec(8012), b"8012".to_vec());
    assert_eq!(
        api::u64_to_dec(u64::MAX),
        b"18446744073709551615".to_vec()
    );
}

#[test]
fn require_port_rejects_zero() {
    assert_eq!(api::require_port(8080), Ok(8080));
    match api::require_port(0) {
        Err(m) => assert_eq!(m, b"HTTP port is not configured".to_vec()),
        Ok(_) => panic!("port 0 must be rejected"),
    }
}

#[test]
fn effective_port_falls_back() {
    assert_eq!(peers::effective_port(9000), 9000);
    assert_eq!(peers::effective_port(0), 8012);
}

#[test]
fn closest_url_variants() {
    assert_eq!(
        peers::closest_url(8012, &None, None),
        b"http://0.0.0.0:8012/closest".to_vec()
    );
    assert_eq!(
        peers::closest_url(8012, &Some(b"peer one".to_vec()), Some(5)),
        b"http://0.0.0.0:8012/closest?target=peer%20one&k=5".to_vec()
    );
    // An empty target counts as absent, so k takes the first separator.
    assert_eq!(
        peers::closest_url(8012, &Some(Vec::new()), Some(3)),
        b"http://0.0.0.0:8012/closest?k=3".to_vec()
    );
}

#[test]
fn pin_urls_percent_encode() {
    assert_eq!(
        pins::pins_url(1234),
        b"http://127.0.0.1:1234/pins".to_vec()
    );
    assert_eq!(
        pins::pin_url(1234, b"bafy/123"),
        b"http://127.0.0.1:1234/pin?cid=bafy%2F123".to_vec()
    );
    assert_eq!(
        pins::put_url(1234, b"/tmp/a b.txt", false),
        b"http://127.0.0.1:1234/dfs/put?in=%2Ftmp%2Fa%20b.txt".to_vec()
    );
    assert_eq!(
        pins::put_url(1234, b"/tmp/x", true),
        b"http://127.0.0.1:1234/dfs/put?in=%2Ftmp%2Fx&compress=1".to_vec()
    );
}

#[test]
fn check_cid_rejects_blank() {
    assert!(pins::check_cid(b"bafy123").is_ok());
    match pins::check_cid(b"   \t") {
        Err(m) => assert_eq!(m, b"cid is required".to_vec()),
        Ok(_) => panic!("blank cid must be rejected"),
    }
}

#[test]
fn pin_follows_plain_put_only() {
    assert!(!pins::compress_requested(None));
    assert!(!pins::compress_requested(Some(false)));
    assert!(pins::compress_requested(Some(true)));
    assert!(pins::pin_after_put(false));
    assert!(!pins::pin_after_put(true));
}

#[test]
fn store_urls() {
    assert_eq!(
        store::store_size_url(8012),
        b"http://127.0.0.1:8012/store/size".to_vec()
    );
    assert_eq!(store::gc_url(8012), b"http://127.0.0.1:8012/gc".to_vec());
}

#[test]
fn user_config_defaults() {
    let cfg = UserConfig::default();
    assert_eq!(cfg.node_id, [0u8; 32]);
    assert_eq!(cfg.tcp_port, 0);
    assert_eq!(cfg.http_port, 0);
    assert!(cfg.relay.is_none());
    assert_eq!(cfg.blockstore_path, "");
}

#[test]
fn config_relpath_value() {
    assert_eq!(
        peerdrive_ctl::settings::config_relpath(),
        b"peerdrive/config.json".to_vec()
    );
}
