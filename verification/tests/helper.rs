use waybar_wireguard::{
    build_state, humanize, latest_handshake_label, plural, DeviceInfo, PeerInfo, TimeSpan,
};

fn mk_peer(handshake_secs: u64) -> PeerInfo {
    PeerInfo {
        latest_handshake: TimeSpan::from_secs(handshake_secs),
    }
}

fn mk_device(ifname: &str, peers: Vec<PeerInfo>) -> DeviceInfo {
    DeviceInfo {
        ifname: ifname.to_owned(),
        peers,
    }
}

fn pi(secs: u64) -> PeerInfo {
    PeerInfo {
        latest_handshake: TimeSpan::from_secs(secs),
    }
}

#[test]
fn humanize_zero() {
    assert_eq!(humanize(TimeSpan::zero()), "0 seconds");
}

#[test]
fn humanize_singular_unit() {
    assert_eq!(humanize(TimeSpan::from_secs(1)), "1 second");
    assert_eq!(humanize(TimeSpan::from_secs(60)), "1 minute");
    assert_eq!(humanize(TimeSpan::from_secs(3600)), "1 hour");
    assert_eq!(humanize(TimeSpan::from_secs(86_400)), "1 day");
}

#[test]
fn humanize_plural_unit() {
    assert_eq!(humanize(TimeSpan::from_secs(59)), "59 seconds");
    assert_eq!(humanize(TimeSpan::from_secs(120)), "2 minutes");
}

#[test]
fn humanize_skips_zero_leading_units() {
    // 1 hour + 0 minutes + 5 seconds -> minutes omitted
    assert_eq!(humanize(TimeSpan::from_secs(3605)), "1 hour, 5 seconds");
}

#[test]
fn humanize_minute_and_seconds() {
    assert_eq!(humanize(TimeSpan::from_secs(80)), "1 minute, 20 seconds");
}

#[test]
fn humanize_all_units() {
    let d = TimeSpan::from_secs(2 * 86_400 + 3 * 3600 + 4 * 60 + 5);
    assert_eq!(humanize(d), "2 days, 3 hours, 4 minutes, 5 seconds");
}

#[test]
fn humanize_ignores_subsecond_part() {
    assert_eq!(humanize(TimeSpan::new(61, 999_999_999)), "1 minute, 1 second");
}

#[test]
fn humanize_large_span() {
    assert_eq!(
        humanize(TimeSpan::from_secs(18_446_744_073_709_551_615)),
        "213503982334601 days, 7 hours, 15 seconds"
    );
}

#[test]
fn plural_cases() {
    assert_eq!(plural(0, "item"), "0 items");
    assert_eq!(plural(1, "item"), "1 item");
    assert_eq!(plural(5, "item"), "5 items");
}

#[test]
fn plural_multi_digit() {
    assert_eq!(plural(1234567890, "day"), "1234567890 days");
    assert_eq!(plural(10, "hour"), "10 hours");
}

#[test]
fn latest_handshake_no_peers() {
    assert_eq!(latest_handshake_label(&[], TimeSpan::from_secs(100)), None);
}

#[test]
fn latest_handshake_never_handshaken() {
    assert_eq!(
        latest_handshake_label(&[pi(0)], TimeSpan::from_secs(100)),
        None
    );
}

#[test]
fn latest_handshake_picks_max_across_peers() {
    assert_eq!(
        latest_handshake_label(&[pi(100), pi(200), pi(0)], TimeSpan::from_secs(260)),
        Some("1 minute ago".to_owned())
    );
}

#[test]
fn latest_handshake_returns_none_when_clock_behind() {
    assert_eq!(
        latest_handshake_label(&[pi(500)], TimeSpan::from_secs(100)),
        None
    );
}

#[test]
fn latest_handshake_renders_seconds() {
    assert_eq!(
        latest_handshake_label(&[pi(95)], TimeSpan::from_secs(100)),
        Some("5 seconds ago".to_owned())
    );
}

#[test]
fn latest_handshake_same_for_any_peer_order() {
    let now = TimeSpan::from_secs(4000);
    let a = latest_handshake_label(&[pi(10), pi(3000), pi(0), pi(10)], now);
    let b = latest_handshake_label(&[pi(0), pi(3000), pi(10)], now);
    assert_eq!(a, b);
    assert_eq!(a, Some("16 minutes, 40 seconds ago".to_owned()));
}

#[test]
fn latest_handshake_idle_peer_changes_nothing() {
    let now = TimeSpan::from_secs(100);
    assert_eq!(
        latest_handshake_label(&[pi(40), pi(0)], now),
        latest_handshake_label(&[pi(40)], now)
    );
}

#[test]
fn latest_handshake_clock_behind_by_nanoseconds() {
    let peer = PeerInfo {
        latest_handshake: TimeSpan::new(100, 500),
    };
    assert_eq!(latest_handshake_label(&[peer], TimeSpan::new(100, 200)), None);
    assert_eq!(
        latest_handshake_label(&[peer], TimeSpan::new(100, 900)),
        Some("0 seconds ago".to_owned())
    );
}

#[test]
fn time_span_parts() {
    let t = TimeSpan::new(3, 2_500_000_000);
    assert_eq!(t.as_secs(), 5);
    assert_eq!(t.subsec_nanos(), 500_000_000);
    assert!(!t.is_zero());
    assert!(TimeSpan::zero().is_zero());
    let d = TimeSpan::new(5, 100).checked_sub(&TimeSpan::new(2, 200)).unwrap();
    assert_eq!(d.as_secs(), 2);
    assert_eq!(d.subsec_nanos(), 999_999_900);
    assert!(TimeSpan::new(1, 0).checked_sub(&TimeSpan::new(1, 1)).is_none());
    assert!(TimeSpan::new(1, 1).le(&TimeSpan::new(1, 1)));
    assert!(!TimeSpan::new(2, 0).le(&TimeSpan::new(1, 999_999_999)));
}

#[test]
fn build_state_down_when_interface_absent() {
    let s = build_state("wg0".into(), None, TimeSpan::zero());
    assert_eq!(s.state, "down");
    assert_eq!(s.interface, "wg0");
    assert!(s.latest_handshake.is_none());
}

#[test]
fn build_state_up_uses_device_ifname_over_arg() {
    let dev = mk_device("wg7", vec![mk_peer(50)]);
    let s = build_state("wg0".into(), Some(&dev), TimeSpan::from_secs(110));
    assert_eq!(s.state, "up");
    assert_eq!(s.interface, "wg7");
    assert_eq!(s.latest_handshake.as_deref(), Some("1 minute ago"));
}
