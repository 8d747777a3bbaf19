use waybar_wireguard::{
    apply_format, parse_config, parse_wg_dump, render_from_helper, state_classes, toggle_outcome,
    wg_dump_from_fields, Config, ConfigOverrides, FormatSetting, HelperOutput, Render,
    StateClasses, ToggleAction, WgDump, WgState,
};

// ---------- apply_format ----------

fn check_format(fmt: &str, status: &str, expected: &str) {
    assert_eq!(apply_format(fmt, status), expected);
}

#[test]
fn apply_format_empty_format() {
    check_format("", "X", "");
}

#[test]
fn apply_format_empty_label() {
    check_format("WG: {}", "", "WG: ");
}

#[test]
fn apply_format_no_placeholder() {
    check_format("plain", "X", "plain");
}

#[test]
fn apply_format_ascii_only() {
    check_format("[WG: {}]", "X", "[WG: X]");
}

#[test]
fn apply_format_unicode() {
    check_format("🛡️: {}", "працює!", "🛡️: працює!");
}

#[test]
fn apply_format_replaces_all() {
    check_format("{} {}", "X", "X X");
}

#[test]
fn apply_format_single_pass_not_recursive() {
    check_format("{}", "{}", "{}");
}

#[test]
fn apply_format_only_exact_braces_match() {
    check_format("{a} {} {b}", "X", "{a} X {b}");
}

#[test]
fn apply_format_brace_before_placeholder() {
    check_format("{{}}", "X", "{X}");
}

// ---------- Config::cmd ----------

fn check_cmd(prefix: &str, dev: &str, expected: &[&str]) {
    let config = Config {
        wireguard_dev: dev.into(),
        ..Config::default()
    };
    let expected: Vec<String> = expected.iter().map(|s| s.to_string()).collect();
    assert_eq!(config.cmd(prefix), expected);
}

#[test]
fn config_cmd_default_up_prefix() {
    check_cmd(
        "sudo /usr/bin/wg-quick up",
        "wg0",
        &["sudo", "/usr/bin/wg-quick", "up", "wg0"],
    );
}

#[test]
fn config_cmd_single_word_prefix() {
    check_cmd("your_cmd", "wg0", &["your_cmd", "wg0"]);
}

#[test]
fn config_cmd_collapses_multiple_spaces() {
    check_cmd("sudo  wg-quick   up", "wg0", &["sudo", "wg-quick", "up", "wg0"]);
}

#[test]
fn config_cmd_trims_outer_whitespace() {
    check_cmd("  sudo wg-quick up  ", "wg0", &["sudo", "wg-quick", "up", "wg0"]);
}

#[test]
fn config_cmd_tab_separator() {
    check_cmd("sudo\twg-quick\tup", "wg0", &["sudo", "wg-quick", "up", "wg0"]);
}

#[test]
fn config_cmd_empty_prefix_only_dev() {
    check_cmd("", "wg0", &["wg0"]);
}

#[test]
fn config_cmd_whitespace_only_prefix() {
    check_cmd("   ", "wg0", &["wg0"]);
}

#[test]
fn config_cmd_non_default_dev() {
    check_cmd("wg-quick up", "vpn0", &["wg-quick", "up", "vpn0"]);
}

#[test]
fn config_cmd_unicode_whitespace() {
    check_cmd("sudo\u{3000}wg-quick\u{a0}up\n", "wg0", &["sudo", "wg-quick", "up", "wg0"]);
}

#[test]
fn toggle_command_follows_state() {
    let config = Config::default();
    let down: Vec<String> = ["sudo", "/usr/bin/wg-quick", "down", "wg0"]
        .iter()
        .map(|s| s.to_string())
        .collect();
    let up: Vec<String> = ["sudo", "/usr/bin/wg-quick", "up", "wg0"]
        .iter()
        .map(|s| s.to_string())
        .collect();
    assert_eq!(config.toggle_command(true), down);
    assert_eq!(config.toggle_command(false), up);
}

// ---------- parse_wg_dump ----------

fn check_dump(input: &str, state: WgState, tooltip: &str) {
    let wg_dump = WgDump {
        state,
        tooltip: tooltip.into(),
    };
    assert_eq!(parse_wg_dump(input.as_bytes()), wg_dump)
}

#[test]
fn parse_wg_dump_empty() {
    check_dump("", WgState::Unknown, "");
}

#[test]
fn parse_wg_dump_minimal() {
    check_dump("{}", WgState::Unknown, "");
}

#[test]
fn parse_wg_dump_invalid_json() {
    check_dump("not json", WgState::Unknown, "");
}

#[test]
fn parse_wg_dump_null_top() {
    check_dump("null", WgState::Unknown, "");
}

#[test]
fn parse_wg_dump_array_top() {
    check_dump("[]", WgState::Unknown, "");
}

#[test]
fn parse_wg_dump_state_up() {
    check_dump(r#"{"state":"up"}"#, WgState::Up, "state: up");
}

#[test]
fn parse_wg_dump_state_down() {
    check_dump(r#"{"state":"down"}"#, WgState::Down, "state: down");
}

#[test]
fn parse_wg_dump_unrecognised_state_value() {
    check_dump(r#"{"state":"weird"}"#, WgState::Unknown, "state: weird");
}

#[test]
fn parse_wg_dump_state_non_string_falls_back() {
    check_dump(r#"{"state":42}"#, WgState::Unknown, "");
}

#[test]
fn parse_wg_dump_filters_non_string_values() {
    check_dump(r#"{"state":"up","count":3}"#, WgState::Up, "state: up");
}

#[test]
fn parse_wg_dump_realistic() {
    check_dump(
        r#"{"state":"up","interface":"wg0","latest handshake":"5 seconds ago"}"#,
        WgState::Up,
        "interface: wg0\nlatest handshake: 5 seconds ago\nstate: up",
    );
}

#[test]
fn parse_wg_dump_accepts_comments() {
    check_dump("{ // helper\n\"state\":\"down\"}", WgState::Down, "state: down");
}

#[test]
fn wg_dump_from_fields_reads_first_state_field() {
    let fields = vec![
        ("interface".to_string(), Some("wg0".to_string())),
        ("state".to_string(), Some("down".to_string())),
        ("peers".to_string(), None),
    ];
    assert_eq!(
        wg_dump_from_fields(Some(fields)),
        WgDump {
            state: WgState::Down,
            tooltip: "interface: wg0\nstate: down".into(),
        }
    );
    assert_eq!(
        wg_dump_from_fields(None),
        WgDump {
            state: WgState::Unknown,
            tooltip: String::new(),
        }
    );
}

// ---------- parse_config ----------

#[test]
fn parse_config_empty_map_uses_defaults() {
    assert_eq!(
        parse_config(Some(ConfigOverrides::default())),
        Config::default()
    );
}

#[test]
fn parse_config_partial_override_keeps_other_defaults() {
    let raw = ConfigOverrides {
        helper_cmd: Some("/usr/local/bin/wg-status".into()),
        wireguard_dev: Some("vpn0".into()),
        ..ConfigOverrides::default()
    };
    assert_eq!(
        parse_config(Some(raw)),
        Config {
            helper_cmd: "/usr/local/bin/wg-status".into(),
            wireguard_dev: "vpn0".into(),
            ..Config::default()
        }
    );
}

#[test]
fn parse_config_format_string_preserved() {
    let raw = ConfigOverrides {
        format: Some(FormatSetting::Text("VPN: {}".into())),
        ..ConfigOverrides::default()
    };
    assert_eq!(
        parse_config(Some(raw)),
        Config {
            format: "VPN: {}".into(),
            ..Config::default()
        }
    );
}

#[test]
fn parse_config_format_empty_map_falls_back() {
    let raw = ConfigOverrides {
        format: Some(FormatSetting::Other),
        helper_cmd: Some("x".into()),
        ..ConfigOverrides::default()
    };
    assert_eq!(
        parse_config(Some(raw)),
        Config {
            helper_cmd: "x".into(),
            ..Config::default()
        }
    );
}

#[test]
fn parse_config_bad_field_type_falls_back_to_full_default() {
    assert_eq!(parse_config(None), Config::default());
}

#[test]
fn parse_config_every_field_overridden() {
    let raw = ConfigOverrides {
        helper_cmd: Some("h".into()),
        wireguard_dev: Some("d".into()),
        wireguard_up_cmd_prefix: Some("u".into()),
        wireguard_down_cmd_prefix: Some("w".into()),
        refresh_interval_seconds: Some(30),
        format: Some(FormatSetting::Text("f".into())),
        label_up: Some("lu".into()),
        label_down: Some("ld".into()),
        label_unknown: Some("lk".into()),
        widget_name: Some("n".into()),
        widget_icon_name: Some("i".into()),
    };
    assert_eq!(
        parse_config(Some(raw)),
        Config {
            helper_cmd: "h".into(),
            wireguard_dev: "d".into(),
            wireguard_up_cmd_prefix: "u".into(),
            wireguard_down_cmd_prefix: "w".into(),
            refresh_interval_seconds: 30,
            format: "f".into(),
            label_up: "lu".into(),
            label_down: "ld".into(),
            label_unknown: "lk".into(),
            widget_name: "n".into(),
            widget_icon_name: "i".into(),
        }
    );
}

#[test]
fn default_config_values() {
    let c = Config::default();
    assert_eq!(c.helper_cmd, "waybar-wireguard");
    assert_eq!(c.wireguard_dev, "wg0");
    assert_eq!(c.wireguard_up_cmd_prefix, "sudo /usr/bin/wg-quick up");
    assert_eq!(c.wireguard_down_cmd_prefix, "sudo /usr/bin/wg-quick down");
    assert_eq!(c.refresh_interval_seconds, 5);
    assert_eq!(c.format, "WG: {}");
    assert_eq!(c.label_up, "✓");
    assert_eq!(c.label_down, "✗");
    assert_eq!(c.label_unknown, "?");
    assert_eq!(c.widget_name, "cffi-wireguard");
    assert_eq!(c.widget_icon_name, "cffi-wireguard-icon");
}

// ---------- render_from_helper ----------

fn ok_out(stdout: &str) -> HelperOutput {
    HelperOutput {
        success: true,
        status: "exit status: 0".into(),
        stdout: stdout.as_bytes().to_vec(),
        stderr: Vec::new(),
    }
}

fn nonzero_out(exit_code: i32, stderr: &str) -> HelperOutput {
    HelperOutput {
        success: false,
        status: format!("exit status: {exit_code}"),
        stdout: Vec::new(),
        stderr: stderr.as_bytes().to_vec(),
    }
}

fn check_render(result: Result<HelperOutput, String>, expected: Render) {
    let config = Config::default();
    assert_eq!(render_from_helper(&config, result), expected);
}

#[test]
fn render_from_helper_success_up() {
    check_render(
        Ok(ok_out(r#"{"state":"up"}"#)),
        Render {
            label: "WG: ✓".into(),
            tooltip: "state: up".into(),
            state: WgState::Up,
            active: true,
        },
    );
}

#[test]
fn render_from_helper_success_down() {
    check_render(
        Ok(ok_out(r#"{"state":"down"}"#)),
        Render {
            label: "WG: ✗".into(),
            tooltip: "state: down".into(),
            state: WgState::Down,
            active: false,
        },
    );
}

#[test]
fn render_from_helper_success_unrecognised_state() {
    check_render(
        Ok(ok_out(r#"{"state":"weird"}"#)),
        Render {
            label: "WG: ?".into(),
            tooltip: "state: weird".into(),
            state: WgState::Unknown,
            active: false,
        },
    );
}

#[test]
fn render_from_helper_success_with_extra_fields() {
    check_render(
        Ok(ok_out(r#"{"state":"up","interface":"wg0"}"#)),
        Render {
            label: "WG: ✓".into(),
            tooltip: "interface: wg0\nstate: up".into(),
            state: WgState::Up,
            active: true,
        },
    );
}

#[test]
fn render_from_helper_non_zero_exit() {
    check_render(
        Ok(nonzero_out(1, "boom")),
        Render {
            label: "WG: ?".into(),
            tooltip: "`waybar-wireguard` exited with exit status: 1\nboom".into(),
            state: WgState::Unknown,
            active: false,
        },
    );
}

#[test]
fn render_from_helper_spawn_error() {
    check_render(
        Err("no helper".into()),
        Render {
            label: "WG: ?".into(),
            tooltip: "failed to spawn `waybar-wireguard`: no helper".into(),
            state: WgState::Unknown,
            active: false,
        },
    );
}

#[test]
fn render_from_helper_invalid_utf8_stderr() {
    let out = HelperOutput {
        success: false,
        status: "exit status: 2".into(),
        stdout: Vec::new(),
        stderr: vec![b'a', 0xff, b'b'],
    };
    let r = render_from_helper(&Config::default(), Ok(out));
    assert_eq!(r.tooltip, "`waybar-wireguard` exited with exit status: 2\na\u{fffd}b");
}

// ---------- state classes and toggling ----------

#[test]
fn state_classes_per_state() {
    assert_eq!(
        state_classes(WgState::Up),
        StateClasses { inactive: false, unknown: false }
    );
    assert_eq!(
        state_classes(WgState::Down),
        StateClasses { inactive: true, unknown: false }
    );
    assert_eq!(
        state_classes(WgState::Unknown),
        StateClasses { inactive: false, unknown: true }
    );
}

#[test]
fn toggle_outcome_cases() {
    let argv: Vec<String> = vec!["sudo".into(), "wg-quick".into(), "up".into(), "wg0".into()];
    assert_eq!(toggle_outcome(&argv, Ok(ok_out(""))), ToggleAction::Refresh);
    assert_eq!(
        toggle_outcome(&argv, Ok(nonzero_out(1, "denied"))),
        ToggleAction::Report("`sudo wg-quick up wg0` exited with exit status: 1: denied".into())
    );
    assert_eq!(
        toggle_outcome(&argv, Err("not found".into())),
        ToggleAction::Report("failed to spawn `sudo wg-quick up wg0`: not found".into())
    );
}
