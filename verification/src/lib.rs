//! The logic of a Waybar module that shows the state of a WireGuard interface
//! and toggles it, and of the helper that reports that state.

pub mod config;
pub mod format;
pub mod handshake;
pub mod status;
pub mod text;

pub use config::{Config, ConfigOverrides, FormatSetting, parse_config};
pub use format::apply_format;
pub use handshake::{
    build_state, humanize, latest_handshake_label, plural, DeviceInfo, PeerInfo, State, TimeSpan,
};
pub use status::{
    parse_wg_dump, render_from_helper, state_classes, toggle_outcome, wg_dump_from_fields,
    HelperOutput, Render, StateClasses, ToggleAction, WgDump, WgState,
};
