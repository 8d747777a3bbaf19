use vstd::prelude::*;

use crate::text::{is_whitespace, split_whitespace, word_if_any, words, words_from};

verus! {

pub const DEFAULT_WIREGUARD_DEV: &'static str = "wg0";
pub const DEFAULT_WIREGUARD_UP_CMD_PREFIX: &'static str = "sudo /usr/bin/wg-quick up";
pub const DEFAULT_WIREGUARD_DOWN_CMD_PREFIX: &'static str = "sudo /usr/bin/wg-quick down";
/// The helper is looked up on `$PATH`.
pub const DEFAULT_WAYBAR_WIREGUARD_CMD: &'static str = "waybar-wireguard";
pub const DEFAULT_REFRESH_INTERVAL_SECONDS: u8 = 5;
pub const DEFAULT_FORMAT: &'static str = "WG: {}";
pub const DEFAULT_LABEL_UP: &'static str = "✓";
pub const DEFAULT_LABEL_DOWN: &'static str = "✗";
pub const DEFAULT_LABEL_UNKNOWN: &'static str = "?";
/// Default CSS ids; override them per instance when running more than one.
pub const DEFAULT_WIDGET_NAME: &'static str = "cffi-wireguard";
pub const DEFAULT_WIDGET_ICON_NAME: &'static str = "cffi-wireguard-icon";

/// The module's settings.
#[derive(Debug, PartialEq)]
pub struct Config {
    pub helper_cmd: String,
    pub wireguard_dev: String,
    pub wireguard_up_cmd_prefix: String,
    pub wireguard_down_cmd_prefix: String,
    pub refresh_interval_seconds: u8,
    pub format: String,
    pub label_up: String,
    pub label_down: String,
    pub label_unknown: String,
    pub widget_name: String,
    pub widget_icon_name: String,
}

/// Every setting holds its default value.
pub open spec fn is_default(c: Config) -> bool {
    &&& c.helper_cmd@ == DEFAULT_WAYBAR_WIREGUARD_CMD@
    &&& c.wireguard_dev@ == DEFAULT_WIREGUARD_DEV@
    &&& c.wireguard_up_cmd_prefix@ == DEFAULT_WIREGUARD_UP_CMD_PREFIX@
    &&& c.wireguard_down_cmd_prefix@ == DEFAULT_WIREGUARD_DOWN_CMD_PREFIX@
    &&& c.refresh_interval_seconds == DEFAULT_REFRESH_INTERVAL_SECONDS
    &&& c.format@ == DEFAULT_FORMAT@
    &&& c.label_up@ == DEFAULT_LABEL_UP@
    &&& c.label_down@ == DEFAULT_LABEL_DOWN@
    &&& c.label_unknown@ == DEFAULT_LABEL_UNKNOWN@
    &&& c.widget_name@ == DEFAULT_WIDGET_NAME@
    &&& c.widget_icon_name@ == DEFAULT_WIDGET_ICON_NAME@
}

impl Default for Config {
    fn default() -> (c: Config)
        ensures
            is_default(c),
    {
        Config {
            helper_cmd: String::from_str(DEFAULT_WAYBAR_WIREGUARD_CMD),
            wireguard_dev: String::from_str(DEFAULT_WIREGUARD_DEV),
            wireguard_up_cmd_prefix: String::from_str(DEFAULT_WIREGUARD_UP_CMD_PREFIX),
            wireguard_down_cmd_prefix: String::from_str(DEFAULT_WIREGUARD_DOWN_CMD_PREFIX),
            refresh_interval_seconds: DEFAULT_REFRESH_INTERVAL_SECONDS,
            format: String::from_str(DEFAULT_FORMAT),
            label_up: String::from_str(DEFAULT_LABEL_UP),
            label_down: String::from_str(DEFAULT_LABEL_DOWN),
            label_unknown: String::from_str(DEFAULT_LABEL_UNKNOWN),
            widget_name: String::from_str(DEFAULT_WIDGET_NAME),
            widget_icon_name: String::from_str(DEFAULT_WIDGET_ICON_NAME),
        }
    }
}

/// What the configuration gave for `format`: a string, or any other value
/// (Waybar rewrites the literal string `"{}"` into an empty object).
#[derive(Debug, PartialEq)]
pub enum FormatSetting {
    Text(String),
    Other,
}

/// The format a setting stands for: a string as it is, any other value as the default format.
pub open spec fn format_of(setting: FormatSetting) -> Seq<char> {
    match setting {
        FormatSetting::Text(s) => s@,
        FormatSetting::Other => DEFAULT_FORMAT@,
    }
}

impl FormatSetting {
    /// The format this setting stands for.
    pub fn into_format(self) -> (s: String)
        ensures
            s@ == format_of(self),
            self matches FormatSetting::Text(text) ==> s@ == text@,
            self is Other ==> s@ == DEFAULT_FORMAT@,
    {
        match self {
            FormatSetting::Text(s) => s,
            FormatSetting::Other => String::from_str(DEFAULT_FORMAT),
        }
    }
}

/// The settings that the module's configuration gave, each absent where the
/// configuration does not name it.
#[derive(Debug, PartialEq, Default)]
pub struct ConfigOverrides {
    pub helper_cmd: Option<String>,
    pub wireguard_dev: Option<String>,
    pub wireguard_up_cmd_prefix: Option<String>,
    pub wireguard_down_cmd_prefix: Option<String>,
    pub refresh_interval_seconds: Option<u8>,
    pub format: Option<FormatSetting>,
    pub label_up: Option<String>,
    pub label_down: Option<String>,
    pub label_unknown: Option<String>,
    pub widget_name: Option<String>,
    pub widget_icon_name: Option<String>,
}

/// A given string setting, or the default.
pub open spec fn given_or(o: Option<String>, default: Seq<char>) -> Seq<char> {
    match o {
        Some(s) => s@,
        None => default,
    }
}

/// The settings that overrides `o` yield: each given setting, the default for
/// each other one.
pub open spec fn overridden(c: Config, o: ConfigOverrides) -> bool {
    &&& c.helper_cmd@ == given_or(o.helper_cmd, DEFAULT_WAYBAR_WIREGUARD_CMD@)
    &&& c.wireguard_dev@ == given_or(o.wireguard_dev, DEFAULT_WIREGUARD_DEV@)
    &&& c.wireguard_up_cmd_prefix@ == given_or(o.wireguard_up_cmd_prefix, DEFAULT_WIREGUARD_UP_CMD_PREFIX@)
    &&& c.wireguard_down_cmd_prefix@ == given_or(o.wireguard_down_cmd_prefix, DEFAULT_WIREGUARD_DOWN_CMD_PREFIX@)
    &&& c.refresh_interval_seconds == match o.refresh_interval_seconds {
        Some(n) => n,
        None => DEFAULT_REFRESH_INTERVAL_SECONDS,
    }
    &&& c.format@ == match o.format {
        Some(f) => format_of(f),
        None => DEFAULT_FORMAT@,
    }
    &&& c.label_up@ == given_or(o.label_up, DEFAULT_LABEL_UP@)
    &&& c.label_down@ == given_or(o.label_down, DEFAULT_LABEL_DOWN@)
    &&& c.label_unknown@ == given_or(o.label_unknown, DEFAULT_LABEL_UNKNOWN@)
    &&& c.widget_name@ == given_or(o.widget_name, DEFAULT_WIDGET_NAME@)
    &&& c.widget_icon_name@ == given_or(o.widget_icon_name, DEFAULT_WIDGET_ICON_NAME@)
}

fn given_or_default(o: Option<String>, default: &str) -> (s: String)
    ensures
        s@ == given_or(o, default@),
{
    match o {
        Some(s) => s,
        None => String::from_str(default),
    }
}

/// The settings of the module: those of `raw` over the defaults, or all the
/// defaults when the configuration could not be read (`None`).
pub fn parse_config(raw: Option<ConfigOverrides>) -> (c: Config)
    ensures
        match raw {
            None => is_default(c),
            Some(o) => overridden(c, o),
        },
        match raw {
            Some(o) => match o.format {
                Some(FormatSetting::Text(text)) => c.format@ == text@,
                _ => c.format@ == DEFAULT_FORMAT@,
            },
            None => c.format@ == DEFAULT_FORMAT@,
        },
{
    match raw {
        None => Config::default(),
        Some(o) => Config {
            helper_cmd: given_or_default(o.helper_cmd, DEFAULT_WAYBAR_WIREGUARD_CMD),
            wireguard_dev: given_or_default(o.wireguard_dev, DEFAULT_WIREGUARD_DEV),
            wireguard_up_cmd_prefix: given_or_default(o.wireguard_up_cmd_prefix, DEFAULT_WIREGUARD_UP_CMD_PREFIX),
            wireguard_down_cmd_prefix: given_or_default(o.wireguard_down_cmd_prefix, DEFAULT_WIREGUARD_DOWN_CMD_PREFIX),
            refresh_interval_seconds: match o.refresh_interval_seconds {
                Some(n) => n,
                None => DEFAULT_REFRESH_INTERVAL_SECONDS,
            },
            format: match o.format {
                Some(f) => f.into_format(),
                None => String::from_str(DEFAULT_FORMAT),
            },
            label_up: given_or_default(o.label_up, DEFAULT_LABEL_UP),
            label_down: given_or_default(o.label_down, DEFAULT_LABEL_DOWN),
            label_unknown: given_or_default(o.label_unknown, DEFAULT_LABEL_UNKNOWN),
            widget_name: given_or_default(o.widget_name, DEFAULT_WIDGET_NAME),
            widget_icon_name: given_or_default(o.widget_icon_name, DEFAULT_WIDGET_ICON_NAME),
        },
    }
}

/// The command line that `prefix` and the device make: the words of
/// `prefix`, then the device name.
pub open spec fn command_line(prefix: Seq<char>, dev: Seq<char>) -> Seq<Seq<char>> {
    words(prefix).push(dev)
}

impl Config {
    /// The argument vector for `prefix` (split at white space) followed by the device.
    pub fn cmd(&self, prefix: &str) -> (argv: Vec<String>)
        ensures
            argv.deep_view() == command_line(prefix@, self.wireguard_dev@),
    {
        let mut argv = split_whitespace(prefix);
        let ghost before = argv.deep_view();
        argv.push(self.wireguard_dev.clone());
        assert(argv.deep_view() == before.push(self.wireguard_dev@));
        argv
    }

    /// The command that a click runs: the down command while the tunnel is
    /// up, the up command otherwise.
    pub fn toggle_command(&self, active: bool) -> (argv: Vec<String>)
        ensures
            argv.deep_view() == if active {
                command_line(self.wireguard_down_cmd_prefix@, self.wireguard_dev@)
            } else {
                command_line(self.wireguard_up_cmd_prefix@, self.wireguard_dev@)
            },
    {
        if active {
            self.cmd(self.wireguard_down_cmd_prefix.as_str())
        } else {
            self.cmd(self.wireguard_up_cmd_prefix.as_str())
        }
    }
}

proof fn lemma_words_from_clean(s: Seq<char>, cur: Seq<char>)
    requires
        forall|j: int| 0 <= j < cur.len() ==> !is_whitespace(#[trigger] cur[j]),
    ensures
        forall|k: int| 0 <= k < words_from(s, cur).len() ==> {
            let w = #[trigger] words_from(s, cur)[k];
            &&& w.len() > 0
            &&& forall|j: int| 0 <= j < w.len() ==> !is_whitespace(#[trigger] w[j])
        },
    decreases s.len(),
{
    if cur.len() > 0 {
        assert(word_if_any(cur)[0] == cur);
    }
    if s.len() == 0 {
        assert(words_from(s, cur) == word_if_any(cur));
    } else {
        if is_whitespace(s[0]) {
            lemma_words_from_clean(s.drop_first(), Seq::empty());
            let a = word_if_any(cur);
            let b = words_from(s.drop_first(), Seq::empty());
            assert(words_from(s, cur) == a + b);
            assert forall|k: int| 0 <= k < (a + b).len() implies {
                let w = #[trigger] (a + b)[k];
                &&& w.len() > 0
                &&& forall|j: int| 0 <= j < w.len() ==> !is_whitespace(#[trigger] w[j])
            } by {
                if k >= a.len() {
                    assert((a + b)[k] == b[k - a.len()]);
                } else {
                    assert((a + b)[k] == cur);
                }
            }
        } else {
            let next = cur.push(s[0]);
            assert forall|j: int| 0 <= j < next.len() implies !is_whitespace(#[trigger] next[j]) by {
                if j < cur.len() {
                    assert(next[j] == cur[j]);
                }
            }
            lemma_words_from_clean(s.drop_first(), next);
            assert(words_from(s, cur) == words_from(s.drop_first(), next));
        }
    }
}

/// A command line is the words of the prefix, each non-empty and free of
/// white space, followed by the device name as the last argument.
pub proof fn lemma_command_line_shape(prefix: Seq<char>, dev: Seq<char>)
    ensures
        command_line(prefix, dev).len() == words(prefix).len() + 1,
        command_line(prefix, dev).last() == dev,
        forall|k: int| 0 <= k < command_line(prefix, dev).len() - 1 ==> {
            let w = #[trigger] command_line(prefix, dev)[k];
            &&& w == words(prefix)[k]
            &&& w.len() > 0
            &&& forall|j: int| 0 <= j < w.len() ==> !is_whitespace(#[trigger] w[j])
        },
{
    lemma_words_from_clean(prefix, Seq::empty());
    assert forall|k: int| 0 <= k < command_line(prefix, dev).len() - 1 implies
        #[trigger] command_line(prefix, dev)[k] == words(prefix)[k] by {}
}

/// Every setting that the configuration gives is kept exactly as given, a
/// string for `format` too, whatever its length (an empty format shows no
/// text); every setting it does not give, and a non-string `format`, takes the
/// default.
pub proof fn lemma_overrides_kept(c: Config, o: ConfigOverrides)
    requires
        overridden(c, o),
    ensures
        o.format matches Some(FormatSetting::Text(text)) ==> c.format@ == text@,
        !(o.format matches Some(FormatSetting::Text(_))) ==> c.format@ == DEFAULT_FORMAT@,
        o.helper_cmd matches Some(v) ==> c.helper_cmd@ == v@,
        o.helper_cmd is None ==> c.helper_cmd@ == DEFAULT_WAYBAR_WIREGUARD_CMD@,
        o.wireguard_dev matches Some(v) ==> c.wireguard_dev@ == v@,
        o.wireguard_dev is None ==> c.wireguard_dev@ == DEFAULT_WIREGUARD_DEV@,
        o.wireguard_up_cmd_prefix matches Some(v) ==> c.wireguard_up_cmd_prefix@ == v@,
        o.wireguard_up_cmd_prefix is None ==> c.wireguard_up_cmd_prefix@ == DEFAULT_WIREGUARD_UP_CMD_PREFIX@,
        o.wireguard_down_cmd_prefix matches Some(v) ==> c.wireguard_down_cmd_prefix@ == v@,
        o.wireguard_down_cmd_prefix is None ==> c.wireguard_down_cmd_prefix@ == DEFAULT_WIREGUARD_DOWN_CMD_PREFIX@,
        o.refresh_interval_seconds matches Some(n) ==> c.refresh_interval_seconds == n,
        o.refresh_interval_seconds is None ==> c.refresh_interval_seconds == DEFAULT_REFRESH_INTERVAL_SECONDS,
        o.label_up matches Some(v) ==> c.label_up@ == v@,
        o.label_up is None ==> c.label_up@ == DEFAULT_LABEL_UP@,
        o.label_down matches Some(v) ==> c.label_down@ == v@,
        o.label_down is None ==> c.label_down@ == DEFAULT_LABEL_DOWN@,
        o.label_unknown matches Some(v) ==> c.label_unknown@ == v@,
        o.label_unknown is None ==> c.label_unknown@ == DEFAULT_LABEL_UNKNOWN@,
        o.widget_name matches Some(v) ==> c.widget_name@ == v@,
        o.widget_name is None ==> c.widget_name@ == DEFAULT_WIDGET_NAME@,
        o.widget_icon_name matches Some(v) ==> c.widget_icon_name@ == v@,
        o.widget_icon_name is None ==> c.widget_icon_name@ == DEFAULT_WIDGET_ICON_NAME@,
{
}

} // verus!
