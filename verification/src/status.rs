use vstd::prelude::*;

use crate::config::Config;
use crate::format::{apply_format, fill_placeholders};
use crate::text::{join, join_strings};

verus! {

/// The tunnel's state as the helper reports it.
#[derive(Debug, PartialEq, Clone, Copy)]
pub enum WgState {
    Up,
    Down,
    Unknown,
}

/// What the module reads of the helper's report.
#[derive(Debug, PartialEq)]
pub struct WgDump {
    pub state: WgState,
    pub tooltip: String,
}

/// What the module shows.
#[derive(Debug, PartialEq)]
pub struct Render {
    pub label: String,
    pub tooltip: String,
    pub state: WgState,
    pub active: bool,
}

/// The top-level fields of a JSON document as `serde_jsonc::from_slice` reads
/// `bytes` into a `serde_jsonc::Value`: `None` when the bytes are not a
/// document or its top level is not an object; otherwise each field of the
/// object in the order of its map, with the value when that value is a string.
pub uninterp spec fn jsonc_object_fields(bytes: Seq<u8>) -> Option<Seq<(Seq<char>, Option<Seq<char>>)>>;

/// Whether `a` comes strictly before `b` in the order of `String`: the
/// lexicographic order of their UTF-8 bytes, which is that of their code points.
pub open spec fn key_lt(a: Seq<char>, b: Seq<char>) -> bool
    decreases a.len(),
{
    if a.len() == 0 {
        b.len() > 0
    } else if b.len() == 0 {
        false
    } else if a[0] != b[0] {
        (a[0] as u32) < (b[0] as u32)
    } else {
        key_lt(a.drop_first(), b.drop_first())
    }
}

/// The keys of `fields` are strictly ascending (so also pairwise distinct).
pub open spec fn keys_ascending(fields: Seq<(Seq<char>, Option<Seq<char>>)>) -> bool {
    forall|i: int, j: int| 0 <= i < j < fields.len() ==> key_lt(#[trigger] fields[i].0, #[trigger] fields[j].0)
}

/// Parses `bytes` with `serde_jsonc::from_slice` and hands out the top-level
/// fields of an object, each value kept only where it is a string.
/// The object's map is a `BTreeMap` (the crate's `preserve_order` feature is
/// off), so its fields come out by strictly ascending key; nothing else is
/// claimed of the parse beyond the name `jsonc_object_fields`.
#[verifier::external_body]
fn read_object_fields(bytes: &[u8]) -> (r: Option<Vec<(String, Option<String>)>>)
    ensures
        r.deep_view() == jsonc_object_fields(bytes@),
        r.deep_view() matches Some(fields) ==> keys_ascending(fields),
{
    match serde_jsonc::from_slice::<serde_jsonc::Value>(bytes) {
        Err(_) => None,
        Ok(serde_jsonc::Value::Object(map)) => Some(map.into_iter().map(|(key, value)| match value {
            serde_jsonc::Value::String(text) => (key, Some(text)),
            _ => (key, None),
        }).collect()),
        Ok(_) => None,
    }
}

/// The value of the first field named `state`, when there is such a field.
pub open spec fn state_field(fields: Seq<(Seq<char>, Option<Seq<char>>)>) -> Option<Option<Seq<char>>>
    decreases fields.len(),
{
    if fields.len() == 0 {
        None
    } else if fields[0].0 == "state"@ {
        Some(fields[0].1)
    } else {
        state_field(fields.drop_first())
    }
}

/// The reported state: up or down when the `state` field is the string `up`
/// or `down`, unknown otherwise.
pub open spec fn state_of(doc: Option<Seq<(Seq<char>, Option<Seq<char>>)>>) -> WgState {
    match doc {
        Some(fields) => match state_field(fields) {
            Some(Some(v)) => if v == "up"@ {
                WgState::Up
            } else if v == "down"@ {
                WgState::Down
            } else {
                WgState::Unknown
            },
            _ => WgState::Unknown,
        },
        None => WgState::Unknown,
    }
}

/// One line `key: value` for each field whose value is a string, in order.
pub open spec fn field_lines(fields: Seq<(Seq<char>, Option<Seq<char>>)>) -> Seq<Seq<char>>
    decreases fields.len(),
{
    if fields.len() == 0 {
        Seq::empty()
    } else {
        let rest = field_lines(fields.drop_first());
        match fields[0].1 {
            Some(v) => seq![fields[0].0 + ": "@ + v] + rest,
            None => rest,
        }
    }
}

/// The tooltip: the lines of the string fields, one per line; empty when the
/// report is not an object.
pub open spec fn tooltip_of(doc: Option<Seq<(Seq<char>, Option<Seq<char>>)>>) -> Seq<char> {
    match doc {
        Some(fields) => join(field_lines(fields), "\n"@),
        None => Seq::empty(),
    }
}

/// The state and tooltip of a report whose top-level fields are `fields`
/// (`None` when the report is no JSON object).
pub fn wg_dump_from_fields(fields: Option<Vec<(String, Option<String>)>>) -> (d: WgDump)
    ensures
        d.state == state_of(fields.deep_view()),
        d.tooltip@ == tooltip_of(fields.deep_view()),
{
    match fields {
        None => WgDump { state: WgState::Unknown, tooltip: String::new() },
        Some(fields) => {
            let ghost all = fields.deep_view();
            let state_key = String::from_str("state");
            let up = String::from_str("up");
            let down = String::from_str("down");
            let mut state = WgState::Unknown;
            let mut lines: Vec<String> = Vec::new();
            let mut i: usize = fields.len();
            // walk from the back, so that the first field named `state` is seen last
            while i > 0
                invariant
                    i <= fields.len(),
                    all == fields.deep_view(),
                    all.len() == fields.len(),
                    state_key@ == "state"@,
                    up@ == "up"@,
                    down@ == "down"@,
                    lines.deep_view() == field_lines(all.skip(i as int)),
                    state == state_of(Some(all.skip(i as int))),
                decreases i,
            {
                i = i - 1;
                let ghost rest = all.skip(i + 1);
                assert(all.skip(i as int).drop_first() == rest);
                assert(all.skip(i as int)[0] == all[i as int]);
                let key = &fields[i].0;
                match &fields[i].1 {
                    Some(v) => {
                        let mut line = key.clone();
                        line.append(": ");
                        line.append(v.as_str());
                        let ghost before = lines.deep_view();
                        lines.insert(0, line);
                        assert(lines.deep_view() == seq![line@] + before);
                    },
                    None => {},
                }
                if *key == state_key {
                    state = match &fields[i].1 {
                        Some(v) => if *v == up {
                            WgState::Up
                        } else if *v == down {
                            WgState::Down
                        } else {
                            WgState::Unknown
                        },
                        None => WgState::Unknown,
                    };
                }
            }
            assert(all.skip(0) == all);
            WgDump { state, tooltip: join_strings(&lines, "\n") }
        },
    }
}

/// Reads the helper's report: the state from its `state` field and a tooltip
/// with one `key: value` line for each string field, by ascending key.
pub fn parse_wg_dump(bytes: &[u8]) -> (d: WgDump)
    ensures
        d.state == state_of(jsonc_object_fields(bytes@)),
        d.tooltip@ == tooltip_of(jsonc_object_fields(bytes@)),
        jsonc_object_fields(bytes@) matches Some(fields) ==> keys_ascending(fields),
{
    wg_dump_from_fields(read_object_fields(bytes))
}

/// The text that `String::from_utf8_lossy` makes of `bytes`.
pub uninterp spec fn utf8_lossy(bytes: Seq<u8>) -> Seq<char>;

/// `String::from_utf8_lossy`: valid UTF-8 is decoded as it is; what else it
/// makes of invalid sequences is left to the name `utf8_lossy`.
#[verifier::external_body]
fn lossy_text(bytes: &[u8]) -> (s: String)
    ensures
        s@ == utf8_lossy(bytes@),
        vstd::utf8::valid_utf8(bytes@) ==> s@ == vstd::utf8::decode_utf8(bytes@),
{
    String::from_utf8_lossy(bytes).into_owned()
}

/// What a finished helper process handed back: whether it exited successfully,
/// its exit status in words, and its output.
#[derive(Debug, PartialEq)]
pub struct HelperOutput {
    pub success: bool,
    pub status: String,
    pub stdout: Vec<u8>,
    pub stderr: Vec<u8>,
}

/// The configured text for a state.
pub open spec fn glyph(config: Config, state: WgState) -> Seq<char> {
    match state {
        WgState::Up => config.label_up@,
        WgState::Down => config.label_down@,
        WgState::Unknown => config.label_unknown@,
    }
}

/// The tooltip when the helper ran and failed.
pub open spec fn exit_failure_text(cmd: Seq<char>, status: Seq<char>, stderr: Seq<u8>) -> Seq<char> {
    "`"@ + cmd + "` exited with "@ + status + "\n"@ + utf8_lossy(stderr)
}

/// The tooltip when the helper could not be started.
pub open spec fn spawn_failure_text(cmd: Seq<char>, error: Seq<char>) -> Seq<char> {
    "failed to spawn `"@ + cmd + "`: "@ + error
}

/// What the module shows after running the helper: on success the state and
/// tooltip of its report; otherwise the unknown state and a tooltip that says
/// what went wrong (`result` is `Err` with the error's text when the helper
/// could not be started). The label is the format filled with the state's text.
pub fn render_from_helper(config: &Config, result: Result<HelperOutput, String>) -> (r: Render)
    ensures
        r.active == (r.state == WgState::Up),
        r.label@ == fill_placeholders(config.format@, glyph(*config, r.state)),
        r.state == WgState::Up ==> r.label@ == fill_placeholders(config.format@, config.label_up@),
        r.state == WgState::Down ==> r.label@ == fill_placeholders(config.format@, config.label_down@),
        r.state == WgState::Unknown ==> r.label@ == fill_placeholders(config.format@, config.label_unknown@),
        match result {
            Ok(out) => if out.success {
                &&& r.state == state_of(jsonc_object_fields(out.stdout@))
                &&& r.tooltip@ == tooltip_of(jsonc_object_fields(out.stdout@))
                &&& jsonc_object_fields(out.stdout@) matches Some(fields) ==> keys_ascending(fields)
            } else {
                &&& r.state == WgState::Unknown
                &&& r.tooltip@ == exit_failure_text(config.helper_cmd@, out.status@, out.stderr@)
                &&& vstd::utf8::valid_utf8(out.stderr@) ==> r.tooltip@ == "`"@ + config.helper_cmd@
                    + "` exited with "@ + out.status@ + "\n"@ + vstd::utf8::decode_utf8(out.stderr@)
            },
            Err(e) => {
                &&& r.state == WgState::Unknown
                &&& r.tooltip@ == spawn_failure_text(config.helper_cmd@, e@)
            },
        },
{
    let cmd = config.helper_cmd.as_str();
    match result {
        Ok(out) => {
            if out.success {
                let dump = parse_wg_dump(out.stdout.as_slice());
                let glyph = match dump.state {
                    WgState::Up => config.label_up.as_str(),
                    WgState::Down => config.label_down.as_str(),
                    WgState::Unknown => config.label_unknown.as_str(),
                };
                let active = match dump.state {
                    WgState::Up => true,
                    _ => false,
                };
                Render {
                    label: apply_format(config.format.as_str(), glyph),
                    tooltip: dump.tooltip,
                    state: dump.state,
                    active,
                }
            } else {
                let stderr = lossy_text(out.stderr.as_slice());
                let mut tooltip = String::from_str("`");
                tooltip.append(cmd);
                tooltip.append("` exited with ");
                tooltip.append(out.status.as_str());
                tooltip.append("\n");
                tooltip.append(stderr.as_str());
                Render {
                    label: apply_format(config.format.as_str(), config.label_unknown.as_str()),
                    tooltip,
                    state: WgState::Unknown,
                    active: false,
                }
            }
        },
        Err(e) => {
            let mut tooltip = String::from_str("failed to spawn `");
            tooltip.append(cmd);
            tooltip.append("`: ");
            tooltip.append(e.as_str());
            Render {
                label: apply_format(config.format.as_str(), config.label_unknown.as_str()),
                tooltip,
                state: WgState::Unknown,
                active: false,
            }
        },
    }
}

/// The CSS state classes of the module's box.
#[derive(Debug, PartialEq, Clone, Copy)]
pub struct StateClasses {
    pub inactive: bool,
    pub unknown: bool,
}

/// The classes for a state: none when up, `inactive` when down, `unknown` when unknown.
pub fn state_classes(state: WgState) -> (c: StateClasses)
    ensures
        c.inactive == (state == WgState::Down),
        c.unknown == (state == WgState::Unknown),
{
    match state {
        WgState::Up => StateClasses { inactive: false, unknown: false },
        WgState::Down => StateClasses { inactive: true, unknown: false },
        WgState::Unknown => StateClasses { inactive: false, unknown: true },
    }
}

/// What follows a toggle command.
#[derive(Debug, PartialEq)]
pub enum ToggleAction {
    /// The command succeeded: read the state again.
    Refresh,
    /// The command failed: report this text.
    Report(String),
}

/// What follows running the toggle command `argv`: a refresh when it
/// succeeded, otherwise a report of the failure.
pub fn toggle_outcome(argv: &Vec<String>, result: Result<HelperOutput, String>) -> (a: ToggleAction)
    ensures
        match result {
            Ok(out) => if out.success {
                a == ToggleAction::Refresh
            } else {
                &&& a matches ToggleAction::Report(text) && text@ == "`"@ + join(argv.deep_view(), " "@)
                    + "` exited with "@ + out.status@ + ": "@ + utf8_lossy(out.stderr@)
                &&& vstd::utf8::valid_utf8(out.stderr@) ==> (a matches ToggleAction::Report(text)
                    && text@ == "`"@ + join(argv.deep_view(), " "@) + "` exited with "@ + out.status@
                    + ": "@ + vstd::utf8::decode_utf8(out.stderr@))
            },
            Err(e) => a matches ToggleAction::Report(text) && text@ == spawn_failure_text(
                join(argv.deep_view(), " "@),
                e@,
            ),
        },
{
    match result {
        Ok(out) => {
            if out.success {
                ToggleAction::Refresh
            } else {
                let pretty = join_strings(argv, " ");
                let stderr = lossy_text(out.stderr.as_slice());
                let mut text = String::from_str("`");
                text.append(pretty.as_str());
                text.append("` exited with ");
                text.append(out.status.as_str());
                text.append(": ");
                text.append(stderr.as_str());
                ToggleAction::Report(text)
            }
        },
        Err(e) => {
            let pretty = join_strings(argv, " ");
            let mut text = String::from_str("failed to spawn `");
            text.append(pretty.as_str());
            text.append("`: ");
            text.append(e.as_str());
            ToggleAction::Report(text)
        },
    }
}

/// The label shows the configured text of its state, for every configuration:
/// `label_up` when up, `label_down` when down, `label_unknown` otherwise.
pub proof fn lemma_label_text_is_configured(config: Config, state: WgState)
    ensures
        state == WgState::Up ==> glyph(config, state) == config.label_up@,
        state == WgState::Down ==> glyph(config, state) == config.label_down@,
        state == WgState::Unknown ==> glyph(config, state) == config.label_unknown@,
{
}

proof fn lemma_state_field_at(fields: Seq<(Seq<char>, Option<Seq<char>>)>, i: int)
    requires
        0 <= i < fields.len(),
        fields[i].0 == "state"@,
        forall|j: int| 0 <= j < i ==> #[trigger] fields[j].0 != "state"@,
    ensures
        state_field(fields) == Some(fields[i].1),
    decreases i,
{
    if i > 0 {
        let rest = fields.drop_first();
        assert(fields[0].0 != "state"@);
        assert forall|j: int| 0 <= j < i - 1 implies #[trigger] rest[j].0 != "state"@ by {
            assert(rest[j] == fields[j + 1]);
        }
        lemma_state_field_at(rest, i - 1);
    }
}

proof fn lemma_state_field_absent(fields: Seq<(Seq<char>, Option<Seq<char>>)>)
    requires
        forall|j: int| 0 <= j < fields.len() ==> #[trigger] fields[j].0 != "state"@,
    ensures
        state_field(fields) is None,
    decreases fields.len(),
{
    if fields.len() > 0 {
        let rest = fields.drop_first();
        assert(fields[0].0 != "state"@);
        assert forall|j: int| 0 <= j < rest.len() implies #[trigger] rest[j].0 != "state"@ by {
            assert(rest[j] == fields[j + 1]);
        }
        lemma_state_field_absent(rest);
    }
}

/// The state comes from the report's field named `state` and from nothing
/// else: `up` and `down` give up and down, any other value (or no such field,
/// or no object at all) gives unknown.
pub proof fn lemma_state_from_state_field(fields: Seq<(Seq<char>, Option<Seq<char>>)>, i: int)
    requires
        0 <= i < fields.len(),
        fields[i].0 == "state"@,
        forall|j: int| 0 <= j < fields.len() && j != i ==> #[trigger] fields[j].0 != "state"@,
    ensures
        fields[i].1 == Some("up"@) ==> state_of(Some(fields)) == WgState::Up,
        fields[i].1 == Some("down"@) ==> state_of(Some(fields)) == WgState::Down,
        fields[i].1 != Some("up"@) && fields[i].1 != Some("down"@) ==> state_of(Some(fields))
            == WgState::Unknown,
        state_of(None) == WgState::Unknown,
{
    lemma_state_field_at(fields, i);
    if fields[i].1 == Some("down"@) {
        assert("down"@ != "up"@) by {
            reveal_strlit("down");
            reveal_strlit("up");
            assert("down"@.len() == 4 && "up"@.len() == 2);
        }
    }
}

/// Without a field named `state` the state is unknown.
pub proof fn lemma_no_state_field_unknown(fields: Seq<(Seq<char>, Option<Seq<char>>)>)
    requires
        forall|j: int| 0 <= j < fields.len() ==> #[trigger] fields[j].0 != "state"@,
    ensures
        state_of(Some(fields)) == WgState::Unknown,
{
    lemma_state_field_absent(fields);
}

/// `line` is the line `key: value` of some field whose value is a string.
pub open spec fn line_of_some_field(fields: Seq<(Seq<char>, Option<Seq<char>>)>, line: Seq<char>) -> bool {
    exists|i: int|
        #![trigger fields[i]]
        0 <= i < fields.len() && fields[i].1 is Some && line == fields[i].0 + ": "@ + fields[i].1->0
}

/// The tooltip has one line `key: value` for every field whose value is a
/// string, and every line is such a line.
pub proof fn lemma_tooltip_lines(fields: Seq<(Seq<char>, Option<Seq<char>>)>)
    ensures
        forall|i: int| 0 <= i < fields.len() && #[trigger] fields[i].1 is Some ==> field_lines(
            fields,
        ).contains(fields[i].0 + ": "@ + fields[i].1->0),
        forall|k: int|
            0 <= k < field_lines(fields).len() ==> line_of_some_field(
                fields,
                #[trigger] field_lines(fields)[k],
            ),
        field_lines(fields).len() <= fields.len(),
    decreases fields.len(),
{
    if fields.len() == 0 {
        assert(field_lines(fields).len() == 0);
    } else {
        let rest = fields.drop_first();
        lemma_tooltip_lines(rest);
        let lines = field_lines(fields);
        let rl = field_lines(rest);
        assert forall|i: int| 0 <= i < fields.len() && #[trigger] fields[i].1 is Some implies lines.contains(
            fields[i].0 + ": "@ + fields[i].1->0,
        ) by {
            if i == 0 {
                assert(lines[0] == fields[0].0 + ": "@ + fields[0].1->0);
            } else {
                assert(fields[i] == rest[i - 1]);
                let k = choose|k: int| 0 <= k < rl.len() && rl[k] == rest[i - 1].0 + ": "@ + rest[i - 1].1->0;
                if fields[0].1 is Some {
                    assert(lines[k + 1] == rl[k]);
                } else {
                    assert(lines[k] == rl[k]);
                }
            }
        }
        assert forall|k: int|
            0 <= k < field_lines(fields).len() implies line_of_some_field(
                fields,
                #[trigger] field_lines(fields)[k],
            ) by {
            if fields[0].1 is Some {
                assert(lines == seq![fields[0].0 + ": "@ + fields[0].1->0] + rl);
                if k == 0 {
                    assert(lines[0] == fields[0].0 + ": "@ + fields[0].1->0);
                } else {
                    assert(lines[k] == rl[k - 1]);
                    assert(line_of_some_field(rest, rl[k - 1]));
                    let i = choose|i: int| #![trigger rest[i]] 0 <= i < rest.len() && rest[i].1 is Some && rl[k - 1]
                        == rest[i].0 + ": "@ + rest[i].1->0;
                    assert(fields[i + 1] == rest[i]);
                    assert(fields[i + 1].1 is Some && lines[k] == fields[i + 1].0 + ": "@ + fields[i + 1].1->0);
                }
            } else {
                assert(line_of_some_field(rest, rl[k]));
                let i = choose|i: int| #![trigger rest[i]] 0 <= i < rest.len() && rest[i].1 is Some && rl[k]
                    == rest[i].0 + ": "@ + rest[i].1->0;
                assert(fields[i + 1] == rest[i]);
                assert(lines == rl);
                assert(fields[i + 1].1 is Some && lines[k] == fields[i + 1].0 + ": "@ + fields[i + 1].1->0);
            }
        }
    }
}

} // verus!
