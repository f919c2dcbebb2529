//! The command settings a repository configuration yields.

use vstd::prelude::*;

use crate::checks::commands::runner::{CoverageCommand, StructuredCommand};
use crate::config_decode::{config_problem, config_read};
use crate::config_v2::{config_error, ConfigV2};
use crate::discovery::{CommandSpec, CoverageSpec, Workspace};
use crate::json::{get, json_parsed, member, parse_json, JsonValue};
use crate::text::{chars_of, concat3, join_spaced, join_with_spaces, trim, trim_exec, views};

verus! {

pub const MAX_COMMANDS: usize = 64;
pub const DEFAULT_TIMEOUT_SECONDS: u64 = 30;
pub const MAX_TIMEOUT_SECONDS: u64 = 3600;

/// The commands a gate runs and how long each may take.
#[derive(Debug, Clone, PartialEq, Eq)]
pub struct Settings {
    pub commands: Vec<String>,
    pub structured: Vec<StructuredCommand>,
    pub timeout_seconds: u64,
    pub coverage: Vec<CoverageCommand>,
}

/// No commands, the default timeout.
pub fn defaults() -> (r: Settings)
    ensures
        r.commands@.len() == 0,
        r.structured@.len() == 0,
        r.coverage@.len() == 0,
        r.timeout_seconds == DEFAULT_TIMEOUT_SECONDS,
{
    Settings {
        commands: Vec::new(),
        structured: Vec::new(),
        timeout_seconds: DEFAULT_TIMEOUT_SECONDS,
        coverage: Vec::new(),
    }
}

// ---------------------------------------------------------------------------
// V1: shell-form command groups.

/// The command timeout a V1 document sets, or why it is refused.
pub open spec fn timeout_result(o: Seq<(String, JsonValue)>) -> Result<u64, Seq<char>> {
    match member(o, "command_timeout_seconds"@) {
        None => if 1 <= DEFAULT_TIMEOUT_SECONDS {
            Ok(DEFAULT_TIMEOUT_SECONDS)
        } else {
            Err(seq![])
        },
        Some(JsonValue::Number(Some(n), _)) => if 1 <= n && n <= MAX_TIMEOUT_SECONDS {
            Ok(n)
        } else {
            Err("command_timeout_seconds must be between 1 and 3600"@)
        },
        Some(_) => Err("command_timeout_seconds must be an integer"@),
    }
}

/// Appends one group's commands, refusing a non-string or the command that
/// passes the limit.
pub open spec fn push_commands(acc: Seq<Seq<char>>, items: Seq<JsonValue>) -> Result<
    Seq<Seq<char>>,
    Seq<char>,
>
    decreases items.len(),
{
    if items.len() == 0 {
        Ok(acc)
    } else {
        match push_commands(acc, items.drop_last()) {
            Err(e) => Err(e),
            Ok(a) => match items.last() {
                JsonValue::String(s) => if a.len() + 1 > MAX_COMMANDS {
                    Err("required_commands exceeds 64 commands"@)
                } else {
                    Ok(a.push(s@))
                },
                _ => Err("required command must be a string"@),
            },
        }
    }
}

/// Every group's commands in order, or the first refusal.
pub open spec fn collect_groups(groups: Seq<(String, JsonValue)>) -> Result<
    Seq<Seq<char>>,
    Seq<char>,
>
    decreases groups.len(),
{
    if groups.len() == 0 {
        Ok(seq![])
    } else {
        match collect_groups(groups.drop_last()) {
            Err(e) => Err(e),
            Ok(a) => match groups.last().1 {
                JsonValue::Array(items) => push_commands(a, items@),
                _ => Err("required command group must be an array"@),
            },
        }
    }
}

/// The settings a V1 document yields: its timeout, and its required command
/// groups flattened in order.
pub open spec fn v1_result(value: JsonValue) -> Result<(Seq<Seq<char>>, u64), Seq<char>> {
    let o = match value {
        JsonValue::Object(o) => o@,
        _ => seq![],
    };
    match timeout_result(o) {
        Err(e) => Err(e),
        Ok(t) => match member(o, "required_commands"@) {
            None => Ok((seq![], t)),
            Some(JsonValue::Object(groups)) => match collect_groups(groups@) {
                Ok(c) => Ok((c, t)),
                Err(e) => Err(e),
            },
            Some(_) => Err("required_commands must be an object"@),
        },
    }
}

fn push_group(commands: &mut Vec<String>, items: &Vec<JsonValue>) -> (r: Result<(), String>)
    requires
        push_commands(views(old(commands)@), seq![]) is Ok,
    ensures
        match (r, push_commands(views(old(commands)@), items@)) {
            (Ok(_), Ok(a)) => views(final(commands)@) == a,
            (Err(e), Err(m)) => e@ == m,
            _ => false,
        },
{
    let ghost start = views(commands@);
    let mut k: usize = 0;
    assert(items@.take(0) =~= Seq::<JsonValue>::empty());
    while k < items.len()
        invariant
            start == views(old(commands)@),
            k <= items.len(),
            push_commands(start, items@.take(k as int)) == Ok::<Seq<Seq<char>>, Seq<char>>(
                views(commands@),
            ),
        decreases items.len() - k,
    {
        assert(items@.take(k + 1).drop_last() =~= items@.take(k as int));
        match &items[k] {
            JsonValue::String(s) => {
                if commands.len() >= MAX_COMMANDS {
                    proof {
                        assert(views(commands@).len() == commands@.len());
                        lemma_push_commands_stops(start, items@, k + 1);
                    }
                    return Err(String::from_str("required_commands exceeds 64 commands"));
                }
                let ghost before = views(commands@);
                commands.push(s.clone());
                assert(items@.take(k + 1).last() == items@[k as int]);
                assert(views(commands@) =~= before.push(s@));
            },
            _ => {
                proof {
                    lemma_push_commands_stops(start, items@, k + 1);
                }
                return Err(String::from_str("required command must be a string"));
            },
        }
        k += 1;
    }
    assert(items@.take(items.len() as int) =~= items@);
    Ok(())
}

proof fn lemma_push_commands_stops(acc: Seq<Seq<char>>, items: Seq<JsonValue>, i: int)
    requires
        0 <= i <= items.len(),
        push_commands(acc, items.take(i)) is Err,
    ensures
        push_commands(acc, items) == push_commands(acc, items.take(i)),
    decreases items.len(),
{
    if i < items.len() {
        assert(items.drop_last().take(i) =~= items.take(i));
        lemma_push_commands_stops(acc, items.drop_last(), i);
    } else {
        assert(items.take(i) =~= items);
    }
}

proof fn lemma_collect_groups_stops(groups: Seq<(String, JsonValue)>, i: int)
    requires
        0 <= i <= groups.len(),
        collect_groups(groups.take(i)) is Err,
    ensures
        collect_groups(groups) == collect_groups(groups.take(i)),
    decreases groups.len(),
{
    if i < groups.len() {
        assert(groups.drop_last().take(i) =~= groups.take(i));
        lemma_collect_groups_stops(groups.drop_last(), i);
    } else {
        assert(groups.take(i) =~= groups);
    }
}

/// The settings, or the refusal, a V1 document gives.
pub open spec fn v1_settings(value: JsonValue, r: Result<Settings, String>) -> bool {
    match (r, v1_result(value)) {
        (Ok(s), Ok((c, t))) => views(s.commands@) == c && s.timeout_seconds == t && s.structured@.len() == 0
            && s.coverage@.len() == 0,
        (Err(e), Err(m)) => e@ == m,
        _ => false,
    }
}

/// The settings of a V1 document.
#[verifier::loop_isolation(false)]
pub fn settings_from_v1(value: &JsonValue) -> (r: Result<Settings, String>)
    ensures
        v1_settings(*value, r),
{
    let empty: Vec<(String, JsonValue)> = Vec::new();
    let o = match value {
        JsonValue::Object(o) => o,
        _ => &empty,
    };
    assert(o@ == match *value {
        JsonValue::Object(o) => o@,
        _ => Seq::<(String, JsonValue)>::empty(),
    });
    let timeout_seconds = match get(o, "command_timeout_seconds") {
        None => DEFAULT_TIMEOUT_SECONDS,
        Some(JsonValue::Number(Some(n), _)) => {
            if 1 <= *n && *n <= MAX_TIMEOUT_SECONDS {
                *n
            } else {
                return Err(String::from_str("command_timeout_seconds must be between 1 and 3600"));
            }
        },
        Some(_) => return Err(String::from_str("command_timeout_seconds must be an integer")),
    };
    let groups = match get(o, "required_commands") {
        None => {
            let none: Vec<String> = Vec::new();
            assert(views(none@) =~= Seq::<Seq<char>>::empty());
            return Ok(Settings { commands: none, structured: Vec::new(), timeout_seconds, coverage: Vec::new() });
        },
        Some(JsonValue::Object(groups)) => groups,
        Some(_) => return Err(String::from_str("required_commands must be an object")),
    };
    let mut commands: Vec<String> = Vec::new();
    let mut k: usize = 0;
    assert(groups@.take(0) =~= Seq::<(String, JsonValue)>::empty());
    assert(views(commands@) =~= Seq::<Seq<char>>::empty());
    while k < groups.len()
        invariant
            k <= groups.len(),
            collect_groups(groups@.take(k as int)) == Ok::<Seq<Seq<char>>, Seq<char>>(
                views(commands@),
            ),
        decreases groups.len() - k,
    {
        assert(groups@.take(k + 1).drop_last() =~= groups@.take(k as int));
        match &groups[k].1 {
            JsonValue::Array(items) => {
                match push_group(&mut commands, items) {
                    Ok(_) => {},
                    Err(e) => {
                        proof {
                            lemma_collect_groups_stops(groups@, k + 1);
                        }
                        return Err(e);
                    },
                }
            },
            _ => {
                proof {
                    lemma_collect_groups_stops(groups@, k + 1);
                }
                return Err(String::from_str("required command group must be an array"));
            },
        }
        k += 1;
    }
    assert(groups@.take(groups.len() as int) =~= groups@);
    Ok(Settings { commands, structured: Vec::new(), timeout_seconds, coverage: Vec::new() })
}

// ---------------------------------------------------------------------------
// V2: structured workspace commands.

pub open spec fn structured_from(c: CommandSpec, w: Workspace, s: StructuredCommand) -> bool {
    &&& s.argv@ == c.argv@
    &&& s.cwd@ == c.cwd@
    &&& s.workspace_id@ == w.id@
    &&& s.tier@ == c.tier@
    &&& s.timeout_seconds == c.timeout_seconds
}

pub open spec fn coverage_from(c: CoverageSpec, w: Workspace, s: CoverageCommand) -> bool {
    &&& s.workspace_id@ == w.id@
    &&& s.argv@ == c.argv@
    &&& s.cwd@ == c.cwd@
    &&& s.timeout_seconds == c.timeout_seconds
    &&& s.scope@ == c.scope@
    &&& s.line_threshold_percent == c.line_threshold_percent
    &&& s.branch_threshold_percent == c.branch_threshold_percent
}

/// Every workspace's commands, workspace by workspace, in order.
pub open spec fn all_commands(ws: Seq<Workspace>) -> Seq<(Workspace, CommandSpec)>
    decreases ws.len(),
{
    if ws.len() == 0 {
        seq![]
    } else {
        all_commands(ws.drop_last()) + ws.last().commands@.map_values(
            |c: CommandSpec| (ws.last(), c),
        )
    }
}

/// Every workspace's coverage commands, in order.
pub open spec fn all_coverage(ws: Seq<Workspace>) -> Seq<(Workspace, CoverageSpec)>
    decreases ws.len(),
{
    if ws.len() == 0 {
        seq![]
    } else {
        all_coverage(ws.drop_last()) + ws.last().coverage@.map_values(
            |c: CoverageSpec| (ws.last(), c),
        )
    }
}

pub(crate) fn clone_strings(xs: &Vec<String>) -> (r: Vec<String>)
    ensures
        r@ == xs@,
{
    let mut r: Vec<String> = Vec::new();
    let mut i: usize = 0;
    while i < xs.len()
        invariant
            i <= xs.len(),
            r@ == xs@.take(i as int),
        decreases xs.len() - i,
    {
        r.push(xs[i].clone());
        i += 1;
        assert(r@ =~= xs@.take(i as int));
    }
    assert(xs@.take(xs.len() as int) =~= xs@);
    r
}

/// The settings, or the refusal, a validated V2 configuration gives.
pub open spec fn v2_settings(config: ConfigV2, r: Result<Settings, String>) -> bool {
    match r {
        Ok(s) => {
            let cmds = all_commands(config.workspaces@);
            let cov = all_coverage(config.workspaces@);
            &&& cmds.len() <= MAX_COMMANDS
            &&& s.timeout_seconds == DEFAULT_TIMEOUT_SECONDS
            &&& s.structured@.len() == cmds.len()
            &&& s.commands@.len() == cmds.len()
            &&& forall|k: int|
                0 <= k < cmds.len() ==> structured_from(
                    (#[trigger] cmds[k]).1,
                    cmds[k].0,
                    s.structured@[k],
                ) && s.commands@[k]@ == join_spaced(views(cmds[k].1.argv@))
            &&& s.coverage@.len() == cov.len()
            &&& forall|k: int|
                0 <= k < cov.len() ==> coverage_from(
                    (#[trigger] cov[k]).1,
                    cov[k].0,
                    s.coverage@[k],
                )
        },
        Err(e) => all_commands(config.workspaces@).len() > MAX_COMMANDS && e@
            == "workspaces exceed 64 commands"@,
    }
}

/// The settings of a validated V2 configuration: every structured command
/// (also in display form) and every coverage command, refusing more
/// structured commands than the limit.
pub fn settings_from_v2(config: &ConfigV2) -> (r: Result<Settings, String>)
    ensures
        v2_settings(*config, r),
{
    let mut commands: Vec<String> = Vec::new();
    let mut structured: Vec<StructuredCommand> = Vec::new();
    let mut coverage: Vec<CoverageCommand> = Vec::new();
    let ws = &config.workspaces;
    let mut i: usize = 0;
    assert(ws@.take(0) =~= Seq::<Workspace>::empty());
    while i < ws.len()
        invariant
            i <= ws.len(),
            ws == &config.workspaces,
            structured@.len() == all_commands(ws@.take(i as int)).len(),
            commands@.len() == structured@.len(),
            forall|k: int|
                0 <= k < structured@.len() ==> structured_from(
                    (#[trigger] all_commands(ws@.take(i as int))[k]).1,
                    all_commands(ws@.take(i as int))[k].0,
                    structured@[k],
                ) && commands@[k]@ == join_spaced(
                    views(all_commands(ws@.take(i as int))[k].1.argv@),
                ),
            coverage@.len() == all_coverage(ws@.take(i as int)).len(),
            forall|k: int|
                0 <= k < coverage@.len() ==> coverage_from(
                    (#[trigger] all_coverage(ws@.take(i as int))[k]).1,
                    all_coverage(ws@.take(i as int))[k].0,
                    coverage@[k],
                ),
        decreases ws.len() - i,
    {
        let w = &ws[i];
        let ghost prev_cmds = all_commands(ws@.take(i as int));
        let ghost prev_cov = all_coverage(ws@.take(i as int));
        assert(ws@.take(i + 1).drop_last() =~= ws@.take(i as int));
        assert(ws@.take(i + 1).last() == *w);
        let mut j: usize = 0;
        while j < w.coverage.len()
            invariant
                j <= w.coverage.len(),
                coverage@.len() == prev_cov.len() + j,
                forall|k: int|
                    0 <= k < prev_cov.len() ==> coverage_from(
                        (#[trigger] prev_cov[k]).1,
                        prev_cov[k].0,
                        coverage@[k],
                    ),
                forall|k: int|
                    0 <= k < j ==> coverage_from(
                        #[trigger] w.coverage@[k],
                        *w,
                        coverage@[prev_cov.len() + k],
                    ),
            decreases w.coverage.len() - j,
        {
            let item = &w.coverage[j];
            coverage.push(
                CoverageCommand {
                    workspace_id: w.id.clone(),
                    argv: clone_strings(&item.argv),
                    cwd: item.cwd.clone(),
                    timeout_seconds: item.timeout_seconds,
                    scope: item.scope.clone(),
                    line_threshold_percent: item.line_threshold_percent,
                    branch_threshold_percent: item.branch_threshold_percent,
                },
            );
            j += 1;
        }
        let mut j: usize = 0;
        while j < w.commands.len()
            invariant
                j <= w.commands.len(),
                structured@.len() == prev_cmds.len() + j,
                commands@.len() == structured@.len(),
                forall|k: int|
                    0 <= k < prev_cmds.len() ==> structured_from(
                        (#[trigger] prev_cmds[k]).1,
                        prev_cmds[k].0,
                        structured@[k],
                    ) && commands@[k]@ == join_spaced(views(prev_cmds[k].1.argv@)),
                forall|k: int|
                    0 <= k < j ==> structured_from(
                        #[trigger] w.commands@[k],
                        *w,
                        structured@[prev_cmds.len() + k],
                    ) && commands@[prev_cmds.len() + k]@ == join_spaced(
                        views(w.commands@[k].argv@),
                    ),
            decreases w.commands.len() - j,
        {
            let item = &w.commands[j];
            commands.push(join_with_spaces(item.argv.as_slice()));
            structured.push(
                StructuredCommand {
                    argv: clone_strings(&item.argv),
                    cwd: item.cwd.clone(),
                    workspace_id: w.id.clone(),
                    tier: item.tier.clone(),
                    timeout_seconds: item.timeout_seconds,
                },
            );
            j += 1;
        }
        proof {
            let now_cmds = all_commands(ws@.take(i + 1));
            assert(now_cmds =~= prev_cmds + w.commands@.map_values(
                |c: CommandSpec| (*w, c),
            ));
            assert forall|k: int| 0 <= k < structured@.len() implies structured_from(
                (#[trigger] now_cmds[k]).1,
                now_cmds[k].0,
                structured@[k],
            ) && commands@[k]@ == join_spaced(views(now_cmds[k].1.argv@)) by {
                if k >= prev_cmds.len() {
                    let m = k - prev_cmds.len();
                    assert(now_cmds[k] == (*w, w.commands@[m]));
                } else {
                    assert(now_cmds[k] == prev_cmds[k]);
                }
            }
            let now_cov = all_coverage(ws@.take(i + 1));
            assert(now_cov =~= prev_cov + w.coverage@.map_values(|c: CoverageSpec| (*w, c)));
            assert forall|k: int| 0 <= k < coverage@.len() implies coverage_from(
                (#[trigger] now_cov[k]).1,
                now_cov[k].0,
                coverage@[k],
            ) by {
                if k >= prev_cov.len() {
                    let m = k - prev_cov.len();
                    assert(now_cov[k] == (*w, w.coverage@[m]));
                } else {
                    assert(now_cov[k] == prev_cov[k]);
                }
            }
        }
        i += 1;
    }
    assert(ws@.take(ws.len() as int) =~= ws@);
    if commands.len() > MAX_COMMANDS {
        return Err(String::from_str("workspaces exceed 64 commands"));
    }
    Ok(Settings { commands, structured, timeout_seconds: DEFAULT_TIMEOUT_SECONDS, coverage })
}

/// Whether a document declares itself V2: an object whose `version` is the
/// string `2`.
pub open spec fn declares_v2(v: JsonValue) -> bool {
    match v {
        JsonValue::Object(o) => match member(o@, "version"@) {
            Some(JsonValue::String(s)) => s@ == "2"@,
            _ => false,
        },
        _ => false,
    }
}

/// The settings, or the refusal, a configuration file's text gives: the
/// defaults for blank text; otherwise the text parsed with `serde_json`, read
/// as a V2 configuration and validated when it declares itself V2, else
/// read as a V1 document.
pub open spec fn text_settings(text: Seq<char>, r: Result<Settings, String>) -> bool {
    if trim(text).len() == 0 {
        r matches Ok(s) && s.commands@.len() == 0 && s.structured@.len() == 0 && s.coverage@.len() == 0
            && s.timeout_seconds == DEFAULT_TIMEOUT_SECONDS
    } else {
        match json_parsed(text) {
            Err(m) => r matches Err(e) && e@ == "parse required commands ("@ + m + ")"@,
            Ok(v) => if declares_v2(v) {
                match config_problem(v) {
                    Some(m) => r matches Err(e) && e@ == "config V2 JSON is invalid: "@ + m,
                    None => exists|c: ConfigV2|
                        #[trigger] config_read(v, c) && match config_error(c) {
                            Some(m) => r matches Err(e) && e@ == "config V2 is invalid: "@ + m,
                            None => v2_settings(c, r),
                        },
                }
            } else {
                v1_settings(v, r)
            },
        }
    }
}

/// The command settings a configuration file's text gives (see
/// `text_settings`).
pub fn settings_from_text(text: &str) -> (r: Result<Settings, String>)
    ensures
        text_settings(text@, r),
{
    let c = chars_of(text);
    if trim_exec(c.as_slice()).len() == 0 {
        return Ok(defaults());
    }
    let value = match parse_json(text) {
        Ok(v) => v,
        Err(e) => return Err(concat3("parse required commands (", e.as_str(), ")")),
    };
    let v2 = match &value {
        JsonValue::Object(o) => match get(o, "version") {
            Some(JsonValue::String(s)) => crate::text::same_text(s.as_str(), "2"),
            _ => false,
        },
        _ => false,
    };
    if v2 {
        let config = match crate::config_v2::parse(&value) {
            Ok(c) => c,
            Err(e) => return Err(e.message()),
        };
        return settings_from_v2(&config);
    }
    settings_from_v1(&value)
}

} // verus!
