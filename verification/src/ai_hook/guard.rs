//! Keeping the integrations installed: which file changes matter, which plugin
//! file is ours, and what the set-up command reports.

use vstd::prelude::*;

use crate::ai_hook::codex;
use crate::ai_hook::envelope;
use crate::text;

verus! {

/// Whether a change of files may concern a configuration of ours.
pub open spec fn concerns_us(names: Seq<Option<Seq<char>>>) -> bool {
    names.len() == 0 || names.contains(Some("settings.json"@)) || names.contains(
        Some("config.toml"@),
    )
}

/// Whether a change may concern a configuration of ours, by the names of the
/// files that changed. A change that names no files may be anything.
pub fn is_relevant_change(names: &Vec<Option<String>>) -> (r: bool)
    ensures
        r == concerns_us(codex::optional_texts(names@)),
{
    let ghost all = codex::optional_texts(names@);
    if names.len() == 0 {
        return true;
    }
    let mut i: usize = 0;
    while i < names.len()
        invariant
            i <= names@.len(),
            all == codex::optional_texts(names@),
            forall|j: int|
                0 <= j < i ==> #[trigger] all[j] != Some("settings.json"@) && all[j] != Some(
                    "config.toml"@,
                ),
        decreases names@.len() - i,
    {
        if let Some(name) = &names[i] {
            if text::str_eq(name.as_str(), "settings.json") || text::str_eq(
                name.as_str(),
                "config.toml",
            ) {
                assert(all[i as int] == Some(name@));
                return true;
            }
        }
        assert(all[i as int] == codex::optional_text(names@[i as int]));
        i += 1;
    }
    false
}

/// Whether a plugin file is one that we wrote: it carries the name of the
/// variable that holds the helper's path.
pub fn is_our_plugin(content: &str) -> (r: bool)
    ensures
        r == (text::find_from(content@, "NEBULA_HOOK_EXE"@, 0) is Some),
{
    text::find(
        text::chars_of(content).as_slice(),
        text::chars_of("NEBULA_HOOK_EXE").as_slice(),
    ).is_some()
}

/// Whether the plugin file has to be written: it is missing or differs.
pub fn plugin_is_stale(current: Option<&str>, wanted: &str) -> (r: bool)
    ensures
        r == (envelope::optional_str(current) != Some(wanted@)),
{
    match current {
        Some(current) => !text::str_eq(current, wanted),
        None => true,
    }
}

/// A tool that we integrate with.
#[derive(Debug, Clone, Copy, PartialEq, Eq, Structural)]
pub enum Tool {
    Claude,
    Codex,
    Opencode,
}

/// How the removal of an integration went.
pub enum Removal {
    Removed,
    NotOurs,
    Failed(String),
}

/// How the installation of an integration went.
#[derive(Debug, Clone, Copy, PartialEq, Eq, Structural)]
pub enum Installation {
    /// The tool is not there; it is skipped.
    Absent,
    Written,
    UpToDate,
}

/// The line that reports a removal. `path` names the settings file, and
/// `hooks_tool` is the name of the tool with hooks.
pub open spec fn removal_report(
    hooks_tool: Seq<char>,
    tool: Tool,
    path: Seq<char>,
    outcome: Removal,
) -> Seq<char> {
    match tool {
        Tool::Claude => match outcome {
            Removal::Removed => hooks_tool + ": 已从 "@ + path + " 移除 hooks。"@,
            Removal::NotOurs => hooks_tool + ": "@ + path + " 中没有 Nebula 的 hooks。"@,
            Removal::Failed(err) => hooks_tool + ": 移除失败："@ + err@,
        },
        Tool::Codex => match outcome {
            Removal::Removed => "codex: 已还原 config.toml 的 notify。"@,
            Removal::NotOurs => "codex: notify 不是 Nebula 接管的，未改动。"@,
            Removal::Failed(err) => "codex: 还原失败："@ + err@,
        },
        Tool::Opencode => match outcome {
            Removal::Removed => "opencode: 已删除 plugins/nebula.js。"@,
            Removal::NotOurs => "opencode: 没有 Nebula 的插件，未改动。"@,
            Removal::Failed(err) => "opencode: 删除失败："@ + err@,
        },
    }
}

/// The line that reports an installation. `path` names what is written, or the
/// directory that was looked for.
pub open spec fn installation_report(
    hooks_tool: Seq<char>,
    tool: Tool,
    path: Seq<char>,
    outcome: Installation,
) -> Seq<char> {
    match tool {
        Tool::Claude => match outcome {
            Installation::Absent => hooks_tool + ": 未检测到（"@ + path + " 不存在），跳过。"@,
            Installation::Written => hooks_tool + ": 已写入 "@ + path
                + "（首次改动备份 *.nebula-bak）。"@,
            Installation::UpToDate => hooks_tool + ": "@ + path + " 已是最新。"@,
        },
        Tool::Codex => match outcome {
            Installation::Absent => "codex: 未检测到 config.toml，跳过。"@,
            Installation::Written => "codex: 已接管 notify（原 notifier 经 --chain 保留）。"@,
            Installation::UpToDate => "codex: "@ + path + " 已是最新。"@,
        },
        Tool::Opencode => match outcome {
            Installation::Absent => "opencode: 未检测到（~/.config/opencode 不存在），跳过。"@,
            Installation::Written => "opencode: 已安装 "@ + path + "。"@,
            Installation::UpToDate => "opencode: 插件已是最新。"@,
        },
    }
}

fn join(before: &str, middle: &str, after: &str) -> (r: String)
    ensures
        r@ == before@ + middle@ + after@,
{
    let mut r = before.to_owned();
    r.append(middle);
    r.append(after);
    r
}

fn join_named(name: &str, before: &str, middle: &str, after: &str) -> (r: String)
    ensures
        r@ == name@ + before@ + middle@ + after@,
{
    let mut r = name.to_owned();
    r.append(before);
    r.append(middle);
    r.append(after);
    r
}

/// What the set-up command does after a step.
#[derive(Debug, Clone, Copy, PartialEq, Eq, Structural)]
pub enum Next {
    /// The next step is the removal from this tool.
    Remove(Tool),
    /// It ends with this exit code.
    Exit(i32),
}

/// What comes after a removal: the first failure ends the command.
pub open spec fn after_removal(tool: Tool, outcome: Removal) -> Next {
    if outcome is Failed {
        Next::Exit(1)
    } else {
        match tool {
            Tool::Claude => Next::Remove(Tool::Codex),
            Tool::Codex => Next::Remove(Tool::Opencode),
            Tool::Opencode => Next::Exit(0),
        }
    }
}

/// Reports a removal: the line, and what comes after it. A failure is reported
/// as an error.
pub fn report_removal(hooks_tool: &str, tool: Tool, path: &str, outcome: &Removal) -> (r: (
    String,
    Next,
))
    ensures
        r.0@ == removal_report(hooks_tool@, tool, path@, *outcome),
        r.1 == after_removal(tool, *outcome),
{
    match outcome {
        Removal::Failed(err) => {
            let mut line = match tool {
                Tool::Claude => {
                    let mut named = hooks_tool.to_owned();
                    named.append(": 移除失败：");
                    named
                },
                Tool::Codex => "codex: 还原失败：".to_owned(),
                Tool::Opencode => "opencode: 删除失败：".to_owned(),
            };
            line.append(err.as_str());
            (line, Next::Exit(1))
        },
        Removal::Removed => match tool {
            Tool::Claude => (join_named(hooks_tool, ": 已从 ", path, " 移除 hooks。"), Next::Remove(Tool::Codex)),
            Tool::Codex => (
                "codex: 已还原 config.toml 的 notify。".to_owned(),
                Next::Remove(Tool::Opencode),
            ),
            Tool::Opencode => ("opencode: 已删除 plugins/nebula.js。".to_owned(), Next::Exit(0)),
        },
        Removal::NotOurs => match tool {
            Tool::Claude => (
                join_named(hooks_tool, ": ", path, " 中没有 Nebula 的 hooks。"),
                Next::Remove(Tool::Codex),
            ),
            Tool::Codex => (
                "codex: notify 不是 Nebula 接管的，未改动。".to_owned(),
                Next::Remove(Tool::Opencode),
            ),
            Tool::Opencode => (
                "opencode: 没有 Nebula 的插件，未改动。".to_owned(),
                Next::Exit(0),
            ),
        },
    }
}

/// Reports an installation.
pub fn report_installation(hooks_tool: &str, tool: Tool, path: &str, outcome: Installation) -> (r:
    String)
    ensures
        r@ == installation_report(hooks_tool@, tool, path@, outcome),
{
    match tool {
        Tool::Claude => match outcome {
            Installation::Absent => join_named(hooks_tool, ": 未检测到（", path, " 不存在），跳过。"),
            Installation::Written => join_named(hooks_tool, ": 已写入 ",
                path,
                "（首次改动备份 *.nebula-bak）。",
            ),
            Installation::UpToDate => join_named(hooks_tool, ": ", path, " 已是最新。"),
        },
        Tool::Codex => match outcome {
            Installation::Absent => "codex: 未检测到 config.toml，跳过。".to_owned(),
            Installation::Written => "codex: 已接管 notify（原 notifier 经 --chain 保留）。".to_owned(),
            Installation::UpToDate => join("codex: ", path, " 已是最新。"),
        },
        Tool::Opencode => match outcome {
            Installation::Absent => "opencode: 未检测到（~/.config/opencode 不存在），跳过。".to_owned(),
            Installation::Written => join("opencode: 已安装 ", path, "。"),
            Installation::UpToDate => "opencode: 插件已是最新。".to_owned(),
        },
    }
}

} // verus!
