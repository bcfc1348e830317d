use nebula::ai_hook::claude::{install_into, install_text, is_helper, remove_hooks, remove_text};
use nebula::ai_hook::codex::{
    desired_argv, helper_command, helper_text, restored_argv, unwire_notify, wire_notify, Edit,
    Restored,
};
use nebula::ai_hook::envelope::{
    classify, parse_envelope, receive, truncate, AiHookKind, MESSAGE_CAP,
};
use nebula::ai_hook::guard::{
    is_our_plugin, is_relevant_change, plugin_is_stale, report_installation, report_removal,
    Installation, Next, Removal, Tool,
};
use nebula::ai_hook::json::{Json, JsonEdit};

fn strings(v: &[&str]) -> Vec<String> {
    v.iter().map(|s| s.to_string()).collect()
}

fn object(pairs: Vec<(&str, Json)>) -> Json {
    Json::Object(pairs.into_iter().map(|(k, v)| (k.to_string(), v)).collect())
}

fn text(s: &str) -> Json {
    Json::Str(s.to_string())
}

fn render(j: &Json) -> String {
    match j {
        Json::Null => "null".to_string(),
        Json::Bool(b) => format!("{b}"),
        Json::Number(n) => n.clone(),
        Json::Str(s) => format!("'{s}'"),
        Json::Array(v) => format!("[{}]", v.iter().map(render).collect::<Vec<_>>().join(",")),
        Json::Object(v) => {
            let pairs: Vec<String> =
                v.iter().map(|(k, j)| format!("{k}:{}", render(j))).collect();
            format!("{{{}}}", pairs.join(","))
        },
    }
}

#[test]
fn messages_are_read_from_header_and_payload() {
    let raw = b"nebula-hook/1 source=agent pane=7\n{\"hook_event_name\":\"Stop\"}";
    let event = parse_envelope(raw, "agent").unwrap();
    assert_eq!(event.pane, Some(7));
    assert_eq!(event.source, "agent");
    assert_eq!(event.kind, AiHookKind::TurnDone);
    assert_eq!(event.message, None);
}

#[test]
fn notifications_carry_their_message() {
    let raw = "nebula-hook/1 source=agent\n{\"hook_event_name\":\"Notification\",\"message\":\"需要许可\"}";
    let event = parse_envelope(raw.as_bytes(), "agent").unwrap();
    assert_eq!(event.pane, None);
    assert_eq!(event.kind, AiHookKind::NeedsAttention);
    assert_eq!(event.message.as_deref(), Some("需要许可"));
}

#[test]
fn other_tools_have_their_own_keys() {
    let codex = b"nebula-hook/1 source=codex pane=1\n{\"type\":\"agent-turn-complete\",\"last-assistant-message\":\"ok\"}";
    let event = parse_envelope(codex, "agent").unwrap();
    assert_eq!((event.kind, event.message.as_deref()), (AiHookKind::TurnDone, Some("ok")));
    let opencode = b"nebula-hook/1 source=opencode pane=1\n{\"kind\":\"prompt\"}";
    assert_eq!(parse_envelope(opencode, "agent").unwrap().kind, AiHookKind::PromptSubmit);
}

#[test]
fn foreign_messages_are_refused() {
    assert!(parse_envelope(b"nebula-hook/1 source=agent", "agent").is_none());
    assert!(parse_envelope(b"nebula-hook/2 source=agent\n{}", "agent").is_none());
    assert!(parse_envelope(b"nebula-hook/1 pane=1\n{}", "agent").is_none());
    assert!(parse_envelope(b"nebula-hook/1 source=other\n{\"kind\":\"done\"}", "agent").is_none());
    assert!(parse_envelope(b"\xff\xfe\n{}", "agent").is_none());
    assert!(parse_envelope(b"nebula-hook/1 source=agent\nnot json", "agent").is_none());
    assert!(parse_envelope(
        b"nebula-hook/1 source=agent\n{\"hook_event_name\":\"PreToolUse\"}",
        "agent"
    )
    .is_none());
}

#[test]
fn events_are_classified_by_tool() {
    let kind = |s: &str, e: &str| classify("agent", s, Some(e), None).map(|r| r.0);
    assert_eq!(kind("agent", "UserPromptSubmit"), Some(AiHookKind::PromptSubmit));
    assert_eq!(kind("codex", "UserPromptSubmit"), None);
    assert_eq!(kind("opencode", "attention"), Some(AiHookKind::NeedsAttention));
    assert!(classify("agent", "agent", None, None).is_none());
}

#[test]
fn long_messages_are_cut() {
    assert_eq!(truncate("héllo", 5), "héllo");
    assert_eq!(truncate("héllo!", 5), "héllo…");
    let long = "x".repeat(400);
    let (_, message) =
        classify("agent", "codex", Some("agent-turn-complete"), Some(&long)).unwrap();
    assert_eq!(message.unwrap().chars().count(), 301);
}

#[test]
fn installing_wires_every_event_once() {
    let root = object(vec![("theme", text("dark"))]);
    let (doc, changed) = install_into(root, "\"/x/nebula-hook\" agent").unwrap();
    assert!(changed);
    let shown = render(&doc);
    assert!(shown.contains("theme:'dark'"));
    for event in ["UserPromptSubmit", "Stop", "Notification"] {
        assert!(shown.contains(event));
    }
    assert_eq!(shown.matches("nebula-hook").count(), 3);
    let (again, changed) = install_into(doc, "\"/x/nebula-hook\" agent").unwrap();
    assert!(!changed);
    assert_eq!(render(&again), shown);
}

#[test]
fn installing_heals_a_stale_path() {
    let (doc, _) = install_into(object(vec![]), "/old/nebula-hook agent").unwrap();
    let (doc, changed) = install_into(doc, "/new/nebula-hook agent").unwrap();
    assert!(changed);
    let shown = render(&doc);
    assert!(!shown.contains("/old/"));
    assert_eq!(shown.matches("/new/nebula-hook").count(), 3);
}

#[test]
fn unexpected_shapes_are_refused() {
    assert!(install_into(Json::Array(vec![]), "nebula-hook").is_none());
    assert!(install_into(object(vec![("hooks", Json::Bool(true))]), "nebula-hook").is_none());
    let odd = object(vec![("hooks", object(vec![("Stop", Json::Null)]))]);
    assert!(install_into(odd, "nebula-hook").is_none());
}

#[test]
fn removal_leaves_the_hooks_of_others() {
    let other = object(vec![("type", text("command")), ("command", text("say done"))]);
    let matcher = object(vec![("hooks", Json::Array(vec![other]))]);
    let root = object(vec![("hooks", object(vec![("Stop", Json::Array(vec![matcher]))]))]);
    let before = render(&root);
    let (doc, changed) = remove_hooks(root);
    assert!(!changed);
    assert_eq!(render(&doc), before);
    let (doc, _) = install_into(doc, "nebula-hook agent").unwrap();
    let (doc, changed) = remove_hooks(doc);
    assert!(changed);
    let shown = render(&doc);
    assert!(!shown.contains("nebula-hook"));
    assert!(shown.contains("say done"));
}

#[test]
fn helpers_are_known_by_name() {
    assert!(is_helper("C:/x/nebula-hook.exe"));
    assert!(!is_helper("C:/x/hook.exe"));
}

#[test]
fn notifier_slot_is_taken_and_given_back() {
    let none = strings(&[]);
    assert_eq!(desired_argv(&none, "/n/nebula-hook"), strings(&["/n/nebula-hook", "codex"]));
    let theirs = strings(&["notify-send", "-u"]);
    let ours = desired_argv(&theirs, "/n/nebula-hook");
    assert_eq!(
        ours,
        strings(&["/n/nebula-hook", "codex", "--chain", "notify-send", "-u"])
    );
    assert_eq!(desired_argv(&ours, "/m/nebula-hook")[0], "/m/nebula-hook");
    assert!(matches!(restored_argv(&ours), Restored::Argv(v) if v == theirs));
    assert!(matches!(restored_argv(&theirs), Restored::NotOurs));
    assert!(matches!(
        restored_argv(&strings(&["/n/nebula-hook", "codex"])),
        Restored::Removed
    ));
}

fn written(e: Edit) -> String {
    match e {
        Edit::Write(s) => s,
        Edit::Keep => panic!("kept"),
        Edit::Invalid => panic!("invalid"),
    }
}

#[test]
fn wiring_edits_the_configuration_in_place() {
    let raw = "# mine\nmodel = \"m\"\nnotify = [\"say\", \"hi\"]\n\n[tui]\nx = 1\n";
    let wired = written(wire_notify(raw, "/n/nebula-hook"));
    assert!(wired.contains("# mine"));
    assert!(wired.contains("--chain"));
    assert!(matches!(wire_notify(&wired, "/n/nebula-hook"), Edit::Keep));
    let back = written(unwire_notify(&wired));
    assert!(!back.contains("nebula-hook"));
    assert!(back.contains("\"say\"") && back.contains("\"hi\""));
    assert!(matches!(unwire_notify(raw), Edit::Keep));
}

#[test]
fn wiring_an_empty_configuration_can_be_undone() {
    let wired = written(wire_notify("", "/n/nebula-hook"));
    assert!(wired.contains("notify"));
    assert!(!written(unwire_notify(&wired)).contains("notify"));
}

#[test]
fn broken_configurations_are_left_alone() {
    assert!(matches!(wire_notify("notify = [", "/n/nebula-hook"), Edit::Invalid));
    assert!(matches!(unwire_notify("= 1"), Edit::Invalid));
}

#[test]
fn helper_paths_use_forward_slashes() {
    assert_eq!(helper_text("C:\\n\\nebula-hook.exe"), "C:/n/nebula-hook.exe");
    assert_eq!(helper_command("C:\\n\\h.exe", "agent"), "\"C:/n/h.exe\" agent");
}

#[test]
fn only_configuration_files_matter() {
    let named = |s: &str| Some(s.to_string());
    assert!(is_relevant_change(&vec![]));
    assert!(is_relevant_change(&vec![None, named("config.toml")]));
    assert!(is_relevant_change(&vec![named("settings.json")]));
    assert!(!is_relevant_change(&vec![named("state.sqlite"), None]));
}

#[test]
fn plugins_are_ours_by_their_mark() {
    assert!(is_our_plugin("const exe = process.env.NEBULA_HOOK_EXE"));
    assert!(!is_our_plugin("export default {}"));
    assert!(plugin_is_stale(None, "x"));
    assert!(plugin_is_stale(Some("y"), "x"));
    assert!(!plugin_is_stale(Some("x"), "x"));
}

#[test]
fn removal_goes_from_tool_to_tool() {
    let (line, next) = report_removal("agent", Tool::Claude, "/s", &Removal::Removed);
    assert_eq!(line, "agent: 已从 /s 移除 hooks。");
    assert_eq!(next, Next::Remove(Tool::Codex));
    let (line, next) = report_removal("agent", Tool::Codex, "/c", &Removal::NotOurs);
    assert_eq!(line, "codex: notify 不是 Nebula 接管的，未改动。");
    assert_eq!(next, Next::Remove(Tool::Opencode));
    let failed = Removal::Failed("denied".to_string());
    let (line, next) = report_removal("agent", Tool::Opencode, "/o", &failed);
    assert_eq!(line, "opencode: 删除失败：denied");
    assert_eq!(next, Next::Exit(1));
    let (_, next) = report_removal("agent", Tool::Opencode, "/o", &Removal::Removed);
    assert_eq!(next, Next::Exit(0));
}

#[test]
fn installations_are_reported() {
    assert_eq!(
        report_installation("agent", Tool::Claude, "/s", Installation::UpToDate),
        "agent: /s 已是最新。"
    );
    assert_eq!(
        report_installation("agent", Tool::Codex, "/c", Installation::Absent),
        "codex: 未检测到 config.toml，跳过。"
    );
    assert_eq!(
        report_installation("agent", Tool::Opencode, "/p", Installation::Written),
        "opencode: 已安装 /p。"
    );
}

#[test]
fn messages_are_read_up_to_their_end_or_cap() {
    let mut message = Vec::new();
    assert!(receive(&mut message, b"source="));
    assert!(receive(&mut message, b"codex"));
    assert!(!receive(&mut message, b""));
    assert_eq!(message, b"source=codex");
    let mut message = vec![0u8; MESSAGE_CAP - 1];
    assert!(receive(&mut message, &[1]));
    assert!(!receive(&mut message, &[2]));
    assert_eq!(message.len(), MESSAGE_CAP + 1);
}

#[test]
fn installing_drops_further_helpers() {
    let ours = |path: &str| object(vec![("type", text("command")), ("command", text(path))]);
    let theirs = object(vec![("command", text("say done"))]);
    let first = object(vec![(
        "hooks",
        Json::Array(vec![ours("/a/nebula-hook x"), theirs, ours("/b/nebula-hook x")]),
    )]);
    let second = object(vec![("hooks", Json::Array(vec![ours("/c/nebula-hook x")]))]);
    let stop = Json::Array(vec![first, second]);
    let root = object(vec![("hooks", object(vec![("Stop", stop)]))]);
    let (doc, changed) = install_into(root, "/new/nebula-hook x").unwrap();
    assert!(changed);
    let shown = render(&doc);
    assert_eq!(shown.matches("nebula-hook").count(), 3);
    assert_eq!(shown.matches("/new/nebula-hook x").count(), 3);
    assert!(shown.contains("say done"));
    let (again, changed) = install_into(doc, "/new/nebula-hook x").unwrap();
    assert!(!changed);
    assert_eq!(render(&again), shown);
}

fn text_of(edit: JsonEdit) -> String {
    match edit {
        JsonEdit::Write(text) => text,
        JsonEdit::Invalid => panic!("invalid"),
        JsonEdit::Refused => panic!("refused"),
        JsonEdit::Keep => panic!("kept"),
    }
}

#[test]
fn settings_files_are_edited_as_text() {
    assert!(matches!(install_text(Some("{"), "nebula-hook"), JsonEdit::Invalid));
    assert!(matches!(install_text(Some("[]"), "nebula-hook"), JsonEdit::Refused));
    assert!(matches!(remove_text("nope"), JsonEdit::Invalid));
    let raw = "{\"size\": 1.5, \"deep\": {\"on\": true, \"none\": null}}";
    let wired = text_of(install_text(Some(raw), "/x/nebula-hook agent"));
    assert_eq!(wired.matches("/x/nebula-hook agent").count(), 3);
    assert!(wired.contains("\"size\": 1.5") && wired.contains("\"none\": null"));
    assert!(wired.contains("\"timeout\": 10"));
    assert!(wired.contains('\n'));
    assert!(matches!(install_text(Some(&wired), "/x/nebula-hook agent"), JsonEdit::Keep));
    let back = text_of(remove_text(&wired));
    assert!(!back.contains("nebula-hook") && back.contains("\"on\": true"));
    assert!(matches!(remove_text(&back), JsonEdit::Keep));
    let fresh = text_of(install_text(None, "nebula-hook agent"));
    assert_eq!(fresh.matches("nebula-hook agent").count(), 3);
}
