use base64::Engine;
use goal::accounting::Clock;
use goal::connection_registry::{AcpConnection, ConnectionRegistry};
use goal::cursor::{read_fields, write_fields, CursorFields};
use goal::extension::{
    checked_offset, decode_cursor, encode_cursor, goal_json, ms_to_iso, neutral_goal_capability,
    neutral_meta, neutral_status, now_iso, project_goal, project_status, ExtensionError,
    GoalStatus as WireStatus,
};
use goal::handler::{join_objective, GoalHandler, Outbound, Reply, RequestContext, SessionEntry};
use goal::json::{Field, Json};
use goal::listing::page_limit;
use goal::service::Env;
use goal::store::GoalStore;
use goal::types::{Goal, GoalStatus, DEFAULT_MAX_GOAL_TOKEN_BUDGET};

const NOW: i64 = 1_700_000_000_000;

fn env(ms: i64) -> Env {
    Env {
        now: Clock {
            wall_ms: ms,
            mono_ns: 0,
        },
        cap: DEFAULT_MAX_GOAL_TOKEN_BUDGET,
        writable: true,
    }
}

fn make_ctx(session_id: Option<&str>) -> RequestContext {
    RequestContext {
        session_id: session_id.map(str::to_string),
        principal: "test-user".to_string(),
        denied: None,
        locked: true,
        now_iso: "2024-01-01T00:00:00.000Z".to_string(),
    }
}

fn make_ctx_no_principal(session_id: Option<&str>) -> RequestContext {
    RequestContext {
        principal: String::new(),
        ..make_ctx(session_id)
    }
}

fn make_handler() -> GoalHandler {
    let mut handler = GoalHandler::new();
    handler.bind_store(GoalStore::new());
    handler
}

fn s(v: &str) -> Json {
    Json::Str(v.to_string())
}

fn obj(fields: Vec<(&str, Json)>) -> Json {
    Json::Obj(
        fields
            .into_iter()
            .map(|(k, value)| Field {
                key: k.to_string(),
                value,
            })
            .collect(),
    )
}

fn at<'a>(v: &'a Json, path: &[&str]) -> Option<&'a Json> {
    let mut here = v;
    for step in path {
        here = match here {
            Json::Arr(items) => items.get(step.parse::<usize>().ok()?)?,
            other => other.get(step)?,
        };
    }
    Some(here)
}

fn text<'a>(v: &'a Json, path: &[&str]) -> &'a str {
    at(v, path).and_then(|j| j.as_str()).unwrap_or("(none)")
}

fn items(v: &Json) -> usize {
    match at(v, &["items"]) {
        Some(Json::Arr(a)) => a.len(),
        _ => panic!("no items"),
    }
}

fn ask(h: &mut GoalHandler, method: &str, params: Json, ctx: &RequestContext) -> Result<Reply, ExtensionError> {
    let id = goal::service::new_goal_id();
    h.handle(method, &params, ctx, &id, env(NOW))
}

fn value(h: &mut GoalHandler, method: &str, params: Json, ctx: &RequestContext) -> Json {
    ask(h, method, params, ctx).unwrap().value
}

fn code(h: &mut GoalHandler, method: &str, params: Json, ctx: &RequestContext) -> i64 {
    ask(h, method, params, ctx).unwrap_err().code as i64
}

fn start_goal(h: &mut GoalHandler, ctx: &RequestContext, session: &str, title: &str) -> Json {
    value(
        h,
        "start",
        obj(vec![
            ("title", s(title)),
            ("description", s(title)),
            ("sessionId", s(session)),
        ]),
        ctx,
    )
}

fn control(action: &str, more: Vec<(&str, Json)>) -> Json {
    let mut fields = vec![("sessionId", s("s")), ("action", s(action))];
    fields.extend(more);
    obj(fields)
}

#[test]
fn list_empty_when_no_goals() {
    let mut h = make_handler();
    let result = value(&mut h, "list", obj(vec![]), &make_ctx(None));
    assert_eq!(items(&result), 0);
    assert_eq!(at(&result, &["hasMore"]), Some(&Json::Bool(false)));
}

#[test]
fn unbound_handler_degrades_to_empty_list() {
    let mut h = GoalHandler::new();
    let result = value(&mut h, "list", obj(vec![]), &make_ctx(None));
    assert_eq!(items(&result), 0);
}

#[test]
fn start_persists_to_thread_and_projects_old_shape() {
    let mut h = make_handler();
    let ctx = make_ctx(Some("session-1"));
    let started = start_goal(&mut h, &ctx, "session-1", "do work");
    assert_eq!(text(&started, &["status"]), "active");
    assert_eq!(text(&started, &["sessionId"]), "session-1");
    assert_eq!(text(&started, &["notification", "change"]), "started");
    assert!(at(&started, &["updated", "id"]).unwrap().as_str().is_some());

    let listed = value(&mut h, "list", obj(vec![]), &ctx);
    assert_eq!(items(&listed), 1);
    assert_eq!(text(&listed, &["items", "0", "status"]), "active");
    assert_eq!(text(&listed, &["items", "0", "sessionIds", "0"]), "session-1");
    assert_eq!(
        text(&listed, &["items", "0", "metadata", "threadId"]),
        "session-1"
    );
    assert!(at(&listed, &["items", "0", "created_at"]).is_none());
    assert!(at(&listed, &["items", "0", "createdAt"]).unwrap().as_str().is_some());
}

#[test]
fn start_requires_session_id() {
    let mut h = make_handler();
    let p = obj(vec![("title", s("A")), ("description", s("d"))]);
    assert_eq!(code(&mut h, "start", p, &make_ctx(None)), -32602);
}

#[test]
fn start_rejects_empty_title() {
    let mut h = make_handler();
    let p = obj(vec![("title", s("  ")), ("description", s("d")), ("sessionId", s("s"))]);
    assert_eq!(code(&mut h, "start", p, &make_ctx(Some("s"))), -32602);
}

#[test]
fn start_rejects_missing_description() {
    let mut h = make_handler();
    let p = obj(vec![("title", s("T")), ("sessionId", s("s"))]);
    assert_eq!(code(&mut h, "start", p, &make_ctx(Some("s"))), -32602);
}

#[test]
fn start_no_principal_returns_forbidden() {
    let mut h = make_handler();
    let p = obj(vec![("title", s("T")), ("description", s("D")), ("sessionId", s("s"))]);
    assert_eq!(code(&mut h, "start", p, &make_ctx_no_principal(Some("s"))), -32002);
}

#[test]
fn idempotency_key_returns_existing_goal() {
    let mut h = make_handler();
    let ctx = make_ctx(Some("s"));
    let first = value(
        &mut h,
        "start",
        obj(vec![
            ("title", s("A")),
            ("description", s("d")),
            ("sessionId", s("s")),
            ("idempotencyKey", s("k1")),
        ]),
        &ctx,
    );
    let second = value(
        &mut h,
        "start",
        obj(vec![
            ("title", s("B")),
            ("description", s("d2")),
            ("sessionId", s("s")),
            ("idempotencyKey", s("k1")),
        ]),
        &ctx,
    );
    assert_eq!(text(&first, &["id"]), text(&second, &["id"]));
    assert_eq!(text(&second, &["title"]), "A: d", "a repeated start replaces nothing");
}

#[test]
fn get_by_goal_id_roundtrip() {
    let mut h = make_handler();
    let ctx = make_ctx(Some("s"));
    let started = start_goal(&mut h, &ctx, "s", "objective text");
    let id = text(&started, &["id"]).to_string();
    let got = value(&mut h, "get", obj(vec![("id", s(&id))]), &ctx);
    assert_eq!(text(&got, &["id"]), id);
    assert_eq!(text(&got, &["status"]), "active");
    assert_eq!(text(&got, &["description"]), "objective text");
    assert_eq!(at(&got, &["steps"]), Some(&Json::Arr(vec![])));
}

#[test]
fn get_unknown_goal_is_not_found() {
    let mut h = make_handler();
    let p = obj(vec![("id", s("missing"))]);
    assert_eq!(code(&mut h, "get", p, &make_ctx(None)), -32003);
}

#[test]
fn get_requires_id_param() {
    let mut h = make_handler();
    assert_eq!(code(&mut h, "get", obj(vec![]), &make_ctx(None)), -32602);
}

#[test]
fn pause_resume_cycle_maps_to_old_statuses() {
    let mut h = make_handler();
    let ctx = make_ctx(Some("s"));
    let started = start_goal(&mut h, &ctx, "s", "work");
    let id = text(&started, &["id"]).to_string();
    let p = || obj(vec![("id", s(&id))]);

    let paused = value(&mut h, "pause", p(), &ctx);
    assert_eq!(text(&paused, &["status"]), "paused");
    assert_eq!(text(&paused, &["notification", "change"]), "paused");

    assert_eq!(code(&mut h, "pause", p(), &ctx), -32602);

    let resumed = value(&mut h, "resume", p(), &ctx);
    assert_eq!(text(&resumed, &["status"]), "active");
    assert!(at(&resumed, &["resumedAt"]).unwrap().as_str().is_some());

    assert_eq!(code(&mut h, "resume", p(), &ctx), -32602);
}

#[test]
fn pause_nonexistent_returns_not_found() {
    let mut h = make_handler();
    let p = obj(vec![("id", s("nope"))]);
    assert_eq!(code(&mut h, "pause", p, &make_ctx(None)), -32003);
}

#[test]
fn pause_no_principal_returns_forbidden() {
    let mut h = make_handler();
    let p = obj(vec![("id", s("x"))]);
    assert_eq!(code(&mut h, "pause", p, &make_ctx_no_principal(None)), -32002);
}

#[test]
fn cancel_clears_goal_and_reports_reason() {
    let mut h = make_handler();
    let ctx = make_ctx(Some("s"));
    let started = start_goal(&mut h, &ctx, "s", "work");
    let id = text(&started, &["id"]).to_string();

    let cancelled = value(
        &mut h,
        "cancel",
        obj(vec![("id", s(&id)), ("reason", s("user asked"))]),
        &ctx,
    );
    assert_eq!(text(&cancelled, &["status"]), "cancelled");
    assert_eq!(
        text(&cancelled, &["cancelledAt"]),
        "2023-11-14T22:13:20.000Z"
    );
    assert!(text(&cancelled, &["updated", "metadata", "cancellationReason"]).contains("user asked"));

    assert_eq!(code(&mut h, "cancel", obj(vec![("id", s(&id))]), &ctx), -32003);

    let listed = value(&mut h, "list", obj(vec![]), &ctx);
    assert_eq!(items(&listed), 0);
}

#[test]
fn cancel_no_principal_returns_forbidden() {
    let mut h = make_handler();
    let p = obj(vec![("id", s("x"))]);
    assert_eq!(code(&mut h, "cancel", p, &make_ctx_no_principal(None)), -32002);
}

#[test]
fn cancel_terminal_goal_is_idempotent() {
    let mut h = make_handler();
    let ctx = make_ctx(Some("s"));
    let started = start_goal(&mut h, &ctx, "s", "work");
    let id = text(&started, &["id"]).to_string();

    let mut svc = h.take_service();
    let (thread, g) = svc.store.find_by_goal_id(&id).unwrap();
    svc.store.mark_complete(&thread, &g.goal_id, NOW).unwrap();
    h.put_service(svc);

    let cancelled = value(&mut h, "cancel", obj(vec![("id", s(&id))]), &ctx);
    assert_eq!(text(&cancelled, &["status"]), "cancelled");
    let got = value(&mut h, "get", obj(vec![("id", s(&id))]), &ctx);
    assert_eq!(text(&got, &["status"]), "completed");
}

#[test]
fn list_status_filter_maps_old_to_new() {
    let mut h = make_handler();
    let ctx = make_ctx(Some("s"));
    start_goal(&mut h, &ctx, "s", "A");
    for (status, n) in [("active", 1), ("paused", 0), ("cancelled", 0)] {
        let result = value(&mut h, "list", obj(vec![("status", s(status))]), &ctx);
        assert_eq!(items(&result), n, "{status}");
    }
}

#[test]
fn list_status_filter_case_insensitive() {
    let mut h = make_handler();
    let ctx = make_ctx(Some("s"));
    start_goal(&mut h, &ctx, "s", "A");
    let result = value(&mut h, "list", obj(vec![("status", s("Active"))]), &ctx);
    assert_eq!(items(&result), 1);
}

fn three_goals(h: &mut GoalHandler) {
    for i in 0..3 {
        let ctx_i = make_ctx(Some(&format!("s{i}")));
        value(
            h,
            "start",
            obj(vec![
                ("title", s(&format!("G{i}"))),
                ("description", s("d")),
                ("sessionId", s(&format!("s{i}"))),
            ]),
            &ctx_i,
        );
    }
}

#[test]
fn list_pagination_no_duplicates() {
    let mut h = make_handler();
    let ctx = make_ctx(None);
    three_goals(&mut h);
    let page1 = value(&mut h, "list", obj(vec![("limit", Json::Int(1))]), &ctx);
    assert_eq!(items(&page1), 1);
    assert_eq!(at(&page1, &["hasMore"]), Some(&Json::Bool(true)));
    let cursor = text(&page1, &["nextCursor"]).to_string();

    let page2 = value(
        &mut h,
        "list",
        obj(vec![("limit", Json::Int(1)), ("cursor", s(&cursor))]),
        &ctx,
    );
    assert_eq!(items(&page2), 1);
    assert_ne!(
        text(&page1, &["items", "0", "id"]),
        text(&page2, &["items", "0", "id"]),
        "no goal is shown twice"
    );
}

#[test]
fn pages_cover_the_list() {
    let mut h = make_handler();
    let ctx = make_ctx(None);
    three_goals(&mut h);
    let mut seen: Vec<String> = Vec::new();
    let mut params = obj(vec![("limit", Json::Int(2))]);
    loop {
        let page = value(&mut h, "list", params, &ctx);
        for i in 0..items(&page) {
            seen.push(text(&page, &["items", &i.to_string(), "title"]).to_string());
        }
        match at(&page, &["nextCursor"]) {
            Some(Json::Str(c)) => {
                params = obj(vec![("limit", Json::Int(2)), ("cursor", s(c))]);
            }
            other => {
                assert_eq!(other, Some(&Json::Null));
                break;
            }
        }
    }
    seen.sort();
    assert_eq!(seen, vec!["G0: d", "G1: d", "G2: d"]);
}

#[test]
fn invalid_cursor_is_rejected() {
    let mut h = make_handler();
    let p = obj(vec![("cursor", s("not-base64!!"))]);
    assert_eq!(code(&mut h, "list", p, &make_ctx(None)), -32602);
}

#[test]
fn a_change_voids_cursors() {
    let mut h = make_handler();
    let ctx = make_ctx(None);
    three_goals(&mut h);
    let page = value(&mut h, "list", obj(vec![("limit", Json::Int(1))]), &ctx);
    let cursor = text(&page, &["nextCursor"]).to_string();
    start_goal(&mut h, &make_ctx(Some("s9")), "s9", "more");
    let p = obj(vec![("limit", Json::Int(1)), ("cursor", s(&cursor))]);
    assert_eq!(code(&mut h, "list", p, &ctx), -32602);
}

#[test]
fn cursors_hold_what_they_were_made_of() {
    let c = encode_cursor(7, 42);
    assert_eq!(c, "eyJnZW5lcmF0aW9uIjo3LCJvZmZzZXQiOjQyfQ");
    assert_eq!(decode_cursor(&c, 7).unwrap(), 42);
    assert!(decode_cursor(&c, 8).is_err());
    assert!(decode_cursor("e30", 0).is_err());
    assert_eq!(decode_cursor("WzcsNDJd", 7).unwrap(), 42, "[7,42]");
    assert!(decode_cursor("WzcsNDIsMV0", 7).is_err(), "[7,42,1]");
    assert!(decode_cursor("", 0).is_err());
    assert_eq!(checked_offset(Some((3, 5)), 3), Some(5));
    assert_eq!(checked_offset(Some((2, 5)), 3), None);
    assert_eq!(checked_offset(None, 3), None);
    assert_eq!(page_limit(None), 50);
    assert_eq!(page_limit(Some(0)), 1);
    assert_eq!(page_limit(Some(u64::MAX)), 200);
}

fn cursor_with(json: &[u8]) -> String {
    base64::engine::general_purpose::URL_SAFE_NO_PAD.encode(json)
}

#[test]
fn a_cursor_holds_each_field_once() {
    assert_eq!(write_fields(7, 42), br#"{"generation":7,"offset":42}"#.to_vec());
    assert_eq!(encode_cursor(7, 42), cursor_with(br#"{"generation":7,"offset":42}"#));
    assert_eq!(
        read_fields(&write_fields(u64::MAX, u64::MAX)),
        Some((u64::MAX, u64::MAX))
    );
    let mut deep = br#"{"x":"#.to_vec();
    deep.extend(vec![b'['; 1000]);
    deep.extend(vec![b']'; 1000]);
    deep.extend(br#","generation":7,"offset":42}"#);
    let good: Vec<&[u8]> = vec![
        br#"{"offset":42,"generation":7}"#,
        b" { \"offset\" : 42 ,\r\n\t\"generation\" : 7 } ",
        br#"{"\u0067eneration":7,"offset":42}"#,
        br#"{"generation":7,"offset":42,"x":1e999,"y":{"offset":1},"x":[null,true,"\ud800"]}"#,
        b"{\"generation\":7,\"x\":\"\xff\",\"offset\":42}",
        b" [ 7 , 42 ] ",
        &deep,
    ];
    for json in good {
        assert_eq!(read_fields(json), Some((7, 42)), "{}", String::from_utf8_lossy(json));
        assert_eq!(decode_cursor(&cursor_with(json), 7).unwrap(), 42);
    }
    let bad: Vec<&[u8]> = vec![
        br#"{"generation":7,"offset":42,"offset":42}"#,
        br#"{"generation":7,"generation":7,"offset":42}"#,
        br#"{"generation":7,"\u006fffset":1,"offset":42}"#,
        br#"{"generation":7}"#,
        br#"{"generation":7,"offset":42,}"#,
        br#"{,"generation":7,"offset":42}"#,
        br#"{"generation":7"offset":42}"#,
        br#"{"generation":7,"offset":42"#,
        br#"{"generation":7,"offset":42}}"#,
        br#"{"generation":7,"offset":42} x"#,
        br#"{"generation":7,"offset":-1}"#,
        br#"{"generation":7,"offset":42.0}"#,
        br#"{"generation":7,"offset":"42"}"#,
        br#"{"generation":7,"offset":042}"#,
        br#"{"generation":7,"offset":18446744073709551616}"#,
        br#"{"generation" 7,"offset":42}"#,
        br#"{generation:7,"offset":42}"#,
        br#"{"generation":7,"offset":42,"x":nul}"#,
        b"{\"generation\":7,\"\xff\":1,\"offset\":42}",
        b"[7,42,1]",
        b"[7]",
        b"{}",
        b"",
        b" ",
        b"7",
    ];
    for json in bad {
        assert_eq!(read_fields(json), None, "{}", String::from_utf8_lossy(json));
        assert!(decode_cursor(&cursor_with(json), 7).is_err());
    }
    let none = CursorFields { generation: None, offset: None };
    let one = none.note("offset", 1).unwrap();
    assert_eq!(one.offset, Some(1));
    assert_eq!(one.note("offset", 1), None);
    assert_eq!(one.note("generation", 2).unwrap().generation, Some(2));
}

#[test]
fn unknown_method_returns_method_not_found() {
    let mut h = make_handler();
    assert_eq!(code(&mut h, "frobnicate", obj(vec![]), &make_ctx(None)), -32601);
}

#[test]
fn capabilities_no_longer_advertises_legacy_methods() {
    assert_eq!(GoalHandler::new().capabilities(), Json::Obj(vec![]));
}

#[test]
fn legacy_alias_still_works() {
    let mut h = make_handler();
    let started = start_goal(&mut h, &make_ctx(Some("s")), "s", "legacy");
    assert_eq!(text(&started, &["status"]), "active");
}

#[test]
fn neutral_capability_shape() {
    let caps = neutral_goal_capability();
    assert_eq!(at(&caps, &["version"]), Some(&Json::Int(1)));
    assert_eq!(text(&caps, &["controlMethod"]), "_session/goal");
    assert_eq!(
        at(&caps, &["actions"]),
        Some(&Json::Arr(
            ["set", "pause", "resume", "clear", "edit", "editBudget"]
                .iter()
                .map(|a| s(a))
                .collect()
        ))
    );
}

#[test]
fn session_control_set_returns_neutral_snapshot() {
    let mut h = make_handler();
    let result = value(
        &mut h,
        "session_control",
        control(
            "set",
            vec![("objective", s("fix login")), ("tokenBudget", Json::Int(5000))],
        ),
        &make_ctx(Some("s")),
    );
    let goal = at(&result, &["goal"]).unwrap();
    assert_eq!(text(goal, &["status"]), "active");
    assert_eq!(text(goal, &["objective"]), "fix login");
    assert_eq!(at(goal, &["tokenBudget"]), Some(&Json::Int(5000)));
    assert_eq!(text(goal, &["controlMethod"]), "_session/goal");
    assert!(goal.get("createdAt").unwrap().as_i64().unwrap() > 1_000_000_000_000);
    assert!(goal.get("updatedAt").unwrap().as_i64().unwrap() > 1_000_000_000_000);
    assert!(goal.get("goalId").is_none());
    assert!(goal.get("id").is_none());
}

#[test]
fn session_control_set_rejects_empty_objective() {
    let mut h = make_handler();
    let ctx = make_ctx(Some("s"));
    let p = control("set", vec![("objective", s("  "))]);
    assert_eq!(code(&mut h, "session_control", p, &ctx), -32602);
    let p = control("set", vec![]);
    assert_eq!(code(&mut h, "session_control", p, &ctx), -32602);
}

#[test]
fn session_control_set_rejects_invalid_token_budget() {
    let mut h = make_handler();
    let ctx = make_ctx(Some("s"));
    for invalid in [Json::Int(0), Json::Int(-1), s("100")] {
        let p = control(
            "set",
            vec![("objective", s("valid objective")), ("tokenBudget", invalid)],
        );
        assert_eq!(code(&mut h, "session_control", p, &ctx), -32602);
    }
}

#[test]
fn session_control_pause_resume_clear_cycle() {
    let mut h = make_handler();
    let ctx = make_ctx(Some("s"));
    let set = |o: &str| control("set", vec![("objective", s(o))]);
    value(&mut h, "session_control", set("work"), &ctx);

    let paused = value(&mut h, "session_control", control("pause", vec![]), &ctx);
    assert_eq!(text(&paused, &["goal", "status"]), "paused");

    let resumed = value(&mut h, "session_control", control("resume", vec![]), &ctx);
    assert_eq!(text(&resumed, &["goal", "status"]), "active");

    let cleared = value(&mut h, "session_control", control("clear", vec![]), &ctx);
    assert_eq!(at(&cleared, &["cleared"]), Some(&Json::Bool(true)));

    value(&mut h, "session_control", set("again"), &ctx);
    let cleared_again = value(&mut h, "session_control", control("clear", vec![]), &ctx);
    assert_eq!(at(&cleared_again, &["cleared"]), Some(&Json::Bool(true)));
    let nothing = value(&mut h, "session_control", control("clear", vec![]), &ctx);
    assert_eq!(at(&nothing, &["cleared"]), Some(&Json::Bool(false)));
}

#[test]
fn session_control_rejects_unknown_action() {
    let mut h = make_handler();
    let ctx = make_ctx(Some("s"));
    for bad in ["edit", "show", "cancel", "frobnicate"] {
        let p = control(bad, vec![]);
        assert_eq!(code(&mut h, "session_control", p, &ctx), -32602, "action={bad}");
    }
}

#[test]
fn session_control_requires_session_id() {
    let mut h = make_handler();
    let p = obj(vec![("action", s("set")), ("objective", s("x"))]);
    assert_eq!(code(&mut h, "session_control", p, &make_ctx(None)), -32602);
}

#[test]
fn session_control_maps_limited_status() {
    let mut h = make_handler();
    let ctx = make_ctx(Some("s"));
    value(
        &mut h,
        "session_control",
        control("set", vec![("objective", s("work"))]),
        &ctx,
    );
    let mut svc = h.take_service();
    let g = svc.show("s").unwrap();
    svc.store
        .mark_usage_limited("s", &g.goal_id, "provider quota", NOW)
        .unwrap();
    h.put_service(svc);

    assert!(ask(&mut h, "session_control", control("pause", vec![]), &ctx).is_err());
    let resumed = value(&mut h, "session_control", control("resume", vec![]), &ctx);
    assert_eq!(text(&resumed, &["goal", "status"]), "active");

    assert_eq!(neutral_status(GoalStatus::UsageLimited), "limited");
    assert_eq!(neutral_status(GoalStatus::BudgetLimited), "limited");
    assert_eq!(neutral_status(GoalStatus::Blocked), "blocked");
    assert_eq!(neutral_status(GoalStatus::Complete), "complete");
}

#[test]
fn session_control_no_principal_forbidden() {
    let mut h = make_handler();
    let p = control("set", vec![("objective", s("x"))]);
    assert_eq!(
        code(&mut h, "session_control", p, &make_ctx_no_principal(Some("s"))),
        -32002
    );
}

#[test]
fn session_control_edits_in_place() {
    let mut h = make_handler();
    let ctx = make_ctx(Some("s"));
    let set = control("set", vec![("objective", s("work")), ("tokenBudget", Json::Int(10))]);
    value(&mut h, "session_control", set, &ctx);
    let edited = value(
        &mut h,
        "session_control",
        control("edit", vec![("objective", s("other work"))]),
        &ctx,
    );
    assert_eq!(text(&edited, &["goal", "objective"]), "other work");
    assert_eq!(at(&edited, &["goal", "objectiveRevision"]), Some(&Json::Int(1)));
    let rebudgeted = value(
        &mut h,
        "session_control",
        control("editBudget", vec![("tokenBudget", Json::Int(99))]),
        &ctx,
    );
    assert_eq!(at(&rebudgeted, &["goal", "tokenBudget"]), Some(&Json::Int(99)));
    assert_eq!(at(&rebudgeted, &["resumeHint"]), Some(&Json::Bool(false)));
    let p = control("editBudget", vec![]);
    assert_eq!(code(&mut h, "session_control", p, &ctx), -32602);
}

fn snapshot_goal() -> Goal {
    Goal {
        thread_id: "t1".into(),
        goal_id: "secret-id".into(),
        objective: "fix login".into(),
        status: GoalStatus::UsageLimited,
        objective_revision: 0,
        iteration_count: 0,
        token_budget: Some(4000),
        tokens_used: 4200,
        time_used_seconds: 33,
        verify_command: None,
        status_reason: Some("provider quota exhausted".into()),
        created_at_ms: 1_700_000_000_123,
        updated_at_ms: 1_700_000_999_456,
        objective_file: false,
    }
}

#[test]
fn publish_neutral_goal_meta_emits_session_info_with_goal() {
    assert_eq!(neutral_meta(None), Json::Null);

    let meta = neutral_meta(Some(&snapshot_goal()));
    assert_eq!(text(&meta, &["status"]), "limited");
    assert_eq!(text(&meta, &["objective"]), "fix login");
    assert_eq!(meta.get("createdAt").unwrap().as_i64(), Some(1_700_000_000_123));
    assert_eq!(meta.get("updatedAt").unwrap().as_i64(), Some(1_700_000_999_456));
    assert_eq!(at(&meta, &["tokenBudget"]), Some(&Json::Int(4000)));
    assert_eq!(at(&meta, &["tokensUsed"]), Some(&Json::Int(4200)));
    assert_eq!(at(&meta, &["timeUsedSeconds"]), Some(&Json::Int(33)));
    assert_eq!(text(&meta, &["controlMethod"]), "_session/goal");
    assert_eq!(text(&meta, &["statusReason"]), "provider quota exhausted");
    assert!(meta.get("goalId").is_none() && meta.get("id").is_none());
}

#[test]
fn session_control_resolves_file_objective_in_neutral_snapshot() {
    let mut h = GoalHandler::new();
    h.bind_store(GoalStore::new().with_goals_dir("goals"));
    let objective = "目标".repeat(2500);
    let p = obj(vec![
        ("sessionId", s("long")),
        ("action", s("set")),
        ("objective", s(&objective)),
    ]);
    let result = value(&mut h, "session_control", p, &make_ctx(Some("long")));
    assert_eq!(text(&result, &["goal", "objective"]), objective);
    assert!(at(&result, &["goal", "objectiveFile"]).is_none());
}

#[test]
fn state_persists_across_handler_rebuild() {
    let mut h = make_handler();
    let ctx = make_ctx(Some("s"));
    let started = start_goal(&mut h, &ctx, "s", "T");
    let id = text(&started, &["id"]).to_string();
    value(&mut h, "pause", obj(vec![("id", s(&id))]), &ctx);

    let mut handler2 = GoalHandler::new();
    handler2.bind_store(h.take_service().store);
    let goal = value(&mut handler2, "get", obj(vec![("id", s(&id))]), &ctx);
    assert_eq!(text(&goal, &["status"]), "paused");
}

#[test]
fn status_projection_matrix() {
    assert_eq!(project_status(GoalStatus::Active), WireStatus::Active);
    assert_eq!(project_status(GoalStatus::Paused), WireStatus::Paused);
    assert_eq!(project_status(GoalStatus::UsageLimited), WireStatus::Paused);
    assert_eq!(project_status(GoalStatus::Blocked), WireStatus::Failed);
    assert_eq!(project_status(GoalStatus::BudgetLimited), WireStatus::Failed);
    assert_eq!(project_status(GoalStatus::Complete), WireStatus::Completed);
}

#[test]
fn goal_wire_shape_is_camel_case() {
    let g = Goal {
        thread_id: "t1".into(),
        goal_id: "g1".into(),
        objective: "Fix the login bug\nmore context".into(),
        status: GoalStatus::Active,
        objective_revision: 0,
        iteration_count: 0,
        token_budget: Some(1000),
        tokens_used: 100,
        time_used_seconds: 42,
        verify_command: None,
        status_reason: None,
        created_at_ms: 0,
        updated_at_ms: 0,
        objective_file: false,
    };
    let projected = project_goal(&g, "now");
    assert_eq!(projected.title, "Fix the login bug");
    let v = goal_json(&g, None, "now", false);
    assert!(v.get("sessionId").is_some() || v.get("sessionIds").is_some());
    assert!(v.get("created_at").is_none());
    assert_eq!(text(&v, &["createdAt"]), "1970-01-01T00:00:00.000Z");
    assert_eq!(text(&v, &["title"]), "Fix the login bug");
    assert_eq!(text(&v, &["metadata", "threadId"]), "t1");
    assert_eq!(at(&v, &["metadata", "tokenBudget"]), Some(&Json::Int(1000)));
    assert!(v.get("steps").is_none());
}

#[test]
fn dates_are_written_with_milliseconds() {
    assert_eq!(ms_to_iso(1_700_000_000_123, "now"), "2023-11-14T22:13:20.123Z");
    assert_eq!(ms_to_iso(-1, "now"), "1969-12-31T23:59:59.999Z");
    assert_eq!(ms_to_iso(i64::MAX, "now"), "now");
    assert_eq!(now_iso().len(), "2023-11-14T22:13:20.123Z".len());
}

fn agent() -> GoalHandler {
    let mut h = GoalHandler::new().with_connections();
    h.bind(GoalStore::new());
    h.put_session(
        "s",
        SessionEntry {
            thread_id: "thread-1".into(),
            owner_principal: "test-user".into(),
        },
    );
    h
}

#[test]
fn an_agent_answers_its_owners() {
    let mut h = agent();
    let ctx = make_ctx(Some("s"));
    let set = || control("set", vec![("objective", s("work"))]);
    let reply = ask(&mut h, "session_control", set(), &ctx).unwrap();
    assert!(reply.turn.is_some(), "a first goal goes on at once");
    assert_eq!(h.service().show("thread-1").unwrap().objective, "work");
    let told = h.take_outbox();
    assert_eq!(told.len(), 2);
    assert!(matches!(&told[0], Outbound::Notification { method, .. } if method == "_anureo.dev/goal/updated"));
    assert!(matches!(&told[1], Outbound::SessionGoal { session_id, .. } if session_id == "s"));

    let other = RequestContext {
        principal: "someone".into(),
        ..make_ctx(None)
    };
    assert_eq!(code(&mut h, "session_control", set(), &other), -32002);
    let busy = RequestContext {
        locked: false,
        ..make_ctx(None)
    };
    assert_eq!(code(&mut h, "session_control", set(), &busy), -32603);
    assert_eq!(code(&mut h, "session_control", control("clear", vec![]), &busy), -32603);

    let paused = ask(&mut h, "session_control", control("pause", vec![]), &ctx).unwrap();
    assert!(!paused.kick);
    let resumed = ask(&mut h, "session_control", control("resume", vec![]), &ctx).unwrap();
    assert!(resumed.kick, "a resumed goal goes on");
}

#[test]
fn a_session_answers_to_its_owner() {
    let mut h = agent();
    let other = RequestContext {
        principal: "someone".into(),
        ..make_ctx(Some("s"))
    };
    let p = obj(vec![
        ("title", s("a")),
        ("description", s("b")),
        ("sessionId", s("s")),
    ]);
    assert_eq!(code(&mut h, "start", p, &other), -32002);
    assert!(h.service().show("thread-1").is_none());
    assert!(h.take_outbox().is_empty());
}

#[test]
fn a_session_that_the_agent_does_not_know_is_its_own_thread() {
    let mut h = agent();
    let ctx = make_ctx(None);
    assert_eq!(h.resolve_thread_key("nowhere", "test-user").unwrap(), "nowhere");
    let p = obj(vec![
        ("sessionId", s("nowhere")),
        ("action", s("set")),
        ("objective", s("work")),
    ]);
    ask(&mut h, "session_control", p, &ctx).unwrap();
    assert_eq!(h.service().show("nowhere").unwrap().objective, "work");
}

#[test]
fn without_a_backend_changes_are_internal_errors() {
    let mut h = GoalHandler::new();
    let ctx = make_ctx(None);
    let p = || obj(vec![("id", s("goal-1"))]);
    for method in ["pause", "resume", "cancel"] {
        let e = ask(&mut h, method, p(), &ctx).unwrap_err();
        assert_eq!(e.code, -32603);
        assert_eq!(e.data, Some("goal backend not bound".to_string()));
    }
    assert_eq!(code(&mut h, "get", p(), &ctx), -32003);
}

#[test]
fn a_start_joins_title_and_description() {
    assert_eq!(join_objective("fix", "the build"), "fix: the build");
    assert_eq!(join_objective("fix", "fix"), "fix");
}

#[test]
fn a_start_that_replaces_a_goal_waits() {
    let mut h = agent();
    let ctx = make_ctx(Some("s"));
    start_goal(&mut h, &ctx, "s", "one");
    assert!(!h.service().store().has_continuation_deferral("thread-1"));
    start_goal(&mut h, &ctx, "s", "two");
    assert!(h.service().store().has_continuation_deferral("thread-1"));
    assert_eq!(h.take_outbox().len(), 4);
}

#[test]
fn a_backend_that_is_gone_is_an_internal_error() {
    let ctx = make_ctx(Some("s"));
    let set = || control("set", vec![("objective", s("work"))]);
    let mut h = GoalHandler::new();
    assert_eq!(code(&mut h, "session_control", set(), &ctx), -32603);
    let mut h = agent();
    h.set_db_error(Some("disk full".into()));
    assert_eq!(code(&mut h, "session_control", set(), &ctx), -32603);
    let e = ask(&mut h, "list", obj(vec![]), &ctx).unwrap_err();
    assert_eq!(e.data, Some("disk full".to_string()));
    h.set_db_error(None);
    h.agent_dropped();
    assert_eq!(code(&mut h, "list", obj(vec![]), &ctx), -32603);
    assert_eq!(code(&mut h, "start", obj(vec![("title", s("a")), ("description", s("a"))]), &ctx), -32603);
}

#[test]
fn policy_refuses_before_anything_changes() {
    let mut h = make_handler();
    let denied = RequestContext {
        denied: Some("read only".into()),
        ..make_ctx(Some("s"))
    };
    let e = ask(
        &mut h,
        "session_control",
        control("set", vec![("objective", s("work"))]),
        &denied,
    )
    .unwrap_err();
    assert_eq!(e.code, -32002);
    assert!(h.service().show("s").is_none());
}

#[test]
fn every_connection_is_told_once() {
    let mut r: ConnectionRegistry<u8> = ConnectionRegistry::new();
    assert!(r.is_empty());
    for (id, handle) in [("a", 1), ("b", 2), ("a", 3)] {
        r.insert(AcpConnection {
            id: id.into(),
            handle,
        });
    }
    assert_eq!(r.len(), 2);
    assert_eq!(r.get("a").unwrap().handle, 3);
    let params = obj(vec![("x", Json::Arr(vec![Json::Int(1), Json::Null]))]);
    let out = r.broadcast_extension_notification("m", &params);
    let mut to: Vec<&str> = out.iter().map(|o| o.connection_id.as_str()).collect();
    to.sort();
    assert_eq!(to, vec!["a", "b"]);
    assert!(out.iter().all(|o| o.method == "m" && o.params == params));
    assert_eq!(r.remove("a").unwrap().handle, 3);
    assert!(r.remove("a").is_none());
    assert!(!r.is_empty());
}

#[test]
fn a_retried_start_repeats_the_answer() {
    let mut h = make_handler();
    let ctx = make_ctx(Some("s"));
    let start = |title: &str, description: &str| {
        obj(vec![
            ("title", s(title)),
            ("description", s(description)),
            ("sessionId", s("s")),
            ("idempotencyKey", s("k")),
        ])
    };
    let first = value(&mut h, "start", start("A", "d"), &ctx);
    let again = value(&mut h, "start", start("B", "d2"), &ctx);
    assert_eq!(text(&again, &["title"]), "A: d");
    assert_eq!(text(&again, &["id"]), text(&first, &["id"]));
    assert_eq!(h.service().show("s").unwrap().objective, "A: d");
}

#[test]
fn a_retried_start_shows_the_full_objective() {
    let mut h = GoalHandler::new();
    h.bind_store(GoalStore::new().with_goals_dir("/goals"));
    let ctx = make_ctx(Some("s"));
    let long = "x".repeat(5000);
    let p = || {
        obj(vec![
            ("title", s(&long)),
            ("description", s(&long)),
            ("sessionId", s("s")),
            ("idempotencyKey", s("k")),
        ])
    };
    assert_eq!(
        h.objective_to_keep("start", &p(), &ctx),
        Some(("s".to_string(), long.clone()))
    );
    let first = value(&mut h, "start", p(), &ctx);
    assert_eq!(h.objective_to_keep("start", &p(), &ctx), None, "it is known");
    let again = value(&mut h, "start", p(), &ctx);
    assert_eq!(text(&again, &["title"]), "x".repeat(80));
    assert_eq!(text(&again, &["title"]), text(&first, &["title"]));
}

#[test]
fn only_requests_that_keep_an_objective_need_its_file() {
    let mut h = make_handler();
    let ctx = make_ctx(None);
    let edit = || control("edit", vec![("objective", s("new"))]);
    let set = || control("set", vec![("objective", s(" work "))]);
    assert_eq!(h.objective_to_keep("session_control", &edit(), &ctx), None);
    assert_eq!(
        h.objective_to_keep("session_control", &set(), &ctx),
        Some(("s".to_string(), "work".to_string()))
    );
    value(&mut h, "session_control", set(), &ctx);
    assert_eq!(
        h.objective_to_keep("session_control", &edit(), &ctx),
        Some(("s".to_string(), "new".to_string()))
    );
    let pause = control("pause", vec![("objective", s("new"))]);
    assert_eq!(h.objective_to_keep("session_control", &pause, &ctx), None);
    let denied = RequestContext {
        denied: Some("read only".into()),
        ..make_ctx(None)
    };
    assert_eq!(h.objective_to_keep("session_control", &set(), &denied), None);
    let bad = control("set", vec![("objective", s("work")), ("tokenBudget", Json::Int(0))]);
    assert_eq!(h.objective_to_keep("session_control", &bad, &ctx), None);
    assert_eq!(h.objective_to_keep("list", &set(), &ctx), None);
}
