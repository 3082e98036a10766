use tiphia_core::error::AppError;
use tiphia_core::json::{
    clone_json, find_member, get_member, merge_json_config, remove_entry, set_entry, JsonValue,
};
use tiphia_core::plugins::{
    after_listener, default_plugin_state, effective_plugin_config, listener_order,
    plugin_config_key, plugin_config_patch, plugin_route_gate, plugin_state_enabled,
    plugin_state_key, unwrap_config_envelope, DispatchStep, HookContext, ListenerCandidate,
};

fn text(v: &JsonValue) -> String {
    match v {
        JsonValue::Null => "null".to_owned(),
        JsonValue::Bool(b) => b.to_string(),
        JsonValue::Number(n) => n.clone(),
        JsonValue::Str(s) => format!("{s:?}"),
        JsonValue::Array(items) => format!("[{}]", items.iter().map(text).collect::<Vec<_>>().join(",")),
        JsonValue::Object(es) => format!(
            "{{{}}}",
            es.iter().map(|(k, v)| format!("{k:?}:{}", text(v))).collect::<Vec<_>>().join(",")
        ),
    }
}

fn obj(members: Vec<(&str, JsonValue)>) -> JsonValue {
    JsonValue::Object(members.into_iter().map(|(k, v)| (k.to_owned(), v)).collect())
}

fn s(v: &str) -> JsonValue {
    JsonValue::Str(v.to_owned())
}

#[test]
fn option_keys_name_the_plugin() {
    assert_eq!(plugin_state_key("audit"), "plugin:audit:state");
    assert_eq!(plugin_config_key("audit"), "plugin:audit:config");
}

#[test]
fn default_state_is_disabled() {
    let state = default_plugin_state();
    assert_eq!(text(&state), "{\"enabled\":false}");
    assert!(!plugin_state_enabled(Some(&state)));
    assert!(!plugin_state_enabled(None));
    assert!(plugin_state_enabled(Some(&obj(vec![("enabled", JsonValue::Bool(true))]))));
    assert!(!plugin_state_enabled(Some(&obj(vec![("enabled", s("true"))]))));
}

#[test]
fn merge_is_recursive_on_objects_and_replaces_otherwise() {
    let mut base = obj(vec![
        ("a", JsonValue::Number("1".to_owned())),
        ("nested", obj(vec![("x", JsonValue::Bool(true)), ("y", s("keep"))])),
    ]);
    let patch = obj(vec![
        ("nested", obj(vec![("x", JsonValue::Bool(false))])),
        ("b", s("new")),
    ]);
    merge_json_config(&mut base, patch);
    assert_eq!(text(&base), "{\"a\":1,\"nested\":{\"x\":false,\"y\":\"keep\"},\"b\":\"new\"}");
    let mut base = obj(vec![("a", JsonValue::Null)]);
    merge_json_config(&mut base, JsonValue::Array(vec![]));
    assert_eq!(text(&base), "[]");
}

#[test]
fn stored_config_is_unwrapped_and_merged_over_defaults() {
    let defaults = obj(vec![("title", s("Links")), ("limit", JsonValue::Number("10".to_owned()))]);
    let stored = obj(vec![("config", obj(vec![("limit", JsonValue::Number("3".to_owned()))]))]);
    let patch = plugin_config_patch(Some(stored), &defaults);
    assert_eq!(text(&patch), "{\"limit\":3}");
    let effective = effective_plugin_config(&defaults, patch);
    assert_eq!(text(&effective), "{\"title\":\"Links\",\"limit\":3}");
    let patch = plugin_config_patch(None, &defaults);
    assert_eq!(text(&patch), text(&defaults));
    assert_eq!(text(&unwrap_config_envelope(s("x"))), "\"x\"");
}

#[test]
fn listeners_run_by_priority_then_registration() {
    let c = |enabled: bool, priority: Option<i32>| ListenerCandidate { enabled, priority };
    let candidates = vec![c(true, Some(10)), c(false, Some(1)), c(true, None), c(true, Some(-5)), c(true, Some(10))];
    assert_eq!(listener_order(&candidates), vec![3, 0, 4]);
    assert!(listener_order(&vec![]).is_empty());
}

#[test]
fn dispatch_steps_follow_the_listener() {
    assert!(matches!(after_listener("p", "AppBooting", Ok(()), false), DispatchStep::Continue));
    assert!(matches!(after_listener("p", "AppBooting", Ok(()), true), DispatchStep::Stop));
    match after_listener("audit", "AppBooted", Err(AppError::Forbidden), false) {
        DispatchStep::Fail(AppError::Plugin(m)) => assert_eq!(m, "audit failed on AppBooted: forbidden"),
        other => panic!("unexpected {other:?}"),
    }
    assert_eq!(plugin_route_gate(Ok(true)), Ok(()));
    assert_eq!(plugin_route_gate(Ok(false)), Err(404));
    assert_eq!(plugin_route_gate(Err(AppError::Unauthorized)), Err(500));
}

#[test]
fn hook_context_stops_with_a_reason() {
    let mut ctx = HookContext::default();
    assert!(!ctx.is_stopped());
    assert!(ctx.ensure_not_stopped().is_ok());
    assert!(matches!(ctx.database(), Err(AppError::Plugin(m)) if m == "hook context has no database"));
    ctx.stop("spam".to_owned());
    assert!(ctx.is_stopped());
    assert!(matches!(ctx.ensure_not_stopped(), Err(AppError::Plugin(m)) if m == "spam"));
    let mut ctx = HookContext::with_subject(s("post"));
    ctx.stopped = true;
    assert!(matches!(ctx.ensure_not_stopped(), Err(AppError::Plugin(m)) if m == "hook stopped execution"));
    assert_eq!(ctx.take_subject().map(|v| text(&v)), Some("\"post\"".to_owned()));
    assert!(ctx.take_subject().is_none());
}

#[test]
fn hook_context_meta_is_keyed() {
    let mut ctx = HookContext::new();
    ctx.insert_meta("a".to_owned(), JsonValue::Number("1".to_owned()));
    ctx.insert_meta("b".to_owned(), JsonValue::Bool(true));
    ctx.insert_meta("a".to_owned(), JsonValue::Number("2".to_owned()));
    assert_eq!(ctx.meta.len(), 2);
    assert_eq!(ctx.meta_value("a").map(|v| text(&v)), Some("2".to_owned()));
    assert!(ctx.meta_value("c").is_none());
    ctx.replace_subject(s("new"));
    assert_eq!(ctx.subject.as_ref().map(text), Some("\"new\"".to_owned()));
}

#[test]
fn object_members_read_back_what_was_written() {
    let mut es = vec![("a".to_owned(), s("1")), ("b".to_owned(), s("2"))];
    set_entry(&mut es, "a".to_owned(), s("x"));
    set_entry(&mut es, "c".to_owned(), s("3"));
    let v = JsonValue::Object(es);
    assert_eq!(text(&v), "{\"a\":\"x\",\"b\":\"2\",\"c\":\"3\"}");
    assert_eq!(text(get_member(&v, "a").unwrap()), "\"x\"");
    assert!(get_member(&v, "z").is_none());
    assert!(get_member(&s("a"), "a").is_none());
    assert_eq!(text(&clone_json(&v)), text(&v));
}

#[test]
fn removed_members_are_gone_and_others_stay() {
    let mut es = vec![
        ("a".to_owned(), s("1")),
        ("b".to_owned(), s("2")),
        ("a".to_owned(), s("3")),
    ];
    assert_eq!(find_member(&es, "b"), Some(1));
    let removed = remove_entry(&mut es, "a");
    assert_eq!(text(&removed.unwrap()), "\"1\"");
    assert_eq!(text(&JsonValue::Object(es.iter().map(|(k, v)| (k.clone(), clone_json(v))).collect())), "{\"b\":\"2\"}");
    assert_eq!(find_member(&es, "a"), None);
    assert!(remove_entry(&mut es, "a").is_none());
}
