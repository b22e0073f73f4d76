use brivva::session_log::{strip_secrets, LogLevel, LogValue, SessionLogEmitter};

fn obj(entries: Vec<(&str, LogValue)>) -> LogValue {
    LogValue::Object(entries.into_iter().map(|(k, v)| (k.to_string(), v)).collect())
}

fn text(s: &str) -> LogValue {
    LogValue::Text(s.to_string())
}

fn field<'a>(v: &'a LogValue, key: &str) -> &'a LogValue {
    match v {
        LogValue::Object(entries) => &entries.iter().find(|(k, _)| k == key).expect("field present").1,
        other => panic!("not an object: {:?}", other),
    }
}

fn item(v: &LogValue, i: usize) -> &LogValue {
    match v {
        LogValue::Array(items) => &items[i],
        other => panic!("not an array: {:?}", other),
    }
}

fn is_text(v: &LogValue, s: &str) -> bool {
    matches!(v, LogValue::Text(t) if t == s)
}

#[test]
fn strip_secrets_redacts_nested_secret_fields() {
    let redacted = strip_secrets(&obj(vec![
        ("stream_key", text("abc")),
        ("stats", obj(vec![("fps", LogValue::Number("30".to_string())), ("token", text("jwt"))])),
        ("items", LogValue::Array(vec![obj(vec![("password", text("pw"))])])),
    ]));

    assert!(is_text(field(&redacted, "stream_key"), "[redacted]"));
    assert!(is_text(field(field(&redacted, "stats"), "token"), "[redacted]"));
    assert!(is_text(field(item(field(&redacted, "items"), 0), "password"), "[redacted]"));
    assert!(matches!(field(field(&redacted, "stats"), "fps"), LogValue::Number(n) if n == "30"));
}

#[test]
fn strip_secrets_keeps_plain_values_and_order() {
    let v = obj(vec![
        ("b", LogValue::Bool(true)),
        ("Authorization", text("Bearer x")),
        ("a", LogValue::Null),
        ("rtmp_url", obj(vec![("inner", text("kept?"))])),
    ]);
    match strip_secrets(&v) {
        LogValue::Object(entries) => {
            let keys: Vec<&str> = entries.iter().map(|(k, _)| k.as_str()).collect();
            assert_eq!(keys, vec!["b", "Authorization", "a", "rtmp_url"]);
            assert!(matches!(entries[0].1, LogValue::Bool(true)));
            assert!(is_text(&entries[1].1, "[redacted]"));
            assert!(matches!(entries[2].1, LogValue::Null));
            assert!(is_text(&entries[3].1, "[redacted]"));
        }
        other => panic!("not an object: {:?}", other),
    }
    assert!(is_text(&strip_secrets(&text("token")), "token"));
}

#[test]
fn emitter_ships_only_with_a_session_when_enabled() {
    let e = SessionLogEmitter::new(true, false, Some("s1".to_string()), "L1".to_string());
    let ev = e
        .emit(LogLevel::Warn, "rtmp_restart", Some("restarting".to_string()), &obj(vec![("key", text("k"))]), 42)
        .expect("shipped");
    assert_eq!((ev.session_id.as_str(), ev.live_session_id.as_str(), ev.source), ("s1", "L1", "server-rs"));
    assert_eq!(ev.level, LogLevel::Warn);
    assert_eq!(ev.event, "rtmp_restart");
    assert_eq!(ev.message.as_deref(), Some("restarting"));
    assert!(is_text(field(&ev.fields, "key"), "[redacted]"));
    assert_eq!(ev.ts_ms, 42);

    assert!(e.emit(LogLevel::Debug, "tick", None, &LogValue::Null, 0).is_none());
    let off = SessionLogEmitter::new(false, true, Some("s1".to_string()), "L1".to_string());
    assert!(off.emit(LogLevel::Info, "x", None, &LogValue::Null, 0).is_none());
    let no_session = SessionLogEmitter::new(true, true, None, "L1".to_string());
    assert!(no_session.emit(LogLevel::Info, "x", None, &LogValue::Null, 0).is_none());
    let verbose = SessionLogEmitter::new(true, true, Some("s".to_string()), "L".to_string());
    assert!(verbose.emit(LogLevel::Debug, "tick", None, &LogValue::Null, 0).is_some());
}
