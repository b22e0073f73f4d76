//! Session log shipping: which events are shipped, and which fields are
//! redacted before they leave the server.

use vstd::prelude::*;

use crate::text::{ascii_lower_chars, ascii_lower_seq, chars_of, contains_chars, contains_seq, owned};

verus! {

/// The level of a shipped session-log event.
#[derive(Debug, Clone, Copy, PartialEq, Eq, Structural)]
pub enum LogLevel {
    Info,
    Warn,
    Debug,
}

pub open spec fn level_label(l: LogLevel) -> Seq<char> {
    match l {
        LogLevel::Info => "info"@,
        LogLevel::Warn => "warn"@,
        LogLevel::Debug => "debug"@,
    }
}

impl LogLevel {
    /// The level's name on the wire.
    pub fn as_str(self) -> (s: &'static str)
        ensures
            s@ == level_label(self),
    {
        match self {
            LogLevel::Info => "info",
            LogLevel::Warn => "warn",
            LogLevel::Debug => "debug",
        }
    }
}

/// Ships a live session's log events to the session record.
pub struct SessionLogEmitter {
    enabled: bool,
    verbose: bool,
    session_id: Option<String>,
    live_session_id: String,
}

impl SessionLogEmitter {
    pub closed spec fn is_enabled(&self) -> bool {
        self.enabled
    }

    pub closed spec fn is_verbose(&self) -> bool {
        self.verbose
    }

    pub closed spec fn session(&self) -> Option<Seq<char>> {
        match self.session_id {
            Some(s) => Some(s@),
            None => None,
        }
    }

    pub closed spec fn live_session(&self) -> Seq<char> {
        self.live_session_id@
    }

    pub fn new(enabled: bool, verbose: bool, session_id: Option<String>, live_session_id: String) -> (e: Self)
        ensures
            e.is_enabled() == enabled,
            e.is_verbose() == verbose,
            e.session() == match session_id {
                Some(s) => Some(s@),
                None => None::<Seq<char>>,
            },
            e.live_session() == live_session_id@,
    {
        SessionLogEmitter { enabled, verbose, session_id, live_session_id }
    }

    /// Whether debug events are shipped.
    pub fn verbose(&self) -> (b: bool)
        ensures
            b == self.is_verbose(),
    {
        self.verbose
    }

    /// The session and live-session ids an event at `level` is shipped
    /// under; none when the emitter is off, has no session, or the event
    /// is a debug event of a quiet emitter.
    pub fn shipping_target(&self, level: LogLevel) -> (r: Option<(String, String)>)
        ensures
            match r {
                Some((s, l)) => self.is_enabled() && self.session() == Some(s@) && l@ == self.live_session()
                    && (level == LogLevel::Debug ==> self.is_verbose()),
                None => !self.is_enabled() || self.session() is None || (level == LogLevel::Debug && !self.is_verbose()),
            },
    {
        if level == LogLevel::Debug && !self.verbose {
            return None;
        }
        match &self.session_id {
            None => None,
            Some(s) => if !self.enabled {
                None
            } else {
                Some((owned(s.as_str()), owned(self.live_session_id.as_str())))
            },
        }
    }
}

/// The words that mark a field as secret.
pub open spec fn secret_words() -> Seq<Seq<char>> {
    seq!["token"@, "secret"@, "key"@, "authorization"@, "password"@, "rtmp"@]
}

/// Whether a field name, ASCII-lower-cased, contains a secret word.
pub open spec fn is_secret_name(key: Seq<char>) -> bool {
    exists|k: int| 0 <= k < secret_words().len() && contains_seq(ascii_lower_seq(key), #[trigger] secret_words()[k])
}

/// Whether a log field must be redacted.
pub fn is_secret_key(key: &str) -> (b: bool)
    ensures
        b == is_secret_name(key@),
{
    let lower = ascii_lower_chars(&chars_of(key));
    let words: Vec<&'static str> = vec!["token", "secret", "key", "authorization", "password", "rtmp"];
    let ghost ws = secret_words();
    assert(words@.map_values(|s: &str| s@) =~= ws);
    let mut k: usize = 0;
    while k < words.len()
        invariant
            k <= words@.len(),
            words@.map_values(|s: &str| s@) == ws,
            ws == secret_words(),
            lower@ == ascii_lower_seq(key@),
            forall|j: int| 0 <= j < k ==> !contains_seq(ascii_lower_seq(key@), #[trigger] ws[j]),
        decreases words@.len() - k,
    {
        assert(ws[k as int] == words@[k as int]@);
        if contains_chars(&lower, &chars_of(words[k])) {
            return true;
        }
        k = k + 1;
    }
    false
}

/// A JSON value as a log event's fields hold it; numbers keep their JSON
/// text, and an object keeps its entries in order.
#[derive(Debug)]
pub enum LogValue {
    Null,
    Bool(bool),
    Number(String),
    Text(String),
    Array(Vec<LogValue>),
    Object(Vec<(String, LogValue)>),
}

/// What redaction makes of a value: every object entry whose name is
/// secret holds the text `[redacted]`, at any depth; everything else is
/// kept as it was, in order.
pub open spec fn is_redaction_of(orig: LogValue, res: LogValue) -> bool
    decreases orig, 1int,
{
    match orig {
        LogValue::Null => res is Null,
        LogValue::Bool(b) => res == LogValue::Bool(b),
        LogValue::Number(n) => res matches LogValue::Number(m) && m@ == n@,
        LogValue::Text(t) => res matches LogValue::Text(u) && u@ == t@,
        LogValue::Array(items) => res matches LogValue::Array(out) && items_redacted(items@, out@),
        LogValue::Object(entries) => res matches LogValue::Object(out) && entries_redacted(entries@, out@),
    }
}

/// Each item redacted, in order.
pub open spec fn items_redacted(items: Seq<LogValue>, out: Seq<LogValue>) -> bool
    decreases items, 0int,
{
    if items.len() == 0 {
        out.len() == 0
    } else {
        out.len() == items.len() && items_redacted(items.drop_last(), out.drop_last())
            && is_redaction_of(items.last(), out.last())
    }
}

/// Each entry kept under its name, its value redacted, or replaced by
/// `[redacted]` when the name is secret.
pub open spec fn entries_redacted(entries: Seq<(String, LogValue)>, out: Seq<(String, LogValue)>) -> bool
    decreases entries, 0int,
{
    if entries.len() == 0 {
        out.len() == 0
    } else {
        &&& out.len() == entries.len()
        &&& entries_redacted(entries.drop_last(), out.drop_last())
        &&& out.last().0@ == entries.last().0@
        &&& if is_secret_name(entries.last().0@) {
            out.last().1 matches LogValue::Text(t) && t@ == "[redacted]"@
        } else {
            is_redaction_of(entries.last().1, out.last().1)
        }
    }
}

/// Redacts the secret fields of a log event's fields, at any depth.
pub fn strip_secrets(value: &LogValue) -> (r: LogValue)
    ensures
        is_redaction_of(*value, r),
    decreases value,
{
    match value {
        LogValue::Null => LogValue::Null,
        LogValue::Bool(b) => LogValue::Bool(*b),
        LogValue::Number(n) => LogValue::Number(owned(n.as_str())),
        LogValue::Text(t) => LogValue::Text(owned(t.as_str())),
        LogValue::Array(items) => {
            let mut out: Vec<LogValue> = Vec::new();
            let mut i: usize = 0;
            while i < items.len()
                invariant
                    *value == LogValue::Array(*items),
                    i <= items@.len(),
                    items_redacted(items@.subrange(0, i as int), out@),
                decreases items@.len() - i,
            {
                proof {
                    vstd::std_specs::vec::axiom_vec_index_decreases(*items, i as int);
                    assert(decreases_to!(*value => (*value)->Array_0));
                }
                let item = strip_secrets(&items[i]);
                let ghost before = out@;
                out.push(item);
                proof {
                    let p = items@.subrange(0, i + 1);
                    assert(p.drop_last() =~= items@.subrange(0, i as int));
                    assert(out@.drop_last() =~= before);
                }
                i = i + 1;
            }
            proof {
                assert(items@.subrange(0, items@.len() as int) =~= items@);
            }
            LogValue::Array(out)
        },
        LogValue::Object(entries) => {
            let mut out: Vec<(String, LogValue)> = Vec::new();
            let mut i: usize = 0;
            while i < entries.len()
                invariant
                    *value == LogValue::Object(*entries),
                    i <= entries@.len(),
                    entries_redacted(entries@.subrange(0, i as int), out@),
                decreases entries@.len() - i,
            {
                let key = &entries[i].0;
                let next = if is_secret_key(key.as_str()) {
                    LogValue::Text(owned("[redacted]"))
                } else {
                    proof {
                        vstd::std_specs::vec::axiom_vec_index_decreases(*entries, i as int);
                        assert(decreases_to!(*value => (*value)->Object_0));
                        assert(decreases_to!(entries[i as int] => entries[i as int].1));
                    }
                    strip_secrets(&entries[i].1)
                };
                let ghost before = out@;
                out.push((owned(key.as_str()), next));
                proof {
                    reveal_strlit("[redacted]");
                    let p = entries@.subrange(0, i + 1);
                    assert(p.drop_last() =~= entries@.subrange(0, i as int));
                    assert(out@.drop_last() =~= before);
                }
                i = i + 1;
            }
            proof {
                assert(entries@.subrange(0, entries@.len() as int) =~= entries@);
            }
            LogValue::Object(out)
        },
    }
}

/// One shipped session-log event.
pub struct SessionLogEvent {
    pub session_id: String,
    pub live_session_id: String,
    pub source: &'static str,
    pub level: LogLevel,
    pub event: String,
    pub message: Option<String>,
    pub fields: LogValue,
    pub ts_ms: i64,
}

impl SessionLogEmitter {
    /// The event to ship for a log call, if the emitter ships it: under
    /// the session's ids, from `server-rs`, with its secret fields
    /// redacted.
    pub fn emit(&self, level: LogLevel, event: &str, message: Option<String>, fields: &LogValue, ts_ms: i64) -> (e: Option<SessionLogEvent>)
        ensures
            e is Some <==> (self.is_enabled() && self.session() is Some && (level == LogLevel::Debug ==> self.is_verbose())),
            e matches Some(ev) ==> {
                &&& self.session() == Some(ev.session_id@)
                &&& ev.live_session_id@ == self.live_session()
                &&& ev.source@ == "server-rs"@
                &&& ev.level == level
                &&& ev.event@ == event@
                &&& ev.message == message
                &&& is_redaction_of(*fields, ev.fields)
                &&& ev.ts_ms == ts_ms
            },
    {
        match self.shipping_target(level) {
            None => None,
            Some((session_id, live_session_id)) => Some(SessionLogEvent {
                session_id,
                live_session_id,
                source: "server-rs",
                level,
                event: owned(event),
                message,
                fields: strip_secrets(fields),
                ts_ms,
            }),
        }
    }
}

} // verus!
