use chire::aof::creation_status;
use chire::cleaner::cleaner_out_date;
use chire::protocol::{
    apply, deadline_text, handle_line, parse_request, pong_reply, step, Action, Event, Request,
    EXPIRE_AFTER_NANOS,
};
use chire::store::Store;
use chire::text::{chars_of, debug_quote, decimal_chars, lowercase, string_of};
use chire::types::{render_entry, EntryChire, Moment};
use std::time::Duration;
use tokio::time::Instant;

fn moment(at: u64) -> Moment {
    Moment { at, shown: format!("T{}", at) }
}

fn at_of(s: &Store, key: &str) -> Option<u64> {
    s.get(key).unwrap().expire_at.as_ref().map(|m| m.at)
}

fn sent(actions: &[Action]) -> Vec<String> {
    actions
        .iter()
        .filter_map(|a| match a {
            Action::Send(s) => Some(s.clone()),
            _ => None,
        })
        .collect()
}

fn line(store: &mut Store, text: &str, now: u64) -> Vec<Action> {
    handle_line(store, text, now, &Instant::now())
}

#[test]
fn entry_chire_create_sets_fields() {
    let entry = EntryChire::create("valor".to_string());
    assert_eq!(entry.data, "valor");
    assert!(entry.expire_at.is_none());
}

#[test]
fn cleaner_removes_expired_entries() {
    let now: u64 = 100_000_000_000;
    let mut dic = Store::new();

    let mut expired = EntryChire::create("expirado".to_string());
    expired.set_expiration(moment(now - 1_000_000_000));

    let mut active = EntryChire::create("activo".to_string());
    active.set_expiration(moment(now + 60_000_000_000));

    dic.insert("exp".to_string(), expired);
    dic.insert("act".to_string(), active);

    cleaner_out_date(&mut dic, now);

    assert!(!dic.contains_key("exp"));
    assert!(dic.contains_key("act"));
}

#[test]
fn set_expiration_keeps_data() {
    let mut e = EntryChire::create("v".to_string());
    e.set_expiration(moment(42));
    assert_eq!(e.data, "v");
    assert_eq!(e.expire_at.as_ref().map(|m| m.at), Some(42));
    assert_eq!(e.expire_at.as_ref().map(|m| m.shown.clone()), Some("T42".to_string()));
}

#[test]
fn debug_text_shows_entry_like_the_original() {
    let mut e = EntryChire::create("a \"quoted\"\tvalue".to_string());
    assert_eq!(
        e.debug_text(),
        "EntryChire { data: \"a \\\"quoted\\\"\\tvalue\", expire_at: None }"
    );
    let t = Instant::now();
    e.set_expiration(Moment { at: 5, shown: format!("{:?}", t) });
    assert_eq!(
        e.debug_text(),
        format!("EntryChire {{ data: {:?}, expire_at: {:?} }}", e.data, Some(t))
    );
}

#[test]
fn store_insert_get_remove() {
    let mut s = Store::new();
    assert_eq!(s.len(), 0);
    s.insert("k".to_string(), EntryChire::create("one".to_string()));
    s.insert("k".to_string(), EntryChire::create("two".to_string()));
    assert_eq!(s.len(), 1);
    assert_eq!(s.get("k").unwrap().data, "two");
    assert!(s.get("other").is_none());
    assert!(s.set_expiration("k", moment(7)));
    assert_eq!(at_of(&s, "k"), Some(7));
    assert!(!s.set_expiration("missing", moment(7)));
    let removed = s.remove("k").unwrap();
    assert_eq!(removed.data, "two");
    assert!(s.remove("k").is_none());
    assert!(!s.contains_key("k"));
}

#[test]
fn store_listing_covers_entries() {
    let mut s = Store::new();
    s.insert("a".to_string(), EntryChire::create("1".to_string()));
    s.insert("b".to_string(), EntryChire::create("2".to_string()));
    s.insert("c".to_string(), EntryChire::create("3".to_string()));
    s.remove("b");
    let mut keys: Vec<String> = (0..s.len()).map(|i| s.entry_at(i).0.clone()).collect();
    keys.sort();
    assert_eq!(keys, vec!["a".to_string(), "c".to_string()]);
}

#[test]
fn cleaner_boundary_and_permanent_entries() {
    let mut s = Store::new();
    let mut at = EntryChire::create("at".to_string());
    at.set_expiration(moment(100));
    let mut after = EntryChire::create("after".to_string());
    after.set_expiration(moment(101));
    s.insert("at".to_string(), at);
    s.insert("after".to_string(), after);
    s.insert("forever".to_string(), EntryChire::create("x".to_string()));
    cleaner_out_date(&mut s, 100);
    assert!(!s.contains_key("at"));
    assert!(s.contains_key("after"));
    assert!(s.contains_key("forever"));
    cleaner_out_date(&mut s, 100);
    assert_eq!(s.len(), 2);
    cleaner_out_date(&mut s, u64::MAX);
    assert_eq!(s.len(), 1);
    assert!(s.contains_key("forever"));
}

#[test]
fn cleaner_on_empty_store() {
    let mut s = Store::new();
    cleaner_out_date(&mut s, 5);
    assert_eq!(s.len(), 0);
}

#[test]
fn text_helpers() {
    assert_eq!(chars_of("héllo"), vec!['h', 'é', 'l', 'l', 'o']);
    assert_eq!(string_of(&['a', 'ß', 'c']), "aßc");
    assert_eq!(string_of(&decimal_chars(0)), "0");
    assert_eq!(string_of(&decimal_chars(907)), "907");
    assert_eq!(string_of(&decimal_chars(u64::MAX)), u64::MAX.to_string());
    assert_eq!(lowercase("SeT KeY ÀB"), "set key àb");
    assert_eq!(debug_quote("a\"b\n"), "\"a\\\"b\\n\"");
}

#[test]
fn parse_requests() {
    assert!(matches!(parse_request("set a b"), Request::SetValue { ref key, ref value } if key == "a" && value == "b"));
    assert!(matches!(parse_request("set a   b c"), Request::SetValue { ref key, ref value } if key == "a" && value == "b c"));
    assert!(matches!(parse_request("set a"), Request::SetMalformed));
    assert!(matches!(parse_request("set  a b"), Request::SetMalformed));
    assert!(matches!(parse_request("set a "), Request::SetMalformed));
    assert!(matches!(parse_request("set"), Request::SetMalformed));
    assert!(matches!(parse_request("expire"), Request::Expire { key: None, extra: false }));
    assert!(matches!(parse_request("expire k"), Request::Expire { key: Some(ref k), extra: false } if k == "k"));
    assert!(matches!(parse_request("expire k j"), Request::Expire { key: Some(ref k), extra: true } if k == "k"));
    assert!(matches!(parse_request("get k"), Request::Get { ref key } if key == "k"));
    assert!(matches!(parse_request("get  \tk "), Request::Get { ref key } if key == "k"));
    assert!(matches!(parse_request("get"), Request::KeyMalformed));
    assert!(matches!(parse_request("get a b"), Request::KeyMalformed));
    assert!(matches!(parse_request("del k"), Request::Del { ref key } if key == "k"));
    assert!(matches!(parse_request("del"), Request::KeyMalformed));
    assert!(matches!(parse_request("getall"), Request::GetAll));
    assert!(matches!(parse_request("ping"), Request::Ping));
    assert!(matches!(parse_request("echo hola  mundo"), Request::Echo { ref text } if text == "hola  mundo"));
    assert!(matches!(parse_request("echo"), Request::Echo { ref text } if text.is_empty()));
    assert!(matches!(parse_request("help"), Request::Help));
    assert!(matches!(parse_request("quit"), Request::Quit));
    assert!(matches!(parse_request(""), Request::Unknown));
    assert!(matches!(parse_request("sets a b"), Request::Unknown));
}

#[test]
fn set_then_get_finds_value() {
    let mut s = Store::new();
    let a = line(&mut s, "set clave valor\n", 0);
    assert!(matches!(&a[0], Action::AppendLog(e) if e.data == "valor" && e.expire_at.is_none()));
    assert_eq!(sent(&a), vec!["Ok, insetado correctametne\n"]);
    let a = line(&mut s, "get clave\n", 5);
    assert_eq!(
        sent(&a),
        vec!["objeto encontrado EntryChire { data: \"valor\", expire_at: None }\n"]
    );
}

#[test]
fn lines_are_trimmed_and_lowercased() {
    let mut s = Store::new();
    line(&mut s, "  SET Clave VaLoR  \r\n", 0);
    assert_eq!(s.get("clave").unwrap().data, "valor");
    assert!(s.get("Clave").is_none());
    let a = line(&mut s, "GET CLAVE", 0);
    assert_eq!(
        sent(&a),
        vec!["objeto encontrado EntryChire { data: \"valor\", expire_at: None }\n"]
    );
}

#[test]
fn set_overwrites_and_clears_expiry() {
    let mut s = Store::new();
    line(&mut s, "set k uno", 0);
    line(&mut s, "expire k", 10);
    assert_eq!(at_of(&s, "k"), Some(10 + EXPIRE_AFTER_NANOS));
    line(&mut s, "set k dos", 20);
    let e = s.get("k").unwrap();
    assert_eq!(e.data, "dos");
    assert!(e.expire_at.is_none());
}

#[test]
fn get_missing_and_malformed() {
    let mut s = Store::new();
    assert_eq!(
        sent(&line(&mut s, "get nada", 0)),
        vec!["objeto no encontrado, parametro usado: None\n"]
    );
    assert_eq!(sent(&line(&mut s, "get", 0)), vec!["parametros errones \n"]);
    assert_eq!(sent(&line(&mut s, "get a b", 0)), vec!["parametros errones \n"]);
    assert_eq!(sent(&line(&mut s, "set soloclave", 0)), vec!["Error en los parametros \n"]);
}

#[test]
fn del_answers_one_then_zero() {
    let mut s = Store::new();
    line(&mut s, "set k v", 0);
    assert_eq!(sent(&line(&mut s, "del k", 0)), vec!["1\n"]);
    assert_eq!(sent(&line(&mut s, "del k", 0)), vec!["0\n"]);
    assert_eq!(
        sent(&line(&mut s, "get k", 0)),
        vec!["objeto no encontrado, parametro usado: None\n"]
    );
    assert_eq!(sent(&line(&mut s, "del", 0)), vec!["parametros errones \n"]);
}

#[test]
fn expire_sets_time_and_cleaner_removes() {
    let mut s = Store::new();
    line(&mut s, "set k v", 0);
    let a = line(&mut s, "expire k", 1_000);
    assert_eq!(sent(&a), vec!["contadoro fijado\n"]);
    assert_eq!(at_of(&s, "k"), Some(20_000_001_000));
    cleaner_out_date(&mut s, 20_000_000_999);
    assert!(s.contains_key("k"));
    cleaner_out_date(&mut s, 20_000_001_000);
    assert!(!s.contains_key("k"));
}

#[test]
fn expire_edge_cases() {
    let mut s = Store::new();
    line(&mut s, "set k v", 0);
    // A missing key: the reply is sent, nothing changes.
    assert_eq!(sent(&line(&mut s, "expire nada", 0)), vec!["contadoro fijado\n"]);
    assert!(!s.contains_key("nada"));
    assert_eq!(s.len(), 1);
    // An extra word: a warning, but the expiry is still set.
    let a = line(&mut s, "expire k otra", 5);
    assert_eq!(sent(&a), vec!["Error en los parametros\n", "contadoro fijado\n"]);
    assert_eq!(at_of(&s, "k"), Some(5 + EXPIRE_AFTER_NANOS));
    // No key at all: a warning, then the session stops.
    let a = line(&mut s, "expire", 0);
    assert_eq!(sent(&a), vec!["Error en los parametros\n"]);
    assert!(matches!(a.last(), Some(Action::Abort)));
    // A time that cannot be counted forward stops the session too.
    let a = line(&mut s, "expire k", u64::MAX);
    assert!(matches!(a.last(), Some(Action::Abort)));
    assert_eq!(at_of(&s, "k"), Some(5 + EXPIRE_AFTER_NANOS));
}

#[test]
fn getall_lists_every_entry_once() {
    let mut s = Store::new();
    assert!(line(&mut s, "getall", 0).is_empty());
    line(&mut s, "set a 1", 0);
    line(&mut s, "set b 2", 0);
    line(&mut s, "set a 3", 0);
    let mut lines = sent(&line(&mut s, "getall", 0));
    lines.sort();
    assert_eq!(
        lines,
        vec![
            "Objeto -> key: a, value: EntryChire { data: \"3\", expire_at: None }\n",
            "Objeto -> key: b, value: EntryChire { data: \"2\", expire_at: None }\n",
        ]
    );
}

#[test]
fn other_commands() {
    let mut s = Store::new();
    assert!(matches!(line(&mut s, "ping", 0).as_slice(), [Action::CreateDb]));
    assert_eq!(pong_reply(1), "PONG, var: 1\n");
    assert_eq!(pong_reply(0), "PONG, var: 0\n");
    assert_eq!(sent(&line(&mut s, "echo hola", 0)), vec!["hola"]);
    assert_eq!(sent(&line(&mut s, "echo", 0)), vec!["echo sin parametros\n", ""]);
    assert_eq!(
        sent(&line(&mut s, "help", 0)),
        vec!["Commands: PING, ECHO, HELP, QUIT\n"]
    );
    let a = line(&mut s, "quit", 0);
    assert_eq!(sent(&a), vec!["BYE\n"]);
    assert!(matches!(a.last(), Some(Action::Close)));
    assert_eq!(sent(&line(&mut s, "foo bar", 0)), vec!["ERR unknown command\n"]);
    assert_eq!(sent(&line(&mut s, "\n", 0)), vec!["ERR unknown command\n"]);
    assert_eq!(s.len(), 0);
}

#[test]
fn session_events() {
    let mut s = Store::new();
    let origin = Instant::now();
    let a = step(&mut s, &Event::EndOfInput, 0, &origin);
    assert!(matches!(a.as_slice(), [Action::Print(m), Action::Close] if m == "clientes desconectado"));
    let a = step(&mut s, &Event::ReadFailed, 0, &origin);
    assert!(matches!(a.as_slice(), [Action::Print(m), Action::Close] if m == "Error"));
    let a = step(&mut s, &Event::Line("set x y\n".to_string()), 0, &origin);
    assert_eq!(sent(&a), vec!["Ok, insetado correctametne\n"]);
    assert!(s.contains_key("x"));
}

#[test]
fn apply_on_requests_directly() {
    let mut s = Store::new();
    let a = apply(
        &mut s,
        &Request::SetValue { key: "K".to_string(), value: "V".to_string() },
        0,
        &None,
    );
    assert_eq!(sent(&a), vec!["Ok, insetado correctametne\n"]);
    assert_eq!(s.get("K").unwrap().data, "V");
}

#[test]
fn creation_status_codes() {
    assert_eq!(creation_status(true), 1);
    assert_eq!(creation_status(false), 0);
}

#[test]
fn render_entry_text() {
    assert_eq!(
        render_entry("\"x\"", &Some(moment(5))),
        "EntryChire { data: \"x\", expire_at: Some(T5) }"
    );
    assert_eq!(render_entry("q", &None), "EntryChire { data: q, expire_at: None }");
}


#[test]
fn expire_records_the_clock_reading_shown_by_get() {
    let origin = Instant::now();
    let mut s = Store::new();
    handle_line(&mut s, "set k v", 0, &origin);
    let now: u64 = 1_500;
    handle_line(&mut s, "expire k", now, &origin);
    let deadline = origin + Duration::from_nanos(now + EXPIRE_AFTER_NANOS);
    assert_eq!(at_of(&s, "k"), Some(now + EXPIRE_AFTER_NANOS));
    let a = handle_line(&mut s, "get k", now, &origin);
    assert_eq!(
        sent(&a),
        vec![format!(
            "objeto encontrado EntryChire {{ data: \"v\", expire_at: {:?} }}\n",
            Some(deadline)
        )]
    );
    let a = handle_line(&mut s, "getall", now, &origin);
    assert_eq!(
        sent(&a),
        vec![format!(
            "Objeto -> key: k, value: EntryChire {{ data: \"v\", expire_at: {:?} }}\n",
            Some(deadline)
        )]
    );
}

#[test]
fn apply_expire_with_and_without_a_shown_moment() {
    let mut s = Store::new();
    s.insert("k".to_string(), EntryChire::create("v".to_string()));
    let req = Request::Expire { key: Some("k".to_string()), extra: false };
    let a = apply(&mut s, &req, 3, &None);
    assert!(matches!(a.as_slice(), [Action::Abort]));
    assert!(s.get("k").unwrap().expire_at.is_none());
    let a = apply(&mut s, &req, 3, &Some("T".to_string()));
    assert_eq!(sent(&a), vec!["contadoro fijado\n"]);
    let m = s.get("k").unwrap().expire_at.clone().unwrap();
    assert_eq!(m.at, 3 + EXPIRE_AFTER_NANOS);
    assert_eq!(m.shown, "T");
}

#[test]
fn deadline_text_is_the_instant_twenty_seconds_on() {
    let origin = Instant::now();
    assert_eq!(
        deadline_text(&origin, 5),
        Some(format!("{:?}", origin + Duration::from_secs(20) + Duration::from_nanos(5)))
    );
    assert_eq!(deadline_text(&origin, u64::MAX), None);
}
