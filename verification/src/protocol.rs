//! The line protocol that clients speak: how a line becomes a request, what
//! each request does to the store, and what the session does in answer.
//!
//! A session is driven from outside: the caller reads a line (or learns that
//! the input ended or failed), hands it to `step` together with the current
//! time, and carries out the actions it gets back in order.

use vstd::prelude::*;
use crate::store::{Listing, Store};
use crate::text::{
    chars_of, decimal, decimal_chars, first_words, lowercase, lowercase_of, same_chars,
    split_once_space, split_space, string_of, trim, trim_start, trimmed, trimmed_start, words,
};
use crate::clock::{instant_after, instant_after_of, instant_debug, instant_text};
use crate::types::{entry_debug, EntryChire, EntryModel, Moment, MomentModel};
use tokio::time::Instant;

verus! {

/// How long after an `expire` request an entry stops being valid, in
/// nanoseconds (twenty seconds).
pub const EXPIRE_AFTER_NANOS: u64 = 20000000000;

/// A request, as mathematical values.
pub enum RequestModel {
    SetValue { key: Seq<char>, value: Seq<char> },
    SetMalformed,
    Expire { key: Option<Seq<char>>, extra: bool },
    Get { key: Seq<char> },
    Del { key: Seq<char> },
    KeyMalformed,
    GetAll,
    Ping,
    Echo { text: Seq<char> },
    Help,
    Quit,
    Unknown,
}

/// A request read from a client line.
#[derive(Debug)]
pub enum Request {
    /// `set <key> <value>`: store `value` under `key`.
    SetValue { key: String, value: String },
    /// `set` without both a key and a value.
    SetMalformed,
    /// `expire [<key>] ...`: the first word, if any, and whether more
    /// words follow it.
    Expire { key: Option<String>, extra: bool },
    /// `get <key>`.
    Get { key: String },
    /// `del <key>`.
    Del { key: String },
    /// `get` or `del` without exactly one key.
    KeyMalformed,
    /// `getall`.
    GetAll,
    /// `ping`.
    Ping,
    /// `echo <text>`: everything after the first space.
    Echo { text: String },
    /// `help`.
    Help,
    /// `quit`.
    Quit,
    /// Anything else.
    Unknown,
}

impl View for Request {
    type V = RequestModel;

    open spec fn view(&self) -> RequestModel {
        match self {
            Request::SetValue { key, value } => RequestModel::SetValue { key: key@, value: value@ },
            Request::SetMalformed => RequestModel::SetMalformed,
            Request::Expire { key, extra } => RequestModel::Expire {
                key: match key {
                    Some(k) => Some(k@),
                    None => None,
                },
                extra: *extra,
            },
            Request::Get { key } => RequestModel::Get { key: key@ },
            Request::Del { key } => RequestModel::Del { key: key@ },
            Request::KeyMalformed => RequestModel::KeyMalformed,
            Request::GetAll => RequestModel::GetAll,
            Request::Ping => RequestModel::Ping,
            Request::Echo { text } => RequestModel::Echo { text: text@ },
            Request::Help => RequestModel::Help,
            Request::Quit => RequestModel::Quit,
            Request::Unknown => RequestModel::Unknown,
        }
    }
}

/// What the session asks its caller to do, as mathematical values.
pub enum ActionModel {
    Send(Seq<char>),
    AppendLog(EntryModel),
    CreateDb,
    Print(Seq<char>),
    Close,
    Abort,
}

/// What the session asks its caller to do, in order.
#[derive(Debug)]
pub enum Action {
    /// Write this text to the client.
    Send(String),
    /// Append a record of this newly stored entry to the database file.
    AppendLog(EntryChire),
    /// Create the database folder and file, then send `pong_reply` of the
    /// resulting status to the client.
    CreateDb,
    /// Print this line on the server's standard output.
    Print(String),
    /// End the session.
    Close,
    /// Stop the session at once: the request cannot be carried out.
    Abort,
}

impl View for Action {
    type V = ActionModel;

    open spec fn view(&self) -> ActionModel {
        match self {
            Action::Send(s) => ActionModel::Send(s@),
            Action::AppendLog(e) => ActionModel::AppendLog(e@),
            Action::CreateDb => ActionModel::CreateDb,
            Action::Print(s) => ActionModel::Print(s@),
            Action::Close => ActionModel::Close,
            Action::Abort => ActionModel::Abort,
        }
    }
}

/// Something that happened on the client's connection.
#[derive(Debug)]
pub enum Event {
    /// A line was read; it still ends with its line break, if it had one.
    Line(String),
    /// The client closed the connection.
    EndOfInput,
    /// Reading from the client failed.
    ReadFailed,
}

/// The actions of a vector, as mathematical values.
pub open spec fn actions_model(v: Seq<Action>) -> Seq<ActionModel> {
    v.map_values(|a: Action| a@)
}

/// The command word of a line and the rest after the first space.
pub open spec fn command_and_rest(s: Seq<char>) -> (Seq<char>, Seq<char>) {
    match split_space(s) {
        Some(p) => p,
        None => (s, Seq::empty()),
    }
}

/// The request that a trimmed, lower-cased line asks for.
pub open spec fn parse_model(s: Seq<char>) -> RequestModel {
    let (cmd, rest) = command_and_rest(s);
    if cmd == "set"@ {
        match split_space(rest) {
            Some((k, v)) => if trim(k).len() > 0 && trim_start(v).len() > 0 {
                RequestModel::SetValue { key: trim(k), value: trim_start(v) }
            } else {
                RequestModel::SetMalformed
            },
            None => RequestModel::SetMalformed,
        }
    } else if cmd == "expire"@ {
        let w = words(rest);
        RequestModel::Expire {
            key: if w.len() > 0 {
                Some(w[0])
            } else {
                None
            },
            extra: w.len() > 1,
        }
    } else if cmd == "get"@ {
        let w = words(rest);
        if w.len() == 1 {
            RequestModel::Get { key: w[0] }
        } else {
            RequestModel::KeyMalformed
        }
    } else if cmd == "getall"@ {
        RequestModel::GetAll
    } else if cmd == "del"@ {
        let w = words(rest);
        if w.len() == 1 {
            RequestModel::Del { key: w[0] }
        } else {
            RequestModel::KeyMalformed
        }
    } else if cmd == "ping"@ {
        RequestModel::Ping
    } else if cmd == "echo"@ {
        RequestModel::Echo { text: rest }
    } else if cmd == "help"@ {
        RequestModel::Help
    } else if cmd == "quit"@ {
        RequestModel::Quit
    } else {
        RequestModel::Unknown
    }
}

/// The request that a raw client line asks for: the line is trimmed, then
/// lower-cased, then read.
pub open spec fn request_of_line(raw: Seq<char>) -> RequestModel {
    parse_model(lowercase_of(trim(raw)))
}

/// The expiry time that an `expire` request at time `now` sets, if it can
/// be counted.
pub open spec fn expiry_time(now: u64) -> Option<u64> {
    if now + EXPIRE_AFTER_NANOS <= u64::MAX {
        Some((now + EXPIRE_AFTER_NANOS) as u64)
    } else {
        None
    }
}

/// The moment an `expire` request at time `now` sets, given the text that
/// `{:?}` shows for it (`None` when the clock cannot represent it).
pub open spec fn deadline(now: u64, shown: Option<Seq<char>>) -> Option<MomentModel> {
    match (expiry_time(now), shown) {
        (Some(at), Some(text)) => Some(MomentModel { at, shown: text }),
        _ => None,
    }
}

/// How `{:?}` shows the instant that an `expire` at time `now` sets on the
/// clock that started at `origin`: twenty seconds after `now`, if that can be
/// counted and represented.
pub open spec fn deadline_shown(origin: Instant, now: u64) -> Option<Seq<char>> {
    match expiry_time(now) {
        Some(at) => match instant_after_of(origin, at) {
            Some(t) => Some(instant_text(t)),
            None => None,
        },
        None => None,
    }
}

/// The shown moment a request needs: the deadline for `expire`, nothing for
/// every other request.
pub open spec fn shown_for(req: RequestModel, origin: Instant, now: u64) -> Option<Seq<char>> {
    if req is Expire {
        deadline_shown(origin, now)
    } else {
        None
    }
}

/// The characters of an optional string.
pub open spec fn shown_model(o: Option<String>) -> Option<Seq<char>> {
    match o {
        Some(s) => Some(s@),
        None => None,
    }
}

/// The store after a request at time `now`; `shown` is how `{:?}` shows the
/// moment that an `expire` sets.
pub open spec fn next_store(
    store: Map<Seq<char>, EntryModel>,
    req: RequestModel,
    now: u64,
    shown: Option<Seq<char>>,
) -> Map<Seq<char>, EntryModel> {
    match req {
        RequestModel::SetValue { key, value } => store.insert(
            key,
            EntryModel { data: value, expire_at: None },
        ),
        RequestModel::Expire { key: Some(k), .. } => if store.contains_key(k) && deadline(
            now,
            shown,
        ) is Some {
            store.insert(k, EntryModel { data: store[k].data, expire_at: deadline(now, shown) })
        } else {
            store
        },
        RequestModel::Del { key } => store.remove(key),
        _ => store,
    }
}

/// The reply to a `get` that found `e`.
pub open spec fn found_text(e: EntryModel) -> Seq<char> {
    "objeto encontrado "@ + entry_debug(e) + "\n"@
}

/// The line that `getall` sends for key `k` and entry `e`.
pub open spec fn listing_text(k: Seq<char>, e: EntryModel) -> Seq<char> {
    "Objeto -> key: "@ + k + ", value: "@ + entry_debug(e) + "\n"@
}

/// The lines that `getall` sends for the first `n` entries of `listing`.
pub open spec fn listing_actions(listing: Listing, n: int) -> Seq<ActionModel> {
    listing.take(n).map_values(
        |p: (Seq<char>, EntryModel)| ActionModel::Send(listing_text(p.0, p.1)),
    )
}

/// What the session does in answer to a request, given the store before it
/// and the store's listing; `shown` is as for `next_store`.
pub open spec fn response(
    store: Map<Seq<char>, EntryModel>,
    listing: Listing,
    req: RequestModel,
    now: u64,
    shown: Option<Seq<char>>,
) -> Seq<ActionModel> {
    match req {
        RequestModel::SetValue { key, value } => seq![
            ActionModel::AppendLog(EntryModel { data: value, expire_at: None }),
            ActionModel::Send("Ok, insetado correctametne\n"@),
        ],
        RequestModel::SetMalformed => seq![ActionModel::Send("Error en los parametros \n"@)],
        RequestModel::Expire { key, extra } => {
            let warning = if key is None || extra {
                seq![ActionModel::Send("Error en los parametros\n"@)]
            } else {
                Seq::empty()
            };
            match key {
                None => warning.push(ActionModel::Abort),
                Some(k) => if store.contains_key(k) && deadline(now, shown) is None {
                    warning.push(ActionModel::Abort)
                } else {
                    warning.push(ActionModel::Send("contadoro fijado\n"@))
                },
            }
        },
        RequestModel::Get { key } => if store.contains_key(key) {
            seq![ActionModel::Send(found_text(store[key]))]
        } else {
            seq![ActionModel::Send("objeto no encontrado, parametro usado: None\n"@)]
        },
        RequestModel::KeyMalformed => seq![ActionModel::Send("parametros errones \n"@)],
        RequestModel::GetAll => listing_actions(listing, listing.len() as int),
        RequestModel::Del { key } => if store.contains_key(key) {
            seq![ActionModel::Send("1\n"@)]
        } else {
            seq![ActionModel::Send("0\n"@)]
        },
        RequestModel::Ping => seq![ActionModel::CreateDb],
        RequestModel::Echo { text } => if text.len() == 0 {
            seq![ActionModel::Send("echo sin parametros\n"@), ActionModel::Send(text)]
        } else {
            seq![ActionModel::Send(text)]
        },
        RequestModel::Help => seq![ActionModel::Send("Commands: PING, ECHO, HELP, QUIT\n"@)],
        RequestModel::Quit => seq![ActionModel::Send("BYE\n"@), ActionModel::Close],
        RequestModel::Unknown => seq![ActionModel::Send("ERR unknown command\n"@)],
    }
}

/// What `ping` sends once the database has been set up with the given
/// status.
pub open spec fn pong_text(status: u8) -> Seq<char> {
    "PONG, var: "@ + decimal(status as nat) + "\n"@
}

/// A string holding the characters of a literal.
fn text(s: &str) -> (r: String)
    ensures
        r@ == s@,
{
    String::from_str(s)
}

/// Whether the characters `v` spell the word `w`.
fn is_word(v: &Vec<char>, w: &str) -> (r: bool)
    ensures
        r == (v@ == w@),
{
    let wc = chars_of(w);
    same_chars(v.as_slice(), wc.as_slice())
}

/// Reads the request that a trimmed, lower-cased line asks for.
pub fn parse_request(line: &str) -> (r: Request)
    ensures
        r@ == parse_model(line@),
{
    let chars = chars_of(line);
    let (cmd, rest) = match split_once_space(chars.as_slice()) {
        Some((a, b)) => (a, b),
        None => (chars, Vec::new()),
    };
    assert(rest@ == command_and_rest(line@).1 && cmd@ == command_and_rest(line@).0);
    if is_word(&cmd, "set") {
        match split_once_space(rest.as_slice()) {
            Some((k, v)) => {
                let key = trimmed(k.as_slice());
                let value = trimmed_start(v.as_slice());
                if key.len() > 0 && value.len() > 0 {
                    Request::SetValue {
                        key: string_of(key.as_slice()),
                        value: string_of(value.as_slice()),
                    }
                } else {
                    Request::SetMalformed
                }
            },
            None => Request::SetMalformed,
        }
    } else if is_word(&cmd, "expire") {
        let (first, extra) = first_words(rest.as_slice());
        let key = match first {
            Some(w) => Some(string_of(w.as_slice())),
            None => None,
        };
        Request::Expire { key, extra }
    } else if is_word(&cmd, "get") {
        match first_words(rest.as_slice()) {
            (Some(w), false) => Request::Get { key: string_of(w.as_slice()) },
            _ => Request::KeyMalformed,
        }
    } else if is_word(&cmd, "getall") {
        Request::GetAll
    } else if is_word(&cmd, "del") {
        match first_words(rest.as_slice()) {
            (Some(w), false) => Request::Del { key: string_of(w.as_slice()) },
            _ => Request::KeyMalformed,
        }
    } else if is_word(&cmd, "ping") {
        Request::Ping
    } else if is_word(&cmd, "echo") {
        Request::Echo { text: string_of(rest.as_slice()) }
    } else if is_word(&cmd, "help") {
        Request::Help
    } else if is_word(&cmd, "quit") {
        Request::Quit
    } else {
        Request::Unknown
    }
}

/// The text that `getall` sends for one entry.
fn listing_line(key: &String, e: &EntryChire) -> (r: String)
    ensures
        r@ == listing_text(key@, e@),
{
    let mut r = text("Objeto -> key: ");
    r.append(key.as_str());
    r.append(", value: ");
    let d = e.debug_text();
    r.append(d.as_str());
    r.append("\n");
    r
}

/// Carries out a request on the store at time `now` and returns what the
/// session must do in answer. `shown` is how `{:?}` shows the moment that an
/// `expire` would set, or `None` when the clock cannot represent it.
pub fn apply(store: &mut Store, req: &Request, now: u64, shown: &Option<String>) -> (actions: Vec<
    Action,
>)
    requires
        old(store).wf(),
    ensures
        final(store).wf(),
        final(store)@ == next_store(old(store)@, req@, now, shown_model(*shown)),
        actions_model(actions@) == response(
            old(store)@,
            old(store).listing(),
            req@,
            now,
            shown_model(*shown),
        ),
{
    let mut out: Vec<Action> = Vec::new();
    match req {
        Request::SetValue { key, value } => {
            let entry = EntryChire::create(value.clone());
            let logged = entry.duplicate();
            store.insert(key.clone(), entry);
            out.push(Action::AppendLog(logged));
            out.push(Action::Send(text("Ok, insetado correctametne\n")));
        },
        Request::SetMalformed => {
            out.push(Action::Send(text("Error en los parametros \n")));
        },
        Request::Expire { key, extra } => {
            if key.is_none() || *extra {
                out.push(Action::Send(text("Error en los parametros\n")));
            }
            match key {
                None => {
                    out.push(Action::Abort);
                },
                Some(k) => {
                    if store.contains_key(k.as_str()) {
                        match (now.checked_add(EXPIRE_AFTER_NANOS), shown) {
                            (Some(t), Some(text_shown)) => {
                                let m = Moment { at: t, shown: text_shown.clone() };
                                store.set_expiration(k.as_str(), m);
                                out.push(Action::Send(text("contadoro fijado\n")));
                            },
                            _ => {
                                out.push(Action::Abort);
                            },
                        }
                    } else {
                        out.push(Action::Send(text("contadoro fijado\n")));
                    }
                },
            }
        },
        Request::Get { key } => {
            match store.get(key.as_str()) {
                Some(e) => {
                    let mut r = text("objeto encontrado ");
                    let d = e.debug_text();
                    r.append(d.as_str());
                    r.append("\n");
                    out.push(Action::Send(r));
                },
                None => {
                    out.push(Action::Send(text("objeto no encontrado, parametro usado: None\n")));
                },
            }
        },
        Request::KeyMalformed => {
            out.push(Action::Send(text("parametros errones \n")));
        },
        Request::GetAll => {
            let n = store.len();
            let mut i: usize = 0;
            while i < n
                invariant
                    store.wf(),
                    store@ == old(store)@,
                    store.listing() == old(store).listing(),
                    n == store.listing().len(),
                    i <= n,
                    actions_model(out@) == listing_actions(store.listing(), i as int),
                decreases n - i,
            {
                let (k, e) = store.entry_at(i);
                let ghost prev = out@;
                out.push(Action::Send(listing_line(k, e)));
                proof {
                    let l = store.listing();
                    let want = listing_actions(l, i + 1);
                    assert(actions_model(prev).len() == prev.len());
                    assert(listing_actions(l, i as int).len() == i);
                    assert(prev.len() == i);
                    assert(out@ == prev.push(out@[i as int]));
                    assert forall|j: int| 0 <= j < i + 1 implies #[trigger] actions_model(out@)[j]
                        == want[j] by {
                        if j < i {
                            assert(out@[j] == prev[j]);
                            assert(actions_model(prev)[j] == listing_actions(l, i as int)[j]);
                        }
                    }
                    assert(actions_model(out@) =~= want);
                }
                i = i + 1;
            }
            assert(store.listing().take(n as int) =~= store.listing());
        },
        Request::Del { key } => {
            match store.remove(key.as_str()) {
                Some(_) => {
                    out.push(Action::Send(text("1\n")));
                },
                None => {
                    out.push(Action::Send(text("0\n")));
                },
            }
        },
        Request::Ping => {
            out.push(Action::CreateDb);
        },
        Request::Echo { text: t } => {
            if t.as_str().is_empty() {
                out.push(Action::Send(text("echo sin parametros\n")));
            }
            out.push(Action::Send(t.clone()));
        },
        Request::Help => {
            out.push(Action::Send(text("Commands: PING, ECHO, HELP, QUIT\n")));
        },
        Request::Quit => {
            out.push(Action::Send(text("BYE\n")));
            out.push(Action::Close);
        },
        Request::Unknown => {
            out.push(Action::Send(text("ERR unknown command\n")));
        },
    }
    assert(actions_model(out@) =~= response(
        old(store)@,
        old(store).listing(),
        req@,
        now,
        shown_model(*shown),
    ));
    out
}

/// How `{:?}` shows the moment an `expire` at time `now` sets: the instant
/// `now` plus twenty seconds on the clock that started at `origin`, or
/// `None` when that instant cannot be counted or represented.
pub fn deadline_text(origin: &Instant, now: u64) -> (r: Option<String>)
    ensures
        shown_model(r) == deadline_shown(*origin, now),
{
    match now.checked_add(EXPIRE_AFTER_NANOS) {
        Some(at) => match instant_after(origin, at) {
            Some(t) => Some(instant_debug(&t)),
            None => None,
        },
        None => None,
    }
}

/// Reads a raw client line and carries out the request it asks for, at time
/// `now` (nanoseconds since `origin`).
pub fn handle_line(store: &mut Store, raw: &str, now: u64, origin: &Instant) -> (actions: Vec<
    Action,
>)
    requires
        old(store).wf(),
    ensures
        final(store).wf(),
        final(store)@ == next_store(
            old(store)@,
            request_of_line(raw@),
            now,
            shown_for(request_of_line(raw@), *origin, now),
        ),
        actions_model(actions@) == response(
            old(store)@,
            old(store).listing(),
            request_of_line(raw@),
            now,
            shown_for(request_of_line(raw@), *origin, now),
        ),
{
    let chars = chars_of(raw);
    let line = string_of(trimmed(chars.as_slice()).as_slice());
    let lowered = lowercase(line.as_str());
    let req = parse_request(lowered.as_str());
    let shown = match req {
        Request::Expire { .. } => deadline_text(origin, now),
        _ => None,
    };
    apply(store, &req, now, &shown)
}

/// Advances a client session by one event at time `now` (nanoseconds since
/// `origin`).
pub fn step(store: &mut Store, event: &Event, now: u64, origin: &Instant) -> (actions: Vec<
    Action,
>)
    requires
        old(store).wf(),
    ensures
        final(store).wf(),
        match event {
            Event::Line(raw) => {
                &&& final(store)@ == next_store(
                    old(store)@,
                    request_of_line(raw@),
                    now,
                    shown_for(request_of_line(raw@), *origin, now),
                )
                &&& actions_model(actions@) == response(
                    old(store)@,
                    old(store).listing(),
                    request_of_line(raw@),
                    now,
                    shown_for(request_of_line(raw@), *origin, now),
                )
            },
            Event::EndOfInput => {
                &&& final(store)@ == old(store)@
                &&& actions_model(actions@) == seq![
                    ActionModel::Print("clientes desconectado"@),
                    ActionModel::Close,
                ]
            },
            Event::ReadFailed => {
                &&& final(store)@ == old(store)@
                &&& actions_model(actions@) == seq![
                    ActionModel::Print("Error"@),
                    ActionModel::Close,
                ]
            },
        },
{
    match event {
        Event::Line(raw) => handle_line(store, raw.as_str(), now, origin),
        Event::EndOfInput => {
            let mut out: Vec<Action> = Vec::new();
            out.push(Action::Print(text("clientes desconectado")));
            out.push(Action::Close);
            assert(actions_model(out@) =~= seq![
                ActionModel::Print("clientes desconectado"@),
                ActionModel::Close,
            ]);
            out
        },
        Event::ReadFailed => {
            let mut out: Vec<Action> = Vec::new();
            out.push(Action::Print(text("Error")));
            out.push(Action::Close);
            assert(actions_model(out@) =~= seq![ActionModel::Print("Error"@), ActionModel::Close]);
            out
        },
    }
}

/// What `ping` sends once the database has been set up with the given
/// status.
pub fn pong_reply(status: u8) -> (r: String)
    ensures
        r@ == pong_text(status),
{
    let mut r = text("PONG, var: ");
    let digits = string_of(decimal_chars(status as u64).as_slice());
    r.append(digits.as_str());
    r.append("\n");
    r
}

} // verus!
