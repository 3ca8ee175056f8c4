//! Properties of the store and the protocol that span several requests.

use vstd::prelude::*;
use crate::cleaner::without_expired;
use crate::protocol::{
    deadline, expiry_time, found_text, listing_actions, listing_text, next_store, parse_model,
    response, ActionModel, RequestModel, EXPIRE_AFTER_NANOS,
};
use crate::text::{
    is_ws, lemma_skip_step, lemma_space_index, lemma_word_run, space_index, split_space, trim,
    trim_end, trim_start, word_len, words,
};
use crate::store::{Listing, Store};
use crate::types::{is_expired, EntryModel, MomentModel};

verus! {

/// A `get` after a `set` of the same key finds the value that was set, with
/// no expiry time.
pub proof fn law_get_after_set(
    store: Map<Seq<char>, EntryModel>,
    later_listing: Listing,
    key: Seq<char>,
    value: Seq<char>,
    now: u64,
    later: u64,
    shown: Option<Seq<char>>,
    later_shown: Option<Seq<char>>,
)
    ensures
        ({
            let after = next_store(store, RequestModel::SetValue { key, value }, now, shown);
            response(after, later_listing, RequestModel::Get { key }, later, later_shown) == seq![
                ActionModel::Send(found_text(EntryModel { data: value, expire_at: None })),
            ]
        }),
{
}

/// A `set` replaces whatever the key held before, expiry time included.
pub proof fn law_set_overwrites(
    store: Map<Seq<char>, EntryModel>,
    key: Seq<char>,
    first: Seq<char>,
    second: Seq<char>,
    now: u64,
    later: u64,
    shown: Option<Seq<char>>,
    later_shown: Option<Seq<char>>,
)
    ensures
        next_store(
            next_store(store, RequestModel::SetValue { key, value: first }, now, shown),
            RequestModel::SetValue { key, value: second },
            later,
            later_shown,
        ) == next_store(store, RequestModel::SetValue { key, value: second }, later, later_shown),
{
    assert(next_store(
        next_store(store, RequestModel::SetValue { key, value: first }, now, shown),
        RequestModel::SetValue { key, value: second },
        later,
        later_shown,
    ) =~= next_store(store, RequestModel::SetValue { key, value: second }, later, later_shown));
}

/// A `del` of a key that is there answers `1` and removes it, so that a
/// following `get` finds nothing; a `del` of a key that is not there
/// answers `0` and changes nothing.
pub proof fn law_del(
    store: Map<Seq<char>, EntryModel>,
    listing: Listing,
    later_listing: Listing,
    key: Seq<char>,
    now: u64,
    later: u64,
    shown: Option<Seq<char>>,
    later_shown: Option<Seq<char>>,
)
    ensures
        response(store, listing, RequestModel::Del { key }, now, shown) == if store.contains_key(key) {
            seq![ActionModel::Send("1\n"@)]
        } else {
            seq![ActionModel::Send("0\n"@)]
        },
        !next_store(store, RequestModel::Del { key }, now, shown).contains_key(key),
        !store.contains_key(key) ==> next_store(store, RequestModel::Del { key }, now, shown)
            == store,
        response(
            next_store(store, RequestModel::Del { key }, now, shown),
            later_listing,
            RequestModel::Get { key },
            later,
            later_shown,
        ) == seq![ActionModel::Send("objeto no encontrado, parametro usado: None\n"@)],
{
    if !store.contains_key(key) {
        assert(store.remove(key) =~= store);
    }
}

/// Only `set`, `expire` and `del` change the store; every other request
/// leaves it as it was.
pub proof fn law_other_requests_keep_store(
    store: Map<Seq<char>, EntryModel>,
    req: RequestModel,
    now: u64,
    shown: Option<Seq<char>>,
)
    requires
        !(req is SetValue),
        !(req is Expire),
        !(req is Del),
    ensures
        next_store(store, req, now, shown) == store,
{
}

/// An `expire` changes only the expiry time of its key, which becomes the
/// moment `EXPIRE_AFTER_NANOS` after the time of the request, shown as the
/// clock shows it; the entry is then removed by a clean-up at or after that
/// time and kept by one before it.
pub proof fn law_expire_then_clean(
    store: Map<Seq<char>, EntryModel>,
    key: Seq<char>,
    extra: bool,
    now: u64,
    shown: Seq<char>,
    clean_at: u64,
)
    requires
        store.contains_key(key),
        now + EXPIRE_AFTER_NANOS <= u64::MAX,
    ensures
        ({
            let after = next_store(
                store,
                RequestModel::Expire { key: Some(key), extra },
                now,
                Some(shown),
            );
            &&& after.contains_key(key)
            &&& after[key].data == store[key].data
            &&& after[key].expire_at == Some(
                MomentModel { at: (now + EXPIRE_AFTER_NANOS) as u64, shown },
            )
            &&& after.remove(key) == store.remove(key)
            &&& (now + EXPIRE_AFTER_NANOS <= clean_at ==> !without_expired(
                after,
                clean_at,
            ).contains_key(key))
            &&& (clean_at < now + EXPIRE_AFTER_NANOS ==> without_expired(
                after,
                clean_at,
            ).contains_key(key))
        }),
{
    let after = next_store(store, RequestModel::Expire { key: Some(key), extra }, now, Some(shown));
    assert(expiry_time(now) == Some((now + EXPIRE_AFTER_NANOS) as u64));
    assert(after.remove(key) =~= store.remove(key));
}

/// An `expire` of a key that is not there changes nothing.
pub proof fn law_expire_missing_key(
    store: Map<Seq<char>, EntryModel>,
    key: Seq<char>,
    extra: bool,
    now: u64,
    shown: Option<Seq<char>>,
)
    requires
        !store.contains_key(key),
    ensures
        next_store(store, RequestModel::Expire { key: Some(key), extra }, now, shown) == store,
{
}

/// A clean-up keeps exactly the entries still valid at its time: it never
/// removes an entry without an expiry time, and it leaves no out-of-date
/// entry behind.
pub proof fn law_clean_keeps_valid_entries(store: Map<Seq<char>, EntryModel>, now: u64)
    ensures
        forall|k: Seq<char>|
            store.contains_key(k) && store[k].expire_at is None ==> #[trigger] without_expired(
                store,
                now,
            ).contains_key(k) && without_expired(store, now)[k] == store[k],
        forall|k: Seq<char>|
            #[trigger] without_expired(store, now).contains_key(k) ==> !is_expired(
                without_expired(store, now)[k],
                now,
            ),
        forall|k: Seq<char>|
            #[trigger] without_expired(store, now).contains_key(k) <==> store.contains_key(k)
                && !is_expired(store[k], now),
        forall|k: Seq<char>|
            #[trigger] without_expired(store, now).contains_key(k) ==> without_expired(
                store,
                now,
            )[k] == store[k],
{
}

/// Cleaning up twice at the same time does no more than cleaning up once.
pub proof fn law_clean_idempotent(store: Map<Seq<char>, EntryModel>, now: u64)
    ensures
        without_expired(without_expired(store, now), now) == without_expired(store, now),
{
    assert(without_expired(without_expired(store, now), now) =~= without_expired(store, now));
}

/// A clean-up at a later time removes everything an earlier one removed:
/// cleaning at `early` and then at `late` is the same as cleaning at `late`.
pub proof fn law_clean_later_subsumes(store: Map<Seq<char>, EntryModel>, early: u64, late: u64)
    requires
        early <= late,
    ensures
        without_expired(without_expired(store, early), late) == without_expired(store, late),
{
    assert(without_expired(without_expired(store, early), late) =~= without_expired(
        store,
        late,
    ));
}

/// The lines of a full listing: one for each stored entry, and no others.
proof fn lemma_listing_lines(store: &Store)
    requires
        store.wf(),
    ensures
        ({
            let out = listing_actions(store.listing(), store.listing().len() as int);
            &&& forall|k: Seq<char>|
                #[trigger] store@.contains_key(k) ==> exists|i: int|
                    0 <= i < out.len() && out[i] == ActionModel::Send(listing_text(k, store@[k]))
            &&& forall|i: int|
                #![trigger out[i]]
                0 <= i < out.len() ==> store@.contains_key(store.listing()[i].0) && out[i]
                    == ActionModel::Send(
                    listing_text(store.listing()[i].0, store@[store.listing()[i].0]),
                )
            &&& out.len() == store.listing().len()
        }),
{
    store.lemma_listing_is_view();
    let l = store.listing();
    let out = listing_actions(l, l.len() as int);
    assert(l.take(l.len() as int) =~= l);
    assert(out.len() == l.len());
    assert forall|i: int| 0 <= i < l.len() implies #[trigger] out[i] == ActionModel::Send(
        listing_text(l[i].0, l[i].1),
    ) by {}
    assert forall|k: Seq<char>| #[trigger] store@.contains_key(k) implies exists|i: int|
        0 <= i < out.len() && out[i] == ActionModel::Send(listing_text(k, store@[k])) by {
        let i = choose|i: int| 0 <= i < l.len() && #[trigger] l[i].0 == k;
        assert(out[i] == ActionModel::Send(listing_text(l[i].0, l[i].1)));
    }
}

/// `getall` sends one line for each stored entry, naming its key and
/// showing its entry, and nothing else; no key is listed twice.
pub proof fn law_getall_lists_each_entry(store: &Store, now: u64)
    requires
        store.wf(),
    ensures
        ({
            let out = response(store@, store.listing(), RequestModel::GetAll, now, None);
            &&& forall|k: Seq<char>|
                #[trigger] store@.contains_key(k) ==> exists|i: int|
                    0 <= i < out.len() && out[i] == ActionModel::Send(listing_text(k, store@[k]))
            &&& forall|i: int|
                #![trigger out[i]]
                0 <= i < out.len() ==> store@.contains_key(store.listing()[i].0) && out[i]
                    == ActionModel::Send(
                    listing_text(store.listing()[i].0, store@[store.listing()[i].0]),
                )
            &&& out.len() == store@.len()
            &&& forall|i: int, j: int|
                0 <= i < j < store.listing().len() ==> #[trigger] store.listing()[i].0
                    != #[trigger] store.listing()[j].0
        }),
{
    store.lemma_listing_is_view();
    lemma_listing_lines(store);
    assert(response(store@, store.listing(), RequestModel::GetAll, now, None) == listing_actions(
        store.listing(),
        store.listing().len() as int,
    ));
}

/// A `set` of one key changes that key alone: it then holds the new value
/// with no expiry time, and every other key keeps exactly the entry it had,
/// or stays absent.
pub proof fn law_set_touches_only_its_key(
    store: Map<Seq<char>, EntryModel>,
    key: Seq<char>,
    value: Seq<char>,
    now: u64,
    shown: Option<Seq<char>>,
)
    ensures
        ({
            let after = next_store(store, RequestModel::SetValue { key, value }, now, shown);
            &&& after.contains_key(key)
            &&& after[key] == (EntryModel { data: value, expire_at: None })
            &&& forall|q: Seq<char>|
                q != key ==> (#[trigger] after.contains_key(q) <==> store.contains_key(q))
            &&& forall|q: Seq<char>|
                q != key && #[trigger] after.contains_key(q) ==> after[q] == store[q]
        }),
{
}

/// A `del` of one key removes that key alone: every other key keeps exactly
/// the entry it had, or stays absent.
pub proof fn law_del_touches_only_its_key(
    store: Map<Seq<char>, EntryModel>,
    key: Seq<char>,
    now: u64,
    shown: Option<Seq<char>>,
)
    ensures
        ({
            let after = next_store(store, RequestModel::Del { key }, now, shown);
            &&& !after.contains_key(key)
            &&& forall|q: Seq<char>|
                q != key ==> (#[trigger] after.contains_key(q) <==> store.contains_key(q))
            &&& forall|q: Seq<char>|
                q != key && #[trigger] after.contains_key(q) ==> after[q] == store[q]
        }),
{
}

/// An `expire` of a key that is there, at a time whose deadline can be
/// counted and shown, answers only "contadoro fijado" (after a warning when
/// more words follow the key) and the session goes on: nothing closes or
/// stops it.
pub proof fn law_expire_answers_and_goes_on(
    store: Map<Seq<char>, EntryModel>,
    listing: Listing,
    key: Seq<char>,
    extra: bool,
    now: u64,
    shown: Option<Seq<char>>,
)
    requires
        store.contains_key(key),
        deadline(now, shown) is Some,
    ensures
        response(store, listing, RequestModel::Expire { key: Some(key), extra }, now, shown) == if extra {
            seq![
                ActionModel::Send("Error en los parametros\n"@),
                ActionModel::Send("contadoro fijado\n"@),
            ]
        } else {
            seq![ActionModel::Send("contadoro fijado\n"@)]
        },
{
    assert(seq![ActionModel::Send("Error en los parametros\n"@)].push(
        ActionModel::Send("contadoro fijado\n"@),
    ) =~= seq![
        ActionModel::Send("Error en los parametros\n"@),
        ActionModel::Send("contadoro fijado\n"@),
    ]);
    assert(Seq::<ActionModel>::empty().push(ActionModel::Send("contadoro fijado\n"@)) =~= seq![
        ActionModel::Send("contadoro fijado\n"@),
    ]);
}

/// Only `quit` ends a session on its own: no other request's answer holds a
/// `Close`. Only an `expire` can stop a session outright.
pub proof fn law_only_quit_closes(
    store: Map<Seq<char>, EntryModel>,
    listing: Listing,
    req: RequestModel,
    now: u64,
    shown: Option<Seq<char>>,
)
    ensures
        forall|i: int|
            0 <= i < response(store, listing, req, now, shown).len() && #[trigger] response(
                store,
                listing,
                req,
                now,
                shown,
            )[i] == ActionModel::Close ==> req is Quit,
        forall|i: int|
            0 <= i < response(store, listing, req, now, shown).len() && #[trigger] response(
                store,
                listing,
                req,
                now,
                shown,
            )[i] == ActionModel::Abort ==> req is Expire,
{
    let out = response(store, listing, req, now, shown);
    if req is GetAll {
        assert forall|i: int| 0 <= i < out.len() implies (#[trigger] out[i]) is Send by {
            assert(out[i] == ActionModel::Send(
                listing_text(listing.take(listing.len() as int)[i].0, listing.take(listing.len() as int)[i].1),
            ));
        }
    }
}

/// `echo` sends back its text exactly as it came: a non-empty text is the
/// whole answer; an empty one is answered with a notice (and the empty text).
pub proof fn law_echo_returns_its_text(
    store: Map<Seq<char>, EntryModel>,
    listing: Listing,
    text: Seq<char>,
    now: u64,
    shown: Option<Seq<char>>,
)
    ensures
        text.len() > 0 ==> response(store, listing, RequestModel::Echo { text }, now, shown)
            == seq![ActionModel::Send(text)],
        text.len() == 0 ==> response(store, listing, RequestModel::Echo { text }, now, shown)
            == seq![ActionModel::Send("echo sin parametros\n"@), ActionModel::Send(text)],
{
}

/// The text that `echo` sends back is everything after the first space of
/// the line, spaces included.
pub proof fn law_echo_reads_the_whole_rest(text: Seq<char>)
    ensures
        parse_model("echo"@ + seq![' '] + text) == (RequestModel::Echo { text }),
{
    reveal_strlit("echo");
    reveal_strlit("set");
    reveal_strlit("expire");
    reveal_strlit("get");
    reveal_strlit("getall");
    reveal_strlit("del");
    reveal_strlit("ping");
    let s = "echo"@ + seq![' '] + text;
    assert(s[0] == 'e' && s[1] == 'c' && s[2] == 'h' && s[3] == 'o' && s[4] == ' ');
    let s1 = s.drop_first();
    let s2 = s1.drop_first();
    let s3 = s2.drop_first();
    let s4 = s3.drop_first();
    assert(s4[0] == ' ');
    assert(space_index(s4) == Some(0int));
    assert(space_index(s3) == Some(1int));
    assert(space_index(s2) == Some(2int));
    assert(space_index(s1) == Some(3int));
    assert(space_index(s) == Some(4int));
    assert(s.take(4) =~= "echo"@);
    assert(s.skip(5) =~= text);
    assert(split_space(s) == Some(("echo"@, text)));
    assert("echo"@[0] != "set"@[0]);
    assert("echo"@ != "expire"@);
    assert("echo"@.len() != "getall"@.len());
    assert("echo"@[0] != "get"@[0]);
    assert("echo"@[0] != "del"@[0]);
    assert("echo"@[0] != "ping"@[0]);
}

/// A command word without spaces, a space, then the rest: the line splits
/// there.
proof fn lemma_split_after_word(cmd: Seq<char>, rest: Seq<char>)
    requires
        forall|i: int| 0 <= i < cmd.len() ==> #[trigger] cmd[i] != ' ',
    ensures
        split_space(cmd + seq![' '] + rest) == Some((cmd, rest)),
{
    let s = cmd + seq![' '] + rest;
    assert forall|i: int| 0 <= i < cmd.len() implies #[trigger] s[i] != ' ' by {
        assert(s[i] == cmd[i]);
    }
    lemma_space_index(s, cmd.len() as int);
    lemma_skip_step(s, cmd.len() as int);
    assert(s.skip(cmd.len() as int)[0] == ' ');
    assert(space_index(s.skip(cmd.len() as int)) == Some(0int));
    assert(s.take(cmd.len() as int) =~= cmd);
    assert(s.skip(cmd.len() as int + 1) =~= rest);
}

/// A word of non-white-space characters is the only word of itself.
proof fn lemma_single_word(k: Seq<char>)
    requires
        k.len() > 0,
        forall|i: int| 0 <= i < k.len() ==> !is_ws(#[trigger] k[i]),
    ensures
        words(k) == seq![k],
{
    lemma_word_run(k, 0, k.len() as int);
    assert(k.skip(0) =~= k);
    assert(word_len(k) == k.len());
    assert(k.take(k.len() as int) =~= k);
    assert(k.skip(k.len() as int) =~= Seq::<char>::empty());
    assert(words(k.skip(k.len() as int)) =~= Seq::<Seq<char>>::empty());
    assert(seq![k] + Seq::<Seq<char>>::empty() =~= seq![k]);
}

/// `set`, a key of non-white-space characters, a space, and a value that
/// starts with a non-white-space character stores exactly that value under
/// exactly that key.
pub proof fn law_set_parses_key_and_value(key: Seq<char>, value: Seq<char>)
    requires
        key.len() > 0,
        forall|i: int| 0 <= i < key.len() ==> !is_ws(#[trigger] key[i]),
        value.len() > 0,
        !is_ws(value[0]),
    ensures
        parse_model("set"@ + seq![' '] + (key + seq![' '] + value)) == (RequestModel::SetValue {
            key,
            value,
        }),
{
    reveal_strlit("set");
    assert forall|i: int| 0 <= i < 3 implies #[trigger] "set"@[i] != ' ' by {}
    lemma_split_after_word("set"@, key + seq![' '] + value);
    assert forall|i: int| 0 <= i < key.len() implies #[trigger] key[i] != ' ' by {
        assert(!is_ws(key[i]));
    }
    lemma_split_after_word(key, value);
    assert(trim_start(key) == key);
    assert(trim_end(key) == key);
    assert(trim(key) == key);
    assert(trim_start(value) == value);
}

/// `get` or `del` followed by one key of non-white-space characters reads
/// exactly that key.
pub proof fn law_get_and_del_parse_their_key(key: Seq<char>)
    requires
        key.len() > 0,
        forall|i: int| 0 <= i < key.len() ==> !is_ws(#[trigger] key[i]),
    ensures
        parse_model("get"@ + seq![' '] + key) == (RequestModel::Get { key }),
        parse_model("del"@ + seq![' '] + key) == (RequestModel::Del { key }),
{
    reveal_strlit("set");
    reveal_strlit("expire");
    reveal_strlit("get");
    reveal_strlit("getall");
    reveal_strlit("del");
    assert forall|i: int| 0 <= i < 3 implies #[trigger] "get"@[i] != ' ' by {}
    assert forall|i: int| 0 <= i < 3 implies #[trigger] "del"@[i] != ' ' by {}
    lemma_split_after_word("get"@, key);
    lemma_split_after_word("del"@, key);
    lemma_single_word(key);
    assert("get"@[0] != "set"@[0]);
    assert("del"@[0] != "set"@[0]);
    assert("del"@[0] != "get"@[0]);
    assert("get"@ != "expire"@);
    assert("del"@ != "expire"@);
    assert("del"@ != "getall"@);
}

/// A `get` answers with exactly the entry stored under its key, and with
/// the not-found notice when there is none.
pub proof fn law_get_reports_stored_entry(
    store: Map<Seq<char>, EntryModel>,
    listing: Listing,
    key: Seq<char>,
    now: u64,
    shown: Option<Seq<char>>,
)
    ensures
        store.contains_key(key) ==> response(store, listing, RequestModel::Get { key }, now, shown)
            == seq![ActionModel::Send(found_text(store[key]))],
        !store.contains_key(key) ==> response(
            store,
            listing,
            RequestModel::Get { key },
            now,
            shown,
        ) == seq![ActionModel::Send("objeto no encontrado, parametro usado: None\n"@)],
        next_store(store, RequestModel::Get { key }, now, shown) == store,
{
}

} // verus!
