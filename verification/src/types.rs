//! The stored value: a piece of text and an optional expiry time.
//!
//! A point in time is a `Moment`: its position on the server's clock, in
//! nanoseconds since the server started, and the text that `{:?}` shows for
//! the clock reading it stands for. An entry whose expiry time is at or
//! before the current time is out of date.

use vstd::prelude::*;
use crate::text::{debug_quote, debug_quoted};

verus! {

/// A point in time, as mathematical values.
pub struct MomentModel {
    pub at: u64,
    pub shown: Seq<char>,
}

/// A point in time: nanoseconds since the server started, and how `{:?}`
/// shows the clock reading at that point.
#[derive(Debug, Clone)]
pub struct Moment {
    pub at: u64,
    pub shown: String,
}

impl View for Moment {
    type V = MomentModel;

    open spec fn view(&self) -> MomentModel {
        MomentModel { at: self.at, shown: self.shown@ }
    }
}

impl Moment {
    /// An independent copy of the moment.
    pub fn duplicate(&self) -> (r: Self)
        ensures
            r@ == self@,
    {
        Moment { at: self.at, shown: self.shown.clone() }
    }
}

/// What an entry holds, as mathematical values.
pub struct EntryModel {
    pub data: Seq<char>,
    pub expire_at: Option<MomentModel>,
}

/// A stored value and the time at which it stops being valid, if any.
#[derive(Debug, Clone)]
pub struct EntryChire {
    pub data: String,
    pub expire_at: Option<Moment>,
}

impl View for EntryChire {
    type V = EntryModel;

    open spec fn view(&self) -> EntryModel {
        EntryModel {
            data: self.data@,
            expire_at: match self.expire_at {
                Some(m) => Some(m@),
                None => None,
            },
        }
    }
}

/// Whether an entry is out of date at time `now`.
pub open spec fn is_expired(e: EntryModel, now: u64) -> bool {
    match e.expire_at {
        Some(t) => t.at <= now,
        None => false,
    }
}

/// The text that `{:?}` gives for an optional moment.
pub open spec fn option_debug(t: Option<MomentModel>) -> Seq<char> {
    match t {
        Some(m) => "Some("@ + m.shown + ")"@,
        None => "None"@,
    }
}

/// The text that `{:?}` gives for an entry whose text, already quoted, is
/// `quoted`.
pub open spec fn entry_text(quoted: Seq<char>, expire_at: Option<MomentModel>) -> Seq<char> {
    "EntryChire { data: "@ + quoted + ", expire_at: "@ + option_debug(expire_at) + " }"@
}

/// The text that `{:?}` gives for an entry: its type name and its fields.
pub open spec fn entry_debug(e: EntryModel) -> Seq<char> {
    entry_text(debug_quoted(e.data), e.expire_at)
}

/// The text that `{:?}` gives for an entry whose text, already quoted, is
/// `quoted` and whose expiry time is `expire_at`.
pub fn render_entry(quoted: &str, expire_at: &Option<Moment>) -> (r: String)
    ensures
        r@ == entry_text(
            quoted@,
            match expire_at {
                Some(m) => Some(m@),
                None => None,
            },
        ),
{
    let mut r = String::from_str("EntryChire { data: ");
    r.append(quoted);
    r.append(", expire_at: ");
    match expire_at {
        Some(m) => {
            r.append("Some(");
            r.append(m.shown.as_str());
            r.append(")");
        },
        None => {
            r.append("None");
        },
    }
    r.append(" }");
    r
}

/// Operations an entry offers to the persistence layer; none does anything
/// yet.
#[allow(dead_code)]
trait EntryOperation {
    fn operation(&self) {
    }
}

impl EntryOperation for EntryChire {
    fn operation(&self) {
    }
}

impl EntryChire {
    /// A new entry holding `value`, with no expiry time.
    pub fn create(value: String) -> (r: Self)
        ensures
            r@ == (EntryModel { data: value@, expire_at: None }),
    {
        Self { data: value, expire_at: None }
    }

    /// Makes the entry expire at `expire_at`; its text is kept.
    pub fn set_expiration(&mut self, expire_at: Moment)
        ensures
            final(self)@ == (EntryModel { data: old(self)@.data, expire_at: Some(expire_at@) }),
    {
        self.expire_at = Some(expire_at);
    }

    /// An independent copy of the entry.
    pub fn duplicate(&self) -> (r: Self)
        ensures
            r@ == self@,
    {
        let expire_at = match &self.expire_at {
            Some(m) => Some(m.duplicate()),
            None => None,
        };
        Self { data: self.data.clone(), expire_at }
    }

    /// Whether the entry is out of date at time `now`.
    pub fn expired_at(&self, now: u64) -> (r: bool)
        ensures
            r == is_expired(self@, now),
    {
        match &self.expire_at {
            Some(t) => t.at <= now,
            None => false,
        }
    }

    /// The entry as `{:?}` shows it.
    pub fn debug_text(&self) -> (r: String)
        ensures
            r@ == entry_debug(self@),
    {
        let quoted = debug_quote(self.data.as_str());
        render_entry(quoted.as_str(), &self.expire_at)
    }
}

} // verus!
