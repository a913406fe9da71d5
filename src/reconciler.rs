//! The background reconciler: applies the changes observed on the
//! authoritative network's change stream to the cache, so that the cache
//! follows writes that this process did not make.
use vstd::prelude::*;

use crate::cache::{
    card_other_than, card_outside_stack, has_stack, label_clash, stack_other_than, unchanged,
    upserted_cards, upserted_stacks, CacheError, CacheStore,
};
use crate::db::{clone_opt, DbCard, DbStack};
use crate::records::{
    collection_of_nsid, stack_uri_of, stack_uri_spec, Card, Collection, KnownRecord, Stack,
};

verus! {

/// What a change did to a record.
#[derive(Clone, Copy, Debug, PartialEq, Eq, Structural)]
pub enum Operation {
    Create,
    Update,
    Delete,
}

/// One change observed on the stream: `operation` on the record `uri` of the
/// collection `collection` in the repository of `did`, at the time `time`
/// (microseconds since the Unix epoch). Creates and updates carry the
/// record.
#[derive(Clone, Debug)]
pub struct ChangeEvent {
    pub collection: String,
    pub did: String,
    pub uri: String,
    pub operation: Operation,
    pub record: Option<KnownRecord>,
    pub time: i64,
}

/// What applying a change did to the cache.
#[derive(Clone, Copy, Debug, PartialEq, Eq, Structural)]
pub enum Applied {
    /// The change concerns nothing that this system keeps.
    Ignored,
    /// The row was written.
    Stored,
    /// The cache refused the row.
    Refused(CacheError),
    /// The row was removed.
    Removed,
}

/// The collection of a change, when it is one of this system's.
pub open spec fn event_collection(e: ChangeEvent) -> Option<Collection> {
    collection_of_nsid(e.collection@)
}

/// The stack row that a change carrying the stack record `s` writes.
pub open spec fn stack_row_of_event(e: ChangeEvent, s: Stack) -> DbStack {
    DbStack {
        uri: e.uri,
        author_did: e.did,
        back_lang: s.back_lang,
        front_lang: s.front_lang,
        label: s.label,
        created_at: e.time,
        indexed_at: e.time,
    }
}

/// `row` is the card row that a change carrying the card record `c` writes;
/// its stack is the stack of the record's key in the same repository.
pub open spec fn card_row_of_event(row: DbCard, e: ChangeEvent, c: Card) -> bool {
    &&& row.uri == e.uri
    &&& row.author_did == e.did
    &&& row.back_lang == c.back_lang
    &&& row.back_text == c.back_text
    &&& row.front_lang == c.front_lang
    &&& row.front_text == c.front_text
    &&& row.stack_id@ == stack_uri_spec(e.did@, c.stack_id@)
    &&& row.created_at == e.time
    &&& row.indexed_at == e.time
}

/// `new` is the cache `old` after the change `e`: a stack or card written
/// over the row of its URI (or added), or removed, with a stack's cards; a
/// change of another collection, a write without a matching record, and a
/// row that the cache refuses leave the cache as it was.
pub open spec fn applied(old: CacheStore, new: CacheStore, e: ChangeEvent) -> bool {
    match event_collection(e) {
        None => unchanged(new, old),
        Some(Collection::Stack) => if e.operation == Operation::Delete {
            &&& new.stacks@ == old.stacks@.filter(stack_other_than(e.uri@))
            &&& new.cards@ == old.cards@.filter(card_outside_stack(e.uri@))
            &&& new.sessions@ == old.sessions@
            &&& new.states@ == old.states@
        } else {
            match e.record {
                Some(KnownRecord::LexiconXyzFlatshcardsCardsStack(s)) => {
                    let row = stack_row_of_event(e, *s);
                    if label_clash(old.stacks@, row) {
                        unchanged(new, old)
                    } else {
                        &&& new.stacks@ == upserted_stacks(old.stacks@, row)
                        &&& new.cards@ == old.cards@
                        &&& new.sessions@ == old.sessions@
                        &&& new.states@ == old.states@
                    }
                },
                _ => unchanged(new, old),
            }
        },
        Some(Collection::Card) => if e.operation == Operation::Delete {
            &&& new.cards@ == old.cards@.filter(card_other_than(e.uri@))
            &&& new.stacks@ == old.stacks@
            &&& new.sessions@ == old.sessions@
            &&& new.states@ == old.states@
        } else {
            match e.record {
                Some(KnownRecord::LexiconXyzFlatshcardsCardsCard(c)) => exists|row: DbCard|
                    {
                        &&& #[trigger] card_row_of_event(row, e, *c)
                        &&& if has_stack(old.stacks@, row.stack_id@) {
                            &&& new.cards@ == upserted_cards(old.cards@, row)
                            &&& new.stacks@ == old.stacks@
                            &&& new.sessions@ == old.sessions@
                            &&& new.states@ == old.states@
                        } else {
                            unchanged(new, old)
                        }
                    },
                _ => unchanged(new, old),
            }
        },
    }
}

/// Applies one change of the stream to the cache (see `applied`).
pub fn apply_event(cache: &mut CacheStore, event: &ChangeEvent) -> (r: Applied)
    requires
        old(cache).wf(),
    ensures
        final(cache).wf(),
        applied(*old(cache), *final(cache), *event),
        r == Applied::Ignored ==> unchanged(*final(cache), *old(cache)),
{
    let collection = match Collection::from_nsid(event.collection.as_str()) {
        None => return Applied::Ignored,
        Some(c) => c,
    };
    assert(event_collection(*event) == Some(collection));
    if event.operation == Operation::Delete {
        match collection {
            Collection::Stack => DbStack::delete_by_uri(event.uri.as_str(), cache),
            Collection::Card => DbCard::delete_by_uri(event.uri.as_str(), cache),
        }
        return Applied::Removed;
    }
    match (collection, &event.record) {
        (Collection::Stack, Some(KnownRecord::LexiconXyzFlatshcardsCardsStack(s))) => {
            let row = DbStack {
                uri: event.uri.clone(),
                author_did: event.did.clone(),
                back_lang: clone_opt(&s.back_lang),
                front_lang: clone_opt(&s.front_lang),
                label: s.label.clone(),
                created_at: event.time,
                indexed_at: event.time,
            };
            assert(row == stack_row_of_event(*event, **s));
            match row.upsert(cache) {
                Ok(()) => Applied::Stored,
                Err(e) => Applied::Refused(e),
            }
        },
        (Collection::Card, Some(KnownRecord::LexiconXyzFlatshcardsCardsCard(c))) => {
            let row = DbCard {
                uri: event.uri.clone(),
                author_did: event.did.clone(),
                back_lang: c.back_lang.clone(),
                back_text: c.back_text.clone(),
                front_lang: c.front_lang.clone(),
                front_text: c.front_text.clone(),
                created_at: event.time,
                indexed_at: event.time,
                stack_id: stack_uri_of(event.did.as_str(), c.stack_id.as_str()),
            };
            assert(card_row_of_event(row, *event, **c));
            match row.upsert(cache) {
                Ok(()) => Applied::Stored,
                Err(e) => Applied::Refused(e),
            }
        },
        _ => Applied::Ignored,
    }
}

/// Where the reconciler's subscription stands.
#[derive(Clone, Copy, Debug, PartialEq, Eq, Structural)]
pub enum StreamState {
    Disconnected,
    Streaming,
}

/// What happened to the subscription.
#[derive(Clone, Copy, Debug, PartialEq, Eq, Structural)]
pub enum StreamSignal {
    /// The subscription is open.
    Opened,
    /// A change arrived.
    Received,
    /// The subscription dropped.
    Dropped,
}

/// What the reconciler does next.
#[derive(Clone, Copy, Debug, PartialEq, Eq, Structural)]
pub enum StreamAction {
    /// Open a subscription.
    Connect,
    /// Apply the change that arrived, then wait for the next.
    Apply,
    /// Wait for the next signal.
    Wait,
}

impl StreamState {
    /// The next state and action after `signal`. A dropped subscription is
    /// opened again; a change that arrives while disconnected is not applied.
    pub fn step(self, signal: StreamSignal) -> (r: (StreamState, StreamAction))
        ensures
            signal == StreamSignal::Dropped ==> r == (StreamState::Disconnected, StreamAction::Connect),
            signal == StreamSignal::Opened ==> r == (StreamState::Streaming, StreamAction::Wait),
            signal == StreamSignal::Received ==> r == (if self == StreamState::Streaming {
                (StreamState::Streaming, StreamAction::Apply)
            } else {
                (StreamState::Disconnected, StreamAction::Connect)
            }),
    {
        match signal {
            StreamSignal::Dropped => (StreamState::Disconnected, StreamAction::Connect),
            StreamSignal::Opened => (StreamState::Streaming, StreamAction::Wait),
            StreamSignal::Received => match self {
                StreamState::Streaming => (StreamState::Streaming, StreamAction::Apply),
                StreamState::Disconnected => (StreamState::Disconnected, StreamAction::Connect),
            },
        }
    }
}

} // verus!
