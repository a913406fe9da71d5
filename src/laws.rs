//! Properties that hold across the operations of the library, each proved
//! from the contracts of the functions it speaks of.
use vstd::prelude::*;

use crate::cache::{
    card_outside_stack, card_owned, card_pos, card_at, has_card, has_stack, label_clash,
    label_taken, stack_at, stack_owned, stack_pos, stacks_wf, cards_unique, upserted_cards,
    upserted_stacks, CacheStore,
};
use crate::clone::{outcome_recorded, CloneJob};
use crate::coordinator::{stack_created, stack_row_from_form, RemoteError};
use crate::db::{DbCard, DbStack};
use crate::forms::StackForm;
use crate::reconciler::{applied, event_collection, Operation, ChangeEvent};
use crate::records::{Collection, KnownRecord};

verus! {

/// A stack created on a cache where neither its URI nor its author's label
/// was taken can be read back from the cache: the row of its URI holds the
/// form's languages and label, its author and its URI, and was indexed when
/// it was created.
pub proof fn create_then_read(
    before: CacheStore,
    after: CacheStore,
    form: StackForm,
    author: Seq<char>,
    uri: Seq<char>,
)
    requires
        after.wf(),
        !has_stack(before.stacks@, uri),
        !label_taken(before.stacks@, author, form.stack_label@),
        stack_created(before.stacks@, after.stacks@, form, author, uri),
    ensures
        has_stack(after.stacks@, uri),
        stack_row_from_form(after.stacks@[stack_pos(after.stacks@, uri)], form, author, uri),
        after.stacks@[stack_pos(after.stacks@, uri)].created_at == after.stacks@[stack_pos(
            after.stacks@,
            uri,
        )].indexed_at,
{
    let row = choose|row: DbStack|
        {
            &&& #[trigger] stack_row_from_form(row, form, author, uri)
            &&& if !has_stack(before.stacks@, uri) && !label_clash(before.stacks@, row) {
                after.stacks@ == before.stacks@.push(row)
            } else {
                after.stacks@ == before.stacks@
            }
        };
    if label_clash(before.stacks@, row) {
        let i = choose|i: int|
            0 <= i < before.stacks@.len() && (#[trigger] before.stacks@[i]).author_did@
                == row.author_did@ && before.stacks@[i].label@ == row.label@
                && before.stacks@[i].uri@ != row.uri@;
        assert(label_taken(before.stacks@, author, form.stack_label@));
    }
    let n = before.stacks@.len() as int;
    assert(stack_at(after.stacks@, uri, n));
    let j = stack_pos(after.stacks@, uri);
    if j != n {
        assert(after.stacks@[j].uri@ != after.stacks@[n].uri@);
    }
}

/// An account never owns what another account owns: where `a` owns a stack
/// or a card, `b` does not, so its edits and deletes of it are refused.
pub proof fn foreign_entity_not_owned(cache: CacheStore, a: Seq<char>, b: Seq<char>, uri: Seq<char>)
    requires
        cache.wf(),
        a != b,
    ensures
        stack_owned(cache.stacks@, a, uri) ==> !stack_owned(cache.stacks@, b, uri),
        card_owned(cache.cards@, a, uri) ==> !card_owned(cache.cards@, b, uri),
{
    if stack_owned(cache.stacks@, a, uri) && stack_owned(cache.stacks@, b, uri) {
        let i = choose|i: int| #[trigger] stack_at(cache.stacks@, uri, i) && cache.stacks@[i].author_did@ == a;
        let j = choose|j: int| #[trigger] stack_at(cache.stacks@, uri, j) && cache.stacks@[j].author_did@ == b;
        assert(cache.stacks@[i].uri@ == cache.stacks@[j].uri@);
    }
    if card_owned(cache.cards@, a, uri) && card_owned(cache.cards@, b, uri) {
        let i = choose|i: int| #[trigger] card_at(cache.cards@, uri, i) && cache.cards@[i].author_did@ == a;
        let j = choose|j: int| #[trigger] card_at(cache.cards@, uri, j) && cache.cards@[j].author_did@ == b;
        assert(cache.cards@[i].uri@ == cache.cards@[j].uri@);
    }
}

/// A clone step never creates a card twice: a card whose copy was recorded
/// keeps that copy. A success takes one card off the queue; a failure puts
/// the card back at the end of the queue, to be tried again.
pub proof fn clone_step_creates_once(
    before: CloneJob,
    after: CloneJob,
    outcome: Result<String, RemoteError>,
)
    requires
        before.wf(),
        before.queue@.len() > 0,
        outcome_recorded(before, after, outcome),
    ensures
        forall|i: int|
            0 <= i < before.created@.len() && (#[trigger] before.created@[i]) is Some
                ==> after.created@[i] == before.created@[i],
        outcome is Ok ==> after.queue@.len() == before.queue@.len() - 1,
        outcome is Err ==> after.queue@.len() == before.queue@.len() && after.queue@.last()
            == before.queue@[0],
{
    let f = before.queue@[0];
    assert(before.queue@.contains(f));
    assert(before.created@[f as int] is None);
}

/// A clone whose queue is empty has created every card of its source.
pub proof fn clone_done_creates_all(job: CloneJob)
    requires
        job.wf(),
        job.queue@.len() == 0,
    ensures
        forall|i: int| 0 <= i < job.cards@.len() ==> (#[trigger] job.created@[i]) is Some,
{
}

/// Once a stack is deleted from the cache none of its cards is left there;
/// the remote deletion that follows does not touch the cache.
pub proof fn delete_leaves_no_card(before: Seq<DbCard>, after: Seq<DbCard>, uri: Seq<char>)
    requires
        after == before.filter(card_outside_stack(uri)),
    ensures
        forall|k: int| 0 <= k < after.len() ==> (#[trigger] after[k]).stack_id@ != uri,
{
    broadcast use vstd::seq_lib::group_filter_ensures;

    assert forall|k: int| 0 <= k < after.len() implies (#[trigger] after[k]).stack_id@ != uri by {
        assert(card_outside_stack(uri)(after[k]));
    }
}

proof fn upsert_stack_twice(rows: Seq<DbStack>, row: DbStack)
    requires
        stacks_wf(upserted_stacks(rows, row)),
        !label_clash(rows, row),
    ensures
        !label_clash(upserted_stacks(rows, row), row),
        upserted_stacks(upserted_stacks(rows, row), row) == upserted_stacks(rows, row),
{
    let once = upserted_stacks(rows, row);
    let j = if has_stack(rows, row.uri@) {
        stack_pos(rows, row.uri@)
    } else {
        rows.len() as int
    };
    assert(stack_at(once, row.uri@, j));
    let p = stack_pos(once, row.uri@);
    if p != j {
        assert(once[p].uri@ != once[j].uri@);
    }
    if label_clash(once, row) {
        let k = choose|k: int|
            0 <= k < once.len() && (#[trigger] once[k]).author_did@ == row.author_did@
                && once[k].label@ == row.label@ && once[k].uri@ != row.uri@;
        assert(k != j);
        assert(once[k] == rows[k]);
    }
    assert(upserted_stacks(once, row) =~= once);
}

proof fn upsert_card_twice(rows: Seq<DbCard>, r1: DbCard, r2: DbCard)
    requires
        cards_unique(upserted_cards(rows, r1)),
        r1@ == r2@,
    ensures
        upserted_cards(upserted_cards(rows, r1), r2).map_values(|c: DbCard| c@) == upserted_cards(
            rows,
            r1,
        ).map_values(|c: DbCard| c@),
{
    let once = upserted_cards(rows, r1);
    let j = if has_card(rows, r1.uri@) {
        card_pos(rows, r1.uri@)
    } else {
        rows.len() as int
    };
    assert(card_at(once, r2.uri@, j));
    let p = card_pos(once, r2.uri@);
    if p != j {
        assert(once[p].uri@ != once[j].uri@);
    }
    let twice = upserted_cards(once, r2);
    assert(twice.map_values(|c: DbCard| c@) =~= once.map_values(|c: DbCard| c@));
}

/// Applying the same create or update change twice leaves the cache as
/// applying it once: the same stacks, and cards that hold the same values.
pub proof fn change_applied_twice(c0: CacheStore, c1: CacheStore, c2: CacheStore, e: ChangeEvent)
    requires
        c0.wf(),
        c1.wf(),
        e.operation != Operation::Delete,
        applied(c0, c1, e),
        applied(c1, c2, e),
    ensures
        c2.stacks@ == c1.stacks@,
        c2.cards@.map_values(|c: DbCard| c@) == c1.cards@.map_values(|c: DbCard| c@),
        c2.sessions@ == c1.sessions@,
        c2.states@ == c1.states@,
{
    match event_collection(e) {
        None => {},
        Some(Collection::Stack) => {
            match e.record {
                Some(KnownRecord::LexiconXyzFlatshcardsCardsStack(s)) => {
                    let row = crate::reconciler::stack_row_of_event(e, *s);
                    if !label_clash(c0.stacks@, row) {
                        upsert_stack_twice(c0.stacks@, row);
                    }
                },
                _ => {},
            }
        },
        Some(Collection::Card) => {
            match e.record {
                Some(KnownRecord::LexiconXyzFlatshcardsCardsCard(c)) => {
                    let r1 = choose|row: DbCard|
                        {
                            &&& #[trigger] crate::reconciler::card_row_of_event(row, e, *c)
                            &&& if has_stack(c0.stacks@, row.stack_id@) {
                                &&& c1.cards@ == upserted_cards(c0.cards@, row)
                                &&& c1.stacks@ == c0.stacks@
                                &&& c1.sessions@ == c0.sessions@
                                &&& c1.states@ == c0.states@
                            } else {
                                crate::cache::unchanged(c1, c0)
                            }
                        };
                    let r2 = choose|row: DbCard|
                        {
                            &&& #[trigger] crate::reconciler::card_row_of_event(row, e, *c)
                            &&& if has_stack(c1.stacks@, row.stack_id@) {
                                &&& c2.cards@ == upserted_cards(c1.cards@, row)
                                &&& c2.stacks@ == c1.stacks@
                                &&& c2.sessions@ == c1.sessions@
                                &&& c2.states@ == c1.states@
                            } else {
                                crate::cache::unchanged(c2, c1)
                            }
                        };
                    assert(r1@ == r2@);
                    if has_stack(c0.stacks@, r1.stack_id@) {
                        upsert_card_twice(c0.cards@, r1, r2);
                    }
                },
                _ => {},
            }
        },
    }
}

} // verus!
