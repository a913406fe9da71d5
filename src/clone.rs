//! Copying a stack and all of its cards to a new stack of the acting account.
//! The remote card creations go through a first-in first-out queue: a card
//! whose creation fails goes to the back of the queue and is tried again,
//! until every card has been created once.
use std::collections::VecDeque;
use vstd::prelude::*;

use crate::cache::{card_clone_of, card_in_stack, has_card, has_stack, stack_pos, CacheStore};
use crate::clock::{now_micros, record_datetime_now};
use crate::coordinator::{RemoteError, RemoteRequest, WriteError};
use crate::db::{clone_opt, CardCloneData, DbCard, DbStack, StackArgs, StackCloneData};
use crate::records::{is_record_key_of, record_key_of, Card, Collection, KnownRecord, Stack};

verus! {

/// First step of a clone: what to copy of the stack `src_uri`, and the
/// request that creates the new stack record in the acting account's
/// repository. Anyone may clone any stack. Fails with `NotFound` when the
/// stack is not in the cache.
pub fn begin_clone(cache: &CacheStore, author_did: &str, src_uri: &str) -> (r: Result<
    (StackCloneData, RemoteRequest),
    WriteError,
>)
    requires
        cache.wf(),
    ensures
        !has_stack(cache.stacks@, src_uri@) ==> (r matches Err(WriteError::NotFound)),
        has_stack(cache.stacks@, src_uri@) ==> (r matches Ok((d, req)) && {
            let s = cache.stacks@[stack_pos(cache.stacks@, src_uri@)];
            &&& d.back_lang == s.back_lang
            &&& d.front_lang == s.front_lang
            &&& d.label == s.label
            &&& req matches RemoteRequest::Create { collection, repo, record }
            &&& collection == Collection::Stack
            &&& repo@ == author_did@
            &&& record matches KnownRecord::LexiconXyzFlatshcardsCardsStack(st)
            &&& st.back_lang == d.back_lang && st.front_lang == d.front_lang && st.label == d.label
        }),
{
    match DbStack::get_clone_data(src_uri, cache) {
        None => Err(WriteError::NotFound),
        Some(d) => {
            let record = KnownRecord::LexiconXyzFlatshcardsCardsStack(
                Box::new(
                    Stack {
                        back_lang: clone_opt(&d.back_lang),
                        created_at: record_datetime_now(),
                        front_lang: clone_opt(&d.front_lang),
                        label: d.label.clone(),
                    },
                ),
            );
            let req = RemoteRequest::Create {
                collection: Collection::Stack,
                repo: author_did.to_owned(),
                record,
            };
            Ok((d, req))
        },
    }
}

/// A clone under way: the cards to copy into the new stack, the queue of
/// the positions of those not yet created remotely, and for each card the
/// URI of its remote copy once it exists.
pub struct CloneJob {
    pub author_did: String,
    pub new_stack_uri: String,
    pub cards: Vec<CardCloneData>,
    pub queue: VecDeque<usize>,
    pub created: Vec<Option<String>>,
    pub first_error: Option<RemoteError>,
}

/// How a clone ended: the new stack, and the first remote failure met on
/// the way, if any (every card was created in the end all the same).
#[derive(Clone, Debug)]
pub struct CloneReport {
    pub new_stack_uri: String,
    pub first_error: Option<RemoteError>,
}

/// `row` is the cache row of the copy `uri` of the card `c`, in the stack
/// `stack_uri` of `author`.
pub open spec fn cloned_card_row(
    row: DbCard,
    c: CardCloneData,
    author: Seq<char>,
    stack_uri: Seq<char>,
    uri: Seq<char>,
) -> bool {
    &&& row.uri@ == uri
    &&& row.author_did@ == author
    &&& row.back_lang == c.back_lang
    &&& row.back_text == c.back_text
    &&& row.front_lang == c.front_lang
    &&& row.front_text == c.front_text
    &&& row.stack_id@ == stack_uri
    &&& row.created_at == row.indexed_at
}

/// The job `after` is the job `before` once the outcome of the request for
/// the card at the front of its queue was taken: on success the card leaves
/// the queue and its copy is recorded; on failure it goes to the back of the
/// queue and the failure is kept when it is the first.
pub open spec fn outcome_recorded(
    before: CloneJob,
    after: CloneJob,
    outcome: Result<String, RemoteError>,
) -> bool {
    let i = before.queue@[0];
    &&& after.cards@ == before.cards@
    &&& after.author_did == before.author_did
    &&& after.new_stack_uri == before.new_stack_uri
    &&& match outcome {
        Ok(uri) => {
            &&& after.queue@ == before.queue@.drop_first()
            &&& after.created@ == before.created@.update(i as int, Some(uri))
            &&& after.first_error == before.first_error
        },
        Err(e) => {
            &&& after.queue@ == before.queue@.drop_first().push(i)
            &&& after.created@ == before.created@
            &&& after.first_error == if before.first_error is Some {
                before.first_error
            } else {
                Some(e)
            }
        },
    }
}

impl CloneJob {
    /// Each card is either waiting in the queue, once, or created.
    pub open spec fn wf(&self) -> bool {
        &&& self.created@.len() == self.cards@.len()
        &&& self.cards@.len() <= usize::MAX
        &&& self.queue@.no_duplicates()
        &&& forall|k: int| 0 <= k < self.queue@.len() ==> #[trigger] self.queue@[k] < self.cards@.len()
        &&& forall|i: int|
            0 <= i < self.cards@.len() ==> ((#[trigger] self.created@[i]) is None
                <==> self.queue@.contains(i as usize))
    }

    /// Second step of a clone, once the new stack `new_stack_uri` exists
    /// remotely: mirrors it into the cache (unless the cache refuses it) and
    /// queues every card of the stack `src_uri`, in the order of the table.
    pub fn start(
        cache: &mut CacheStore,
        author_did: &str,
        src_uri: &str,
        data: &StackCloneData,
        new_stack_uri: String,
    ) -> (r: CloneJob)
        requires
            old(cache).wf(),
        ensures
            final(cache).wf(),
            r.wf(),
            r.author_did@ == author_did@,
            r.new_stack_uri == new_stack_uri,
            r.cards@ == old(cache).cards@.filter(card_in_stack(src_uri@)).map_values(
                |c: crate::db::DbCard| card_clone_of(c),
            ),
            r.queue@.len() == r.cards@.len(),
            forall|k: int| 0 <= k < r.queue@.len() ==> #[trigger] r.queue@[k] == k,
            r.first_error is None,
            exists|row: DbStack|
                {
                    &&& #[trigger] row.uri == new_stack_uri
                    &&& row.author_did@ == author_did@
                    &&& row.back_lang == data.back_lang
                    &&& row.front_lang == data.front_lang
                    &&& row.label == data.label
                    &&& row.created_at == row.indexed_at
                    &&& if !has_stack(old(cache).stacks@, new_stack_uri@)
                        && !crate::cache::label_clash(old(cache).stacks@, row) {
                        final(cache).stacks@ == old(cache).stacks@.push(row)
                    } else {
                        final(cache).stacks@ == old(cache).stacks@
                    }
                },
            final(cache).cards@ == old(cache).cards@,
            final(cache).sessions@ == old(cache).sessions@,
            final(cache).states@ == old(cache).states@,
    {
        let cards = DbCard::get_clone_data(src_uri, cache);
        let row = DbStack::new(
            StackArgs {
                uri: new_stack_uri.clone(),
                author_did: author_did.to_owned(),
                back_lang: clone_opt(&data.back_lang),
                front_lang: clone_opt(&data.front_lang),
                label: data.label.clone(),
                indexed_at: None,
            },
        );
        let _ = row.save(cache);
        let n = cards.len();
        let mut queue: VecDeque<usize> = VecDeque::new();
        let mut created: Vec<Option<String>> = Vec::new();
        let mut i: usize = 0;
        while i < n
            invariant
                i <= n,
                queue@.len() == i,
                created@.len() == i,
                forall|k: int| 0 <= k < i ==> #[trigger] queue@[k] == k,
                forall|k: int| 0 <= k < i ==> (#[trigger] created@[k]) is None,
            decreases n - i,
        {
            queue.push_back(i);
            created.push(None);
            i = i + 1;
        }
        let job = CloneJob {
            author_did: author_did.to_owned(),
            new_stack_uri,
            cards,
            queue,
            created,
            first_error: None,
        };
        proof {
            assert forall|k: int| 0 <= k < n implies (#[trigger] job.created@[k]) is None
                <==> job.queue@.contains(k as usize) by {
                assert(job.queue@[k] == k as usize);
            }
            assert forall|a: int, b: int|
                0 <= a < job.queue@.len() && 0 <= b < job.queue@.len() && a != b implies job.queue@[a]
                != job.queue@[b] by {
                assert(job.queue@[a] == a);
                assert(job.queue@[b] == b);
            }
        }
        job
    }

    /// Whether every card has been created.
    pub fn is_done(&self) -> (r: bool)
        ensures
            r == (self.queue@.len() == 0),
    {
        self.queue.len() == 0
    }

    /// The request for the card at the front of the queue: create its copy in
    /// the new stack. `None` when the queue is empty.
    pub fn next_request(&self) -> (r: Option<RemoteRequest>)
        requires
            self.wf(),
        ensures
            self.queue@.len() == 0 <==> r is None,
            r matches Some(req) ==> ({
                let c = self.cards@[self.queue@[0] as int];
                &&& req matches RemoteRequest::Create { collection, repo, record }
                &&& collection == Collection::Card
                &&& repo == self.author_did
                &&& record matches KnownRecord::LexiconXyzFlatshcardsCardsCard(card)
                &&& card.back_lang == c.back_lang && card.back_text == c.back_text
                &&& card.front_lang == c.front_lang && card.front_text == c.front_text
                &&& is_record_key_of(self.new_stack_uri@, card.stack_id@)
            }),
    {
        if self.queue.len() == 0 {
            return None;
        }
        let i = self.queue[0];
        let c = &self.cards[i];
        let record = KnownRecord::LexiconXyzFlatshcardsCardsCard(
            Box::new(
                Card {
                    back_lang: c.back_lang.clone(),
                    back_text: c.back_text.clone(),
                    created_at: record_datetime_now(),
                    front_lang: c.front_lang.clone(),
                    front_text: c.front_text.clone(),
                    stack_id: record_key_of(self.new_stack_uri.as_str()).to_owned(),
                },
            ),
        );
        Some(
            RemoteRequest::Create {
                collection: Collection::Card,
                repo: self.author_did.clone(),
                record,
            },
        )
    }

    /// Takes the outcome of the request for the card at the front of the
    /// queue. On success the card leaves the queue, its copy is recorded and
    /// mirrored into the cache (unless the cache refuses the row); on failure
    /// the card goes to the back of the queue, and the failure is kept when
    /// it is the first.
    pub fn record_outcome(&mut self, cache: &mut CacheStore, outcome: Result<String, RemoteError>)
        requires
            old(self).wf(),
            old(self).queue@.len() > 0,
            old(cache).wf(),
        ensures
            final(self).wf(),
            final(cache).wf(),
            final(self).cards@ == old(self).cards@,
            final(self).author_did == old(self).author_did,
            final(self).new_stack_uri == old(self).new_stack_uri,
            outcome_recorded(*old(self), *final(self), outcome),
            ({
                let i = old(self).queue@[0];
                match outcome {
                    Ok(uri) => {
                        &&& exists|row: DbCard|
                            {
                                &&& #[trigger] cloned_card_row(
                                    row,
                                    old(self).cards@[i as int],
                                    old(self).author_did@,
                                    old(self).new_stack_uri@,
                                    uri@,
                                )
                                &&& if !has_card(old(cache).cards@, uri@) && has_stack(
                                    old(cache).stacks@,
                                    old(self).new_stack_uri@,
                                ) {
                                    final(cache).cards@ == old(cache).cards@.push(row)
                                } else {
                                    final(cache).cards@ == old(cache).cards@
                                }
                            }
                    },
                    Err(_) => final(cache).cards@ == old(cache).cards@,
                }
            }),
            final(cache).stacks@ == old(cache).stacks@,
            final(cache).sessions@ == old(cache).sessions@,
            final(cache).states@ == old(cache).states@,
    {
        let ghost q0 = self.queue@;
        let ghost c0 = self.created@;
        let popped = self.queue.pop_front();
        let i = match popped {
            Some(i) => i,
            None => 0,
        };
        assert(q0[0] == i);
        assert(self.queue@ =~= q0.drop_first());
        assert(!self.queue@.contains(i)) by {
            if self.queue@.contains(i) {
                let k = choose|k: int| 0 <= k < self.queue@.len() && self.queue@[k] == i;
                assert(q0[k + 1] == q0[0]);
            }
        }
        match outcome {
            Ok(uri) => {
                let c = &self.cards[i];
                let t = now_micros();
                let row = DbCard {
                    uri: uri.clone(),
                    author_did: self.author_did.clone(),
                    back_lang: c.back_lang.clone(),
                    back_text: c.back_text.clone(),
                    front_lang: c.front_lang.clone(),
                    front_text: c.front_text.clone(),
                    created_at: t,
                    indexed_at: t,
                    stack_id: self.new_stack_uri.clone(),
                };
                assert(cloned_card_row(
                    row,
                    self.cards@[i as int],
                    self.author_did@,
                    self.new_stack_uri@,
                    uri@,
                ));
                let _ = row.save(cache);
                self.created.set(i, Some(uri));
                proof {
                    assert forall|j: int| 0 <= j < self.cards@.len() implies ((
                    #[trigger] self.created@[j]) is None <==> self.queue@.contains(j as usize)) by {
                        if j != i {
                            assert(c0[j] == self.created@[j]);
                            if q0.contains(j as usize) {
                                let k = choose|k: int| 0 <= k < q0.len() && q0[k] == j as usize;
                                if k == 0 {
                                    assert(q0[0] == i);
                                    assert(j == i as int);
                                }
                                assert(self.queue@[k - 1] == j as usize);
                            }
                            if self.queue@.contains(j as usize) {
                                let k = choose|k: int|
                                    0 <= k < self.queue@.len() && self.queue@[k] == j as usize;
                                assert(q0[k + 1] == j as usize);
                            }
                        }
                    }
                    assert forall|a: int, b: int|
                        0 <= a < self.queue@.len() && 0 <= b < self.queue@.len() && a != b implies self.queue@[a]
                        != self.queue@[b] by {
                        assert(self.queue@[a] == q0[a + 1]);
                        assert(self.queue@[b] == q0[b + 1]);
                    }
                    assert forall|k: int| 0 <= k < self.queue@.len() implies #[trigger] self.queue@[k]
                        < self.cards@.len() by {
                        assert(self.queue@[k] == q0[k + 1]);
                    }
                }
            },
            Err(e) => {
                self.queue.push_back(i);
                if self.first_error.is_none() {
                    self.first_error = Some(e);
                }
                proof {
                    let q = self.queue@;
                    assert(q[q.len() - 1] == i);
                    assert forall|j: int| 0 <= j < self.cards@.len() implies ((
                    #[trigger] self.created@[j]) is None <==> q.contains(j as usize)) by {
                        if j == i {
                            assert(q[q.len() - 1] == j as usize);
                        } else {
                            if q0.contains(j as usize) {
                                let k = choose|k: int| 0 <= k < q0.len() && q0[k] == j as usize;
                                if k == 0 {
                                    assert(q0[0] == i);
                                    assert(j == i as int);
                                }
                                assert(q[k - 1] == j as usize);
                            }
                            if q.contains(j as usize) {
                                let k = choose|k: int| 0 <= k < q.len() && q[k] == j as usize;
                                assert(k != q.len() - 1);
                                assert(q0[k + 1] == j as usize);
                            }
                        }
                    }
                    assert forall|a: int, b: int|
                        0 <= a < q.len() && 0 <= b < q.len() && a != b implies q[a] != q[b] by {
                        if a == q.len() - 1 {
                            assert(q[b] == q0[b + 1]);
                        } else if b == q.len() - 1 {
                            assert(q[a] == q0[a + 1]);
                        } else {
                            assert(q[a] == q0[a + 1]);
                            assert(q[b] == q0[b + 1]);
                        }
                    }
                    assert forall|k: int| 0 <= k < q.len() implies #[trigger] q[k] < self.cards@.len() by {
                        if k < q.len() - 1 {
                            assert(q[k] == q0[k + 1]);
                        }
                    }
                }
            },
        }
    }

    /// Last step of a clone, once the queue is empty: the new stack, and the
    /// first failure met on the way.
    pub fn finish(self) -> (r: CloneReport)
        ensures
            r.new_stack_uri == self.new_stack_uri,
            r.first_error == self.first_error,
    {
        CloneReport { new_stack_uri: self.new_stack_uri, first_error: self.first_error }
    }
}

} // verus!
