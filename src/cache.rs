//! The local cache store: the stack and card tables with the constraints of
//! their schema, and the two key/value tables of the authentication layer.
use vstd::prelude::*;

use crate::db::{
    clone_opt, AuthSession, AuthState, CardCloneData, DbCard, DbStack, DisplayCard,
    StackCloneData, StackDetails, StackUpdateArgs,
};

verus! {

/// Why the cache refused a write.
#[derive(Clone, Copy, Debug, PartialEq, Eq, Structural)]
pub enum CacheError {
    /// A row with this URI is already there.
    DuplicateUri,
    /// The author already has a stack with this label.
    DuplicateLabel,
    /// The card's stack is not in the cache.
    MissingStack,
}

/// The cache: four tables held as rows.
pub struct CacheStore {
    pub stacks: Vec<DbStack>,
    pub cards: Vec<DbCard>,
    pub sessions: Vec<AuthSession>,
    pub states: Vec<AuthState>,
}

/// Row `i` of `rows` is the stack `uri`.
pub open spec fn stack_at(rows: Seq<DbStack>, uri: Seq<char>, i: int) -> bool {
    0 <= i < rows.len() && rows[i].uri@ == uri
}

/// The stack `uri` has a row.
pub open spec fn has_stack(rows: Seq<DbStack>, uri: Seq<char>) -> bool {
    exists|i: int| #[trigger] stack_at(rows, uri, i)
}

/// The position of the stack `uri`, where it has a row.
pub open spec fn stack_pos(rows: Seq<DbStack>, uri: Seq<char>) -> int {
    choose|i: int| #[trigger] stack_at(rows, uri, i)
}

/// The stack `uri` has a row whose author is `author`.
pub open spec fn stack_owned(rows: Seq<DbStack>, author: Seq<char>, uri: Seq<char>) -> bool {
    exists|i: int| #[trigger] stack_at(rows, uri, i) && rows[i].author_did@ == author
}

/// Another stack than `row` has the author and the label of `row`.
pub open spec fn label_clash(rows: Seq<DbStack>, row: DbStack) -> bool {
    exists|i: int|
        0 <= i < rows.len() && (#[trigger] rows[i]).author_did@ == row.author_did@
            && rows[i].label@ == row.label@ && rows[i].uri@ != row.uri@
}

/// Row `i` of `rows` is the card `uri`.
pub open spec fn card_at(rows: Seq<DbCard>, uri: Seq<char>, i: int) -> bool {
    0 <= i < rows.len() && rows[i].uri@ == uri
}

/// The card `uri` has a row.
pub open spec fn has_card(rows: Seq<DbCard>, uri: Seq<char>) -> bool {
    exists|i: int| #[trigger] card_at(rows, uri, i)
}

/// The position of the card `uri`, where it has a row.
pub open spec fn card_pos(rows: Seq<DbCard>, uri: Seq<char>) -> int {
    choose|i: int| #[trigger] card_at(rows, uri, i)
}

/// The card `uri` has a row whose author is `author`.
pub open spec fn card_owned(rows: Seq<DbCard>, author: Seq<char>, uri: Seq<char>) -> bool {
    exists|i: int| #[trigger] card_at(rows, uri, i) && rows[i].author_did@ == author
}

/// Stack rows: URIs unique, and each author's labels unique.
pub open spec fn stacks_wf(rows: Seq<DbStack>) -> bool {
    forall|i: int, j: int|
        0 <= i < rows.len() && 0 <= j < rows.len() && i != j ==> {
            &&& (#[trigger] rows[i]).uri@ != (#[trigger] rows[j]).uri@
            &&& !(rows[i].author_did@ == rows[j].author_did@ && rows[i].label@ == rows[j].label@)
        }
}

/// Card rows: URIs unique. Language pairs are not: a stack holds many cards
/// of one pair, and a clone copies the pairs of its source.
pub open spec fn cards_unique(rows: Seq<DbCard>) -> bool {
    forall|i: int, j: int|
        0 <= i < rows.len() && 0 <= j < rows.len() && i != j ==> (#[trigger] rows[i]).uri@
            != (#[trigger] rows[j]).uri@
}

/// Card rows: unique, and each card's stack present.
pub open spec fn cards_wf(rows: Seq<DbCard>, stacks: Seq<DbStack>) -> bool {
    &&& cards_unique(rows)
    &&& forall|i: int| 0 <= i < rows.len() ==> has_stack(stacks, (#[trigger] rows[i]).stack_id@)
}

/// Session rows: keys unique.
pub open spec fn sessions_wf(rows: Seq<AuthSession>) -> bool {
    forall|i: int, j: int|
        0 <= i < rows.len() && 0 <= j < rows.len() && i != j ==> (#[trigger] rows[i]).key@
            != (#[trigger] rows[j]).key@
}

/// State rows: keys unique.
pub open spec fn states_wf(rows: Seq<AuthState>) -> bool {
    forall|i: int, j: int|
        0 <= i < rows.len() && 0 <= j < rows.len() && i != j ==> (#[trigger] rows[i]).key@
            != (#[trigger] rows[j]).key@
}

/// The stacks after `row` was written over the row of its URI, keeping that
/// row's creation time, or added when there was none.
pub open spec fn upserted_stacks(rows: Seq<DbStack>, row: DbStack) -> Seq<DbStack> {
    if has_stack(rows, row.uri@) {
        let i = stack_pos(rows, row.uri@);
        rows.update(i, DbStack { created_at: rows[i].created_at, ..row })
    } else {
        rows.push(row)
    }
}

/// The cards after `row` was written over the row of its URI, keeping that
/// row's creation time, or added when there was none.
pub open spec fn upserted_cards(rows: Seq<DbCard>, row: DbCard) -> Seq<DbCard> {
    if has_card(rows, row.uri@) {
        let i = card_pos(rows, row.uri@);
        rows.update(i, DbCard { created_at: rows[i].created_at, ..row })
    } else {
        rows.push(row)
    }
}

/// Keeps the stacks other than `uri`.
pub open spec fn stack_other_than(uri: Seq<char>) -> spec_fn(DbStack) -> bool {
    |s: DbStack| s.uri@ != uri
}

/// Keeps the cards that are not in the stack `uri`.
pub open spec fn card_outside_stack(uri: Seq<char>) -> spec_fn(DbCard) -> bool {
    |c: DbCard| c.stack_id@ != uri
}

/// Keeps the cards other than `uri`.
pub open spec fn card_other_than(uri: Seq<char>) -> spec_fn(DbCard) -> bool {
    |c: DbCard| c.uri@ != uri
}

/// The list entry of a stack row.
pub open spec fn details_of(s: DbStack) -> StackDetails {
    StackDetails { uri: s.uri, back_lang: s.back_lang, front_lang: s.front_lang, label: s.label }
}

/// The display entry of a card row.
pub open spec fn display_of(c: DbCard) -> DisplayCard {
    DisplayCard {
        uri: c.uri,
        back_lang: c.back_lang,
        back_text: c.back_text,
        front_lang: c.front_lang,
        front_text: c.front_text,
    }
}

/// The part of a card row that a clone copies.
pub open spec fn card_clone_of(c: DbCard) -> CardCloneData {
    CardCloneData {
        back_lang: c.back_lang,
        back_text: c.back_text,
        front_lang: c.front_lang,
        front_text: c.front_text,
    }
}

/// Selects the stacks of the author `did`.
pub open spec fn stack_by(did: Seq<char>) -> spec_fn(DbStack) -> bool {
    |s: DbStack| s.author_did@ == did
}

/// Selects the cards of the stack `uri`.
pub open spec fn card_in_stack(uri: Seq<char>) -> spec_fn(DbCard) -> bool {
    |c: DbCard| c.stack_id@ == uri
}

impl CacheStore {
    /// The tables meet the constraints of the schema.
    pub open spec fn wf(&self) -> bool {
        &&& stacks_wf(self.stacks@)
        &&& cards_wf(self.cards@, self.stacks@)
        &&& sessions_wf(self.sessions@)
        &&& states_wf(self.states@)
    }

    /// An empty cache.
    pub fn new() -> (r: CacheStore)
        ensures
            r.wf(),
            r.stacks@.len() == 0,
            r.cards@.len() == 0,
            r.sessions@.len() == 0,
            r.states@.len() == 0,
    {
        CacheStore { stacks: Vec::new(), cards: Vec::new(), sessions: Vec::new(), states: Vec::new() }
    }

    /// The position of the stack `uri`, if it has a row.
    pub fn find_stack(&self, uri: &String) -> (r: Option<usize>)
        requires
            self.wf(),
        ensures
            r matches Some(i) ==> stack_at(self.stacks@, uri@, i as int) && i as int == stack_pos(
                self.stacks@,
                uri@,
            ),
            r is None <==> !has_stack(self.stacks@, uri@),
    {
        let mut i: usize = 0;
        while i < self.stacks.len()
            invariant
                i <= self.stacks@.len(),
                stacks_wf(self.stacks@),
                forall|k: int| 0 <= k < i ==> !#[trigger] stack_at(self.stacks@, uri@, k),
            decreases self.stacks@.len() - i,
        {
            if self.stacks[i].uri.eq(uri) {
                assert(stack_at(self.stacks@, uri@, i as int));
                let ghost j = stack_pos(self.stacks@, uri@);
                assert(stack_at(self.stacks@, uri@, j));
                assert(self.stacks@[j].uri@ == self.stacks@[i as int].uri@);
                return Some(i);
            }
            i = i + 1;
        }
        None
    }

    /// Whether some stack other than `row` has the author and label of `row`.
    fn stack_label_clash(&self, row: &DbStack) -> (r: bool)
        ensures
            r == label_clash(self.stacks@, *row),
    {
        let mut i: usize = 0;
        while i < self.stacks.len()
            invariant
                i <= self.stacks@.len(),
                forall|k: int|
                    0 <= k < i ==> !((#[trigger] self.stacks@[k]).author_did@ == row.author_did@
                        && self.stacks@[k].label@ == row.label@ && self.stacks@[k].uri@
                        != row.uri@),
            decreases self.stacks@.len() - i,
        {
            let s = &self.stacks[i];
            if s.author_did.eq(&row.author_did) && s.label.eq(&row.label) && !s.uri.eq(&row.uri) {
                assert(self.stacks@[i as int] == *s);
                return true;
            }
            i = i + 1;
        }
        false
    }
}

/// Every URI with a row in `a` has one in `b` as well.
pub open spec fn stack_uris_kept(a: Seq<DbStack>, b: Seq<DbStack>) -> bool {
    forall|uri: Seq<char>| has_stack(a, uri) ==> #[trigger] has_stack(b, uri)
}

proof fn lemma_stack_uris_kept(a: Seq<DbStack>, b: Seq<DbStack>)
    requires
        a.len() <= b.len(),
        forall|i: int| 0 <= i < a.len() ==> (#[trigger] b[i]).uri@ == a[i].uri@,
    ensures
        stack_uris_kept(a, b),
{
    assert forall|uri: Seq<char>| has_stack(a, uri) implies #[trigger] has_stack(b, uri) by {
        let i = choose|i: int| stack_at(a, uri, i);
        assert(b[i].uri@ == a[i].uri@);
        assert(stack_at(b, uri, i));
    }
}

proof fn lemma_cards_follow_stacks(cards: Seq<DbCard>, a: Seq<DbStack>, b: Seq<DbStack>)
    requires
        cards_wf(cards, a),
        stack_uris_kept(a, b),
    ensures
        cards_wf(cards, b),
{
    assert forall|i: int| 0 <= i < cards.len() implies has_stack(b, (#[trigger] cards[i]).stack_id@) by {
        assert(has_stack(a, cards[i].stack_id@));
    }
}

/// The row that `row` becomes when it is written over an existing row that
/// was created at `created_at`.
pub open spec fn stack_rewritten(row: DbStack, created_at: i64) -> DbStack {
    DbStack { created_at: created_at, ..row }
}

impl DbStack {
    /// Inserts this row. Fails when its URI is taken, or when its author
    /// already has a stack with its label.
    pub fn save(&self, cache: &mut CacheStore) -> (r: Result<(), CacheError>)
        requires
            old(cache).wf(),
        ensures
            final(cache).wf(),
            r == (if has_stack(old(cache).stacks@, self.uri@) {
                Err(CacheError::DuplicateUri)
            } else if label_clash(old(cache).stacks@, *self) {
                Err(CacheError::DuplicateLabel)
            } else {
                Ok(())
            }),
            r is Ok ==> final(cache).stacks@ == old(cache).stacks@.push(*self),
            r is Err ==> final(cache).stacks@ == old(cache).stacks@,
            final(cache).cards@ == old(cache).cards@,
            final(cache).sessions@ == old(cache).sessions@,
            final(cache).states@ == old(cache).states@,
    {
        if cache.find_stack(&self.uri).is_some() {
            return Err(CacheError::DuplicateUri);
        }
        if cache.stack_label_clash(self) {
            return Err(CacheError::DuplicateLabel);
        }
        let ghost before = cache.stacks@;
        cache.stacks.push(self.duplicate());
        proof {
            let after = cache.stacks@;
            assert forall|i: int, j: int|
                0 <= i < after.len() && 0 <= j < after.len() && i != j implies {
                &&& (#[trigger] after[i]).uri@ != (#[trigger] after[j]).uri@
                &&& !(after[i].author_did@ == after[j].author_did@ && after[i].label@
                    == after[j].label@)
            } by {
                if i == before.len() {
                    assert(!stack_at(before, self.uri@, j));
                    assert(before[j] == after[j]);
                } else if j == before.len() {
                    assert(!stack_at(before, self.uri@, i));
                    assert(before[i] == after[i]);
                }
            }
            lemma_stack_uris_kept(before, after);
            lemma_cards_follow_stacks(cache.cards@, before, after);
        }
        Ok(())
    }

    /// Writes this row over the row of its URI, keeping that row's creation
    /// time, or inserts it when there is none. Fails when another stack of
    /// its author has its label.
    pub fn upsert(&self, cache: &mut CacheStore) -> (r: Result<(), CacheError>)
        requires
            old(cache).wf(),
        ensures
            final(cache).wf(),
            r == (if label_clash(old(cache).stacks@, *self) {
                Err(CacheError::DuplicateLabel)
            } else {
                Ok(())
            }),
            r is Ok ==> final(cache).stacks@ == upserted_stacks(old(cache).stacks@, *self),
            r is Err ==> final(cache).stacks@ == old(cache).stacks@,
            final(cache).cards@ == old(cache).cards@,
            final(cache).sessions@ == old(cache).sessions@,
            final(cache).states@ == old(cache).states@,
    {
        if cache.stack_label_clash(self) {
            return Err(CacheError::DuplicateLabel);
        }
        match cache.find_stack(&self.uri) {
            None => {
                let r = self.save(cache);
                r
            },
            Some(i) => {
                let ghost before = cache.stacks@;
                let mut row = self.duplicate();
                row.created_at = cache.stacks[i].created_at;
                assert(row == stack_rewritten(*self, before[i as int].created_at));
                cache.stacks.set(i, row);
                proof {
                    let after = cache.stacks@;
                    assert(after == before.update(i as int, row));
                    assert forall|a: int, b: int|
                        0 <= a < after.len() && 0 <= b < after.len() && a != b implies {
                        &&& (#[trigger] after[a]).uri@ != (#[trigger] after[b]).uri@
                        &&& !(after[a].author_did@ == after[b].author_did@ && after[a].label@
                            == after[b].label@)
                    } by {
                        if a == i {
                            assert(before[b] == after[b]);
                            assert(before[b].uri@ != before[a].uri@);
                        } else if b == i {
                            assert(before[a] == after[a]);
                            assert(before[b].uri@ != before[a].uri@);
                        } else {
                            assert(before[a] == after[a]);
                            assert(before[b] == after[b]);
                        }
                    }
                    lemma_stack_uris_kept(before, after);
                    lemma_cards_follow_stacks(cache.cards@, before, after);
                }
                Ok(())
            },
        }
    }

    /// Whether the stack `stack_uri` has a row whose author is `author_did`.
    /// An unknown URI is not owned.
    pub fn is_owned_by(author_did: &str, stack_uri: &str, cache: &CacheStore) -> (r: bool)
        requires
            cache.wf(),
        ensures
            r == stack_owned(cache.stacks@, author_did@, stack_uri@),
    {
        let uri = stack_uri.to_owned();
        let author = author_did.to_owned();
        match cache.find_stack(&uri) {
            None => false,
            Some(i) => {
                let r = cache.stacks[i].author_did.eq(&author);
                proof {
                    if !r {
                        assert forall|j: int| #[trigger]
                            stack_at(cache.stacks@, stack_uri@, j) implies cache.stacks@[j].author_did@
                            != author_did@ by {
                            if j != i {
                                assert(cache.stacks@[j].uri@ != cache.stacks@[i as int].uri@);
                            }
                        }
                    }
                }
                r
            },
        }
    }

    /// The list entry of the stack `stack_uri`, when `author_did` owns it.
    pub fn get_owned_by(author_did: &str, stack_uri: &str, cache: &CacheStore) -> (r: Option<
        StackDetails,
    >)
        requires
            cache.wf(),
        ensures
            r is Some <==> stack_owned(cache.stacks@, author_did@, stack_uri@),
            r matches Some(d) ==> d == details_of(
                cache.stacks@[stack_pos(cache.stacks@, stack_uri@)],
            ),
    {
        if !DbStack::is_owned_by(author_did, stack_uri, cache) {
            return None;
        }
        let uri = stack_uri.to_owned();
        match cache.find_stack(&uri) {
            None => None,
            Some(i) => Some(details(&cache.stacks[i])),
        }
    }

    /// What a clone copies of the stack `stack_uri`, when it has a row.
    pub fn get_clone_data(stack_uri: &str, cache: &CacheStore) -> (r: Option<StackCloneData>)
        requires
            cache.wf(),
        ensures
            r is Some <==> has_stack(cache.stacks@, stack_uri@),
            r matches Some(d) ==> {
                let s = cache.stacks@[stack_pos(cache.stacks@, stack_uri@)];
                d == StackCloneData { back_lang: s.back_lang, front_lang: s.front_lang, label: s.label }
            },
    {
        let uri = stack_uri.to_owned();
        match cache.find_stack(&uri) {
            None => None,
            Some(i) => {
                let s = &cache.stacks[i];
                Some(
                    StackCloneData {
                        back_lang: clone_opt(&s.back_lang),
                        front_lang: clone_opt(&s.front_lang),
                        label: s.label.clone(),
                    },
                )
            },
        }
    }
}

/// The list entry of a stack row.
pub fn details(s: &DbStack) -> (r: StackDetails)
    ensures
        r == details_of(*s),
{
    StackDetails {
        uri: s.uri.clone(),
        back_lang: clone_opt(&s.back_lang),
        front_lang: clone_opt(&s.front_lang),
        label: s.label.clone(),
    }
}

impl StackDetails {
    /// The stacks of the author `did`, in the order of the table.
    pub fn user_stacks(did: &str, cache: &CacheStore) -> (r: Vec<StackDetails>)
        ensures
            r@ == cache.stacks@.filter(stack_by(did@)).map_values(|s: DbStack| details_of(s)),
    {
        let ghost p = stack_by(did@);
        let author = did.to_owned();
        let mut r: Vec<StackDetails> = Vec::new();
        let mut i: usize = 0;
        while i < cache.stacks.len()
            invariant
                i <= cache.stacks@.len(),
                author@ == did@,
                p == stack_by(did@),
                r@ == cache.stacks@.subrange(0, i as int).filter(p).map_values(
                    |s: DbStack| details_of(s),
                ),
            decreases cache.stacks@.len() - i,
        {
            let ghost prefix = cache.stacks@.subrange(0, i as int);
            let ghost x = cache.stacks@[i as int];
            assert(cache.stacks@.subrange(0, i + 1) =~= prefix.push(x));
            proof {
                prefix.lemma_filter_push(x, p);
            }
            if cache.stacks[i].author_did.eq(&author) {
                r.push(details(&cache.stacks[i]));
                assert(r@ =~= prefix.push(x).filter(p).map_values(|s: DbStack| details_of(s)));
            } else {
                assert(r@ =~= prefix.push(x).filter(p).map_values(|s: DbStack| details_of(s)));
            }
            i = i + 1;
        }
        assert(cache.stacks@.subrange(0, i as int) =~= cache.stacks@);
        r
    }
}

/// Every row of `b` is a row of `a`.
pub open spec fn rows_from<T>(b: Seq<T>, a: Seq<T>) -> bool {
    forall|k: int| 0 <= k < b.len() ==> a.contains(#[trigger] b[k])
}

/// Keeps the stack rows that `stack_other_than(uri)` keeps.
fn retain_stacks(rows: &mut Vec<DbStack>, uri: &String)
    requires
        stacks_wf(old(rows)@),
    ensures
        final(rows)@ == old(rows)@.filter(stack_other_than(uri@)),
        stacks_wf(final(rows)@),
{
    let ghost p = stack_other_than(uri@);
    let ghost src = rows@;
    let mut kept: Vec<DbStack> = Vec::new();
    let ghost mut idx: Seq<int> = Seq::empty();
    let mut i: usize = 0;
    while i < rows.len()
        invariant
            rows@ == src,
            stacks_wf(src),
            p == stack_other_than(uri@),
            i <= src.len(),
            kept@ == src.subrange(0, i as int).filter(p),
            idx.len() == kept@.len(),
            forall|k: int| 0 <= k < idx.len() ==> 0 <= #[trigger] idx[k] < i && kept@[k] == src[idx[k]],
            forall|k1: int, k2: int| 0 <= k1 < k2 < idx.len() ==> #[trigger] idx[k1] < #[trigger] idx[k2],
        decreases src.len() - i,
    {
        let ghost prefix = src.subrange(0, i as int);
        let ghost x = src[i as int];
        assert(src.subrange(0, i + 1) =~= prefix.push(x));
        proof {
            prefix.lemma_filter_push(x, p);
        }
        if !rows[i].uri.eq(uri) {
            kept.push(rows[i].duplicate());
            proof {
                idx = idx.push(i as int);
            }
        }
        i = i + 1;
    }
    assert(src.subrange(0, i as int) =~= src);
    proof {
        let out = kept@;
        assert forall|a: int, b: int| 0 <= a < out.len() && 0 <= b < out.len() && a != b implies {
            &&& (#[trigger] out[a]).uri@ != (#[trigger] out[b]).uri@
            &&& !(out[a].author_did@ == out[b].author_did@ && out[a].label@ == out[b].label@)
        } by {
            if a < b {
                assert(idx[a] < idx[b]);
            } else {
                assert(idx[b] < idx[a]);
            }
            assert(out[a] == src[idx[a]]);
            assert(out[b] == src[idx[b]]);
        }
    }
    *rows = kept;
}

/// Keeps the card rows that `pred` keeps: `card_outside_stack` of `key` when
/// `by_stack` holds, `card_other_than` of `key` otherwise.
pub open spec fn card_kept(key: Seq<char>, by_stack: bool) -> spec_fn(DbCard) -> bool {
    if by_stack {
        card_outside_stack(key)
    } else {
        card_other_than(key)
    }
}

fn retain_cards(rows: &mut Vec<DbCard>, key: &String, by_stack: bool)
    requires
        cards_unique(old(rows)@),
    ensures
        final(rows)@ == old(rows)@.filter(card_kept(key@, by_stack)),
        cards_unique(final(rows)@),
        rows_from(final(rows)@, old(rows)@),
{
    let ghost p = card_kept(key@, by_stack);
    let ghost src = rows@;
    let mut kept: Vec<DbCard> = Vec::new();
    let ghost mut idx: Seq<int> = Seq::empty();
    let mut i: usize = 0;
    while i < rows.len()
        invariant
            rows@ == src,
            cards_unique(src),
            p == card_kept(key@, by_stack),
            i <= src.len(),
            kept@ == src.subrange(0, i as int).filter(p),
            idx.len() == kept@.len(),
            forall|k: int| 0 <= k < idx.len() ==> 0 <= #[trigger] idx[k] < i && kept@[k] == src[idx[k]],
            forall|k1: int, k2: int| 0 <= k1 < k2 < idx.len() ==> #[trigger] idx[k1] < #[trigger] idx[k2],
        decreases src.len() - i,
    {
        let ghost prefix = src.subrange(0, i as int);
        let ghost x = src[i as int];
        assert(src.subrange(0, i + 1) =~= prefix.push(x));
        proof {
            prefix.lemma_filter_push(x, p);
        }
        let keep = if by_stack {
            !rows[i].stack_id.eq(key)
        } else {
            !rows[i].uri.eq(key)
        };
        if keep {
            kept.push(rows[i].duplicate());
            proof {
                idx = idx.push(i as int);
            }
        }
        i = i + 1;
    }
    assert(src.subrange(0, i as int) =~= src);
    proof {
        let out = kept@;
        assert forall|a: int, b: int| 0 <= a < out.len() && 0 <= b < out.len() && a != b implies {
            (#[trigger] out[a]).uri@ != (#[trigger] out[b]).uri@
        } by {
            if a < b {
                assert(idx[a] < idx[b]);
            } else {
                assert(idx[b] < idx[a]);
            }
            assert(out[a] == src[idx[a]]);
            assert(out[b] == src[idx[b]]);
        }
    }
    *rows = kept;
    assert(rows_from(rows@, src)) by {
        assert forall|k: int| 0 <= k < rows@.len() implies src.contains(#[trigger] rows@[k]) by {
            assert(rows@[k] == src[idx[k]]);
        }
    }
}

impl DbStack {
    /// Removes the stack `uri` and, with it, every card of that stack.
    pub fn delete_by_uri(uri: &str, cache: &mut CacheStore)
        requires
            old(cache).wf(),
        ensures
            final(cache).wf(),
            final(cache).stacks@ == old(cache).stacks@.filter(stack_other_than(uri@)),
            final(cache).cards@ == old(cache).cards@.filter(card_outside_stack(uri@)),
            final(cache).sessions@ == old(cache).sessions@,
            final(cache).states@ == old(cache).states@,
    {
        let key = uri.to_owned();
        let ghost old_stacks = cache.stacks@;
        let ghost old_cards = cache.cards@;
        retain_cards(&mut cache.cards, &key, true);
        retain_stacks(&mut cache.stacks, &key);
        proof {
            broadcast use vstd::seq_lib::group_filter_ensures;

            let cards = cache.cards@;
            let stacks = cache.stacks@;
            assert forall|k: int| 0 <= k < cards.len() implies has_stack(
                stacks,
                (#[trigger] cards[k]).stack_id@,
            ) by {
                assert(old_cards.contains(cards[k]));
                let j = choose|j: int| 0 <= j < old_cards.len() && old_cards[j] == cards[k];
                assert(has_stack(old_stacks, old_cards[j].stack_id@));
                let m = choose|m: int| stack_at(old_stacks, old_cards[j].stack_id@, m);
                assert(card_kept(key@, true)(cards[k]));
                old_stacks.lemma_filter_contains(stack_other_than(uri@), m);
                assert(stacks.contains(old_stacks[m]));
                let n = choose|n: int| 0 <= n < stacks.len() && stacks[n] == old_stacks[m];
                assert(stack_at(stacks, cards[k].stack_id@, n));
            }
        }
    }
}

impl CacheStore {
    /// The position of the card `uri`, if it has a row.
    pub fn find_card(&self, uri: &String) -> (r: Option<usize>)
        requires
            self.wf(),
        ensures
            r matches Some(i) ==> card_at(self.cards@, uri@, i as int) && i as int == card_pos(
                self.cards@,
                uri@,
            ),
            r is None <==> !has_card(self.cards@, uri@),
    {
        let mut i: usize = 0;
        while i < self.cards.len()
            invariant
                i <= self.cards@.len(),
                cards_unique(self.cards@),
                forall|k: int| 0 <= k < i ==> !#[trigger] card_at(self.cards@, uri@, k),
            decreases self.cards@.len() - i,
        {
            if self.cards[i].uri.eq(uri) {
                assert(card_at(self.cards@, uri@, i as int));
                let ghost j = card_pos(self.cards@, uri@);
                assert(card_at(self.cards@, uri@, j));
                assert(self.cards@[j].uri@ == self.cards@[i as int].uri@);
                return Some(i);
            }
            i = i + 1;
        }
        None
    }
}

/// The row that `row` becomes when it is written over an existing row that
/// was created at `created_at`.
pub open spec fn card_rewritten(row: DbCard, created_at: i64) -> DbCard {
    DbCard { created_at: created_at, ..row }
}

impl DbCard {
    /// Inserts this row. Fails when its URI is taken, or when its stack is not
    /// in the cache.
    pub fn save(&self, cache: &mut CacheStore) -> (r: Result<(), CacheError>)
        requires
            old(cache).wf(),
        ensures
            final(cache).wf(),
            r == (if has_card(old(cache).cards@, self.uri@) {
                Err(CacheError::DuplicateUri)
            } else if !has_stack(old(cache).stacks@, self.stack_id@) {
                Err(CacheError::MissingStack)
            } else {
                Ok(())
            }),
            r is Ok ==> final(cache).cards@ == old(cache).cards@.push(*self),
            r is Err ==> final(cache).cards@ == old(cache).cards@,
            final(cache).stacks@ == old(cache).stacks@,
            final(cache).sessions@ == old(cache).sessions@,
            final(cache).states@ == old(cache).states@,
    {
        if cache.find_card(&self.uri).is_some() {
            return Err(CacheError::DuplicateUri);
        }
        if cache.find_stack(&self.stack_id).is_none() {
            return Err(CacheError::MissingStack);
        }
        let ghost before = cache.cards@;
        cache.cards.push(self.duplicate());
        proof {
            let after = cache.cards@;
            assert forall|i: int, j: int|
                0 <= i < after.len() && 0 <= j < after.len() && i != j implies {
                (#[trigger] after[i]).uri@ != (#[trigger] after[j]).uri@
            } by {
                if i == before.len() {
                    assert(!card_at(before, self.uri@, j));
                    assert(before[j] == after[j]);
                } else if j == before.len() {
                    assert(!card_at(before, self.uri@, i));
                    assert(before[i] == after[i]);
                }
            }
            assert forall|i: int| 0 <= i < after.len() implies has_stack(
                cache.stacks@,
                (#[trigger] after[i]).stack_id@,
            ) by {
                if i < before.len() {
                    assert(before[i] == after[i]);
                }
            }
        }
        Ok(())
    }

    /// Writes this row over the row of its URI, keeping that row's creation
    /// time, or inserts it when there is none. Fails when its stack is not in
    /// the cache.
    pub fn upsert(&self, cache: &mut CacheStore) -> (r: Result<(), CacheError>)
        requires
            old(cache).wf(),
        ensures
            final(cache).wf(),
            r == (if !has_stack(old(cache).stacks@, self.stack_id@) {
                Err(CacheError::MissingStack)
            } else {
                Ok(())
            }),
            r is Ok ==> final(cache).cards@ == upserted_cards(old(cache).cards@, *self),
            r is Err ==> final(cache).cards@ == old(cache).cards@,
            final(cache).stacks@ == old(cache).stacks@,
            final(cache).sessions@ == old(cache).sessions@,
            final(cache).states@ == old(cache).states@,
    {
        if cache.find_stack(&self.stack_id).is_none() {
            return Err(CacheError::MissingStack);
        }
        match cache.find_card(&self.uri) {
            None => {
                let r = self.save(cache);
                r
            },
            Some(i) => {
                let ghost before = cache.cards@;
                let mut row = self.duplicate();
                row.created_at = cache.cards[i].created_at;
                assert(row == card_rewritten(*self, before[i as int].created_at));
                cache.cards.set(i, row);
                proof {
                    let after = cache.cards@;
                    assert(after == before.update(i as int, row));
                    assert forall|a: int, b: int|
                        0 <= a < after.len() && 0 <= b < after.len() && a != b implies {
                        (#[trigger] after[a]).uri@ != (#[trigger] after[b]).uri@
                    } by {
                        if a == i {
                            assert(before[b] == after[b]);
                            assert(before[b].uri@ != before[a].uri@);
                        } else if b == i {
                            assert(before[a] == after[a]);
                            assert(before[b].uri@ != before[a].uri@);
                        } else {
                            assert(before[a] == after[a]);
                            assert(before[b] == after[b]);
                        }
                    }
                    assert forall|k: int| 0 <= k < after.len() implies has_stack(
                        cache.stacks@,
                        (#[trigger] after[k]).stack_id@,
                    ) by {
                        if k != i {
                            assert(before[k] == after[k]);
                        }
                    }
                }
                Ok(())
            },
        }
    }

    /// Removes the card `uri`.
    pub fn delete_by_uri(uri: &str, cache: &mut CacheStore)
        requires
            old(cache).wf(),
        ensures
            final(cache).wf(),
            final(cache).cards@ == old(cache).cards@.filter(card_other_than(uri@)),
            final(cache).stacks@ == old(cache).stacks@,
            final(cache).sessions@ == old(cache).sessions@,
            final(cache).states@ == old(cache).states@,
    {
        let key = uri.to_owned();
        let ghost old_cards = cache.cards@;
        retain_cards(&mut cache.cards, &key, false);
        proof {
            let cards = cache.cards@;
            assert forall|k: int| 0 <= k < cards.len() implies has_stack(
                cache.stacks@,
                (#[trigger] cards[k]).stack_id@,
            ) by {
                assert(old_cards.contains(cards[k]));
                let j = choose|j: int| 0 <= j < old_cards.len() && old_cards[j] == cards[k];
                assert(has_stack(cache.stacks@, old_cards[j].stack_id@));
            }
        }
    }

    /// Whether the card `card_uri` has a row whose author is `author_did`.
    /// An unknown URI is not owned.
    pub fn is_owned_by(author_did: &str, card_uri: &str, cache: &CacheStore) -> (r: bool)
        requires
            cache.wf(),
        ensures
            r == card_owned(cache.cards@, author_did@, card_uri@),
    {
        let uri = card_uri.to_owned();
        let author = author_did.to_owned();
        match cache.find_card(&uri) {
            None => false,
            Some(i) => {
                let r = cache.cards[i].author_did.eq(&author);
                proof {
                    if !r {
                        assert forall|j: int| #[trigger]
                            card_at(cache.cards@, card_uri@, j) implies cache.cards@[j].author_did@
                            != author_did@ by {
                            if j != i {
                                assert(cache.cards@[j].uri@ != cache.cards@[i as int].uri@);
                            }
                        }
                    }
                }
                r
            },
        }
    }

    /// What a clone copies of each card of the stack `stack_uri`, in the
    /// order of the table.
    pub fn get_clone_data(stack_uri: &str, cache: &CacheStore) -> (r: Vec<CardCloneData>)
        ensures
            r@ == cache.cards@.filter(card_in_stack(stack_uri@)).map_values(
                |c: DbCard| card_clone_of(c),
            ),
    {
        let ghost p = card_in_stack(stack_uri@);
        let key = stack_uri.to_owned();
        let mut r: Vec<CardCloneData> = Vec::new();
        let mut i: usize = 0;
        while i < cache.cards.len()
            invariant
                i <= cache.cards@.len(),
                key@ == stack_uri@,
                p == card_in_stack(stack_uri@),
                r@ == cache.cards@.subrange(0, i as int).filter(p).map_values(
                    |c: DbCard| card_clone_of(c),
                ),
            decreases cache.cards@.len() - i,
        {
            let ghost prefix = cache.cards@.subrange(0, i as int);
            let ghost x = cache.cards@[i as int];
            assert(cache.cards@.subrange(0, i + 1) =~= prefix.push(x));
            proof {
                prefix.lemma_filter_push(x, p);
            }
            let c = &cache.cards[i];
            if c.stack_id.eq(&key) {
                r.push(
                    CardCloneData {
                        back_lang: c.back_lang.clone(),
                        back_text: c.back_text.clone(),
                        front_lang: c.front_lang.clone(),
                        front_text: c.front_text.clone(),
                    },
                );
                assert(r@ =~= prefix.push(x).filter(p).map_values(|c: DbCard| card_clone_of(c)));
            } else {
                assert(r@ =~= prefix.push(x).filter(p).map_values(|c: DbCard| card_clone_of(c)));
            }
            i = i + 1;
        }
        assert(cache.cards@.subrange(0, i as int) =~= cache.cards@);
        r
    }
}

impl DisplayCard {
    /// The cards of the stack `stack_uri`, in the order of the table.
    pub fn stack_cards(stack_uri: &str, cache: &CacheStore) -> (r: Vec<DisplayCard>)
        ensures
            r@ == cache.cards@.filter(card_in_stack(stack_uri@)).map_values(
                |c: DbCard| display_of(c),
            ),
    {
        let ghost p = card_in_stack(stack_uri@);
        let key = stack_uri.to_owned();
        let mut r: Vec<DisplayCard> = Vec::new();
        let mut i: usize = 0;
        while i < cache.cards.len()
            invariant
                i <= cache.cards@.len(),
                key@ == stack_uri@,
                p == card_in_stack(stack_uri@),
                r@ == cache.cards@.subrange(0, i as int).filter(p).map_values(
                    |c: DbCard| display_of(c),
                ),
            decreases cache.cards@.len() - i,
        {
            let ghost prefix = cache.cards@.subrange(0, i as int);
            let ghost x = cache.cards@[i as int];
            assert(cache.cards@.subrange(0, i + 1) =~= prefix.push(x));
            proof {
                prefix.lemma_filter_push(x, p);
            }
            let c = &cache.cards[i];
            if c.stack_id.eq(&key) {
                r.push(
                    DisplayCard {
                        uri: c.uri.clone(),
                        back_lang: c.back_lang.clone(),
                        back_text: c.back_text.clone(),
                        front_lang: c.front_lang.clone(),
                        front_text: c.front_text.clone(),
                    },
                );
                assert(r@ =~= prefix.push(x).filter(p).map_values(|c: DbCard| display_of(c)));
            } else {
                assert(r@ =~= prefix.push(x).filter(p).map_values(|c: DbCard| display_of(c)));
            }
            i = i + 1;
        }
        assert(cache.cards@.subrange(0, i as int) =~= cache.cards@);
        r
    }
}

/// Row `i` of `rows` has the key `key`.
pub open spec fn session_at(rows: Seq<AuthSession>, key: Seq<char>, i: int) -> bool {
    0 <= i < rows.len() && rows[i].key@ == key
}

/// The key `key` has a row.
pub open spec fn has_session(rows: Seq<AuthSession>, key: Seq<char>) -> bool {
    exists|i: int| #[trigger] session_at(rows, key, i)
}

/// The position of the key `key`, where it has a row.
pub open spec fn session_pos(rows: Seq<AuthSession>, key: Seq<char>) -> int {
    choose|i: int| #[trigger] session_at(rows, key, i)
}

/// Keeps the rows whose key is not `key`.
pub open spec fn session_other_than(key: Seq<char>) -> spec_fn(AuthSession) -> bool {
    |r: AuthSession| r.key@ != key
}

/// The rows after `row` was written over the row of its key, or added when
/// there was none.
pub open spec fn sessions_written(rows: Seq<AuthSession>, row: AuthSession) -> Seq<AuthSession> {
    if has_session(rows, row.key@) {
        rows.update(session_pos(rows, row.key@), row)
    } else {
        rows.push(row)
    }
}

fn find_session(rows: &Vec<AuthSession>, key: &String) -> (r: Option<usize>)
    requires
        sessions_wf(rows@),
    ensures
        r matches Some(i) ==> session_at(rows@, key@, i as int) && i as int == session_pos(rows@, key@),
        r is None <==> !has_session(rows@, key@),
{
    let mut i: usize = 0;
    while i < rows.len()
        invariant
            i <= rows@.len(),
            sessions_wf(rows@),
            forall|k: int| 0 <= k < i ==> !#[trigger] session_at(rows@, key@, k),
        decreases rows@.len() - i,
    {
        if rows[i].key.eq(key) {
            assert(session_at(rows@, key@, i as int));
            let ghost j = session_pos(rows@, key@);
            assert(session_at(rows@, key@, j));
            assert(rows@[j].key@ == rows@[i as int].key@);
            return Some(i);
        }
        i = i + 1;
    }
    None
}

fn retain_sessions(rows: &mut Vec<AuthSession>, key: &String)
    requires
        sessions_wf(old(rows)@),
    ensures
        final(rows)@ == old(rows)@.filter(session_other_than(key@)),
        sessions_wf(final(rows)@),
{
    let ghost p = session_other_than(key@);
    let ghost src = rows@;
    let mut kept: Vec<AuthSession> = Vec::new();
    let ghost mut idx: Seq<int> = Seq::empty();
    let mut i: usize = 0;
    while i < rows.len()
        invariant
            rows@ == src,
            sessions_wf(src),
            p == session_other_than(key@),
            i <= src.len(),
            kept@ == src.subrange(0, i as int).filter(p),
            idx.len() == kept@.len(),
            forall|k: int| 0 <= k < idx.len() ==> 0 <= #[trigger] idx[k] < i && kept@[k] == src[idx[k]],
            forall|k1: int, k2: int| 0 <= k1 < k2 < idx.len() ==> #[trigger] idx[k1] < #[trigger] idx[k2],
        decreases src.len() - i,
    {
        let ghost prefix = src.subrange(0, i as int);
        let ghost x = src[i as int];
        assert(src.subrange(0, i + 1) =~= prefix.push(x));
        proof {
            prefix.lemma_filter_push(x, p);
        }
        if !rows[i].key.eq(key) {
            kept.push(AuthSession { key: rows[i].key.clone(), session: rows[i].session.clone() });
            proof {
                idx = idx.push(i as int);
            }
        }
        i = i + 1;
    }
    assert(src.subrange(0, i as int) =~= src);
    proof {
        let out = kept@;
        assert forall|a: int, b: int| 0 <= a < out.len() && 0 <= b < out.len() && a != b implies
            (#[trigger] out[a]).key@ != (#[trigger] out[b]).key@ by {
            if a < b {
                assert(idx[a] < idx[b]);
            } else {
                assert(idx[b] < idx[a]);
            }
            assert(out[a] == src[idx[a]]);
            assert(out[b] == src[idx[b]]);
        }
    }
    *rows = kept;
}

impl AuthSession {
    /// The row of the key `did`, if there is one.
    pub fn get_by_did(did: &str, cache: &CacheStore) -> (r: Option<AuthSession>)
        requires
            cache.wf(),
        ensures
            r is Some <==> has_session(cache.sessions@, did@),
            r matches Some(row) ==> row == cache.sessions@[session_pos(cache.sessions@, did@)],
    {
        let key = did.to_owned();
        match find_session(&cache.sessions, &key) {
            None => None,
            Some(i) => {
                let row = &cache.sessions[i];
                Some(AuthSession { key: row.key.clone(), session: row.session.clone() })
            },
        }
    }

    /// Writes this row over the row of its key, or inserts it.
    pub fn save_or_update(&self, cache: &mut CacheStore)
        requires
            old(cache).wf(),
        ensures
            final(cache).wf(),
            final(cache).sessions@ == sessions_written(old(cache).sessions@, *self),
            final(cache).stacks@ == old(cache).stacks@,
            final(cache).cards@ == old(cache).cards@,
            final(cache).states@ == old(cache).states@,
    {
        let row = AuthSession { key: self.key.clone(), session: self.session.clone() };
        let ghost before = cache.sessions@;
        match find_session(&cache.sessions, &self.key) {
            None => {
                cache.sessions.push(row);
                proof {
                    let after = cache.sessions@;
                    assert forall|a: int, b: int|
                        0 <= a < after.len() && 0 <= b < after.len() && a != b implies (
                    #[trigger] after[a]).key@ != (#[trigger] after[b]).key@ by {
                        if a == before.len() {
                            assert(!session_at(before, self.key@, b));
                            assert(before[b] == after[b]);
                        } else if b == before.len() {
                            assert(!session_at(before, self.key@, a));
                            assert(before[a] == after[a]);
                        }
                    }
                }
            },
            Some(i) => {
                cache.sessions.set(i, row);
                proof {
                    let after = cache.sessions@;
                    assert forall|a: int, b: int|
                        0 <= a < after.len() && 0 <= b < after.len() && a != b implies (
                    #[trigger] after[a]).key@ != (#[trigger] after[b]).key@ by {
                        if a == i {
                            assert(before[b] == after[b]);
                            assert(before[b].key@ != before[a].key@);
                        } else if b == i {
                            assert(before[a] == after[a]);
                            assert(before[b].key@ != before[a].key@);
                        } else {
                            assert(before[a] == after[a]);
                            assert(before[b] == after[b]);
                        }
                    }
                }
            },
        }
    }

    /// Removes every row.
    pub fn delete_all(cache: &mut CacheStore)
        requires
            old(cache).wf(),
        ensures
            final(cache).wf(),
            final(cache).sessions@.len() == 0,
            final(cache).stacks@ == old(cache).stacks@,
            final(cache).cards@ == old(cache).cards@,
            final(cache).states@ == old(cache).states@,
    {
        cache.sessions = Vec::new();
    }

    /// Removes the row of the key `did`.
    pub fn delete_by_did(did: &str, cache: &mut CacheStore)
        requires
            old(cache).wf(),
        ensures
            final(cache).wf(),
            final(cache).sessions@ == old(cache).sessions@.filter(session_other_than(did@)),
            final(cache).stacks@ == old(cache).stacks@,
            final(cache).cards@ == old(cache).cards@,
            final(cache).states@ == old(cache).states@,
    {
        let key = did.to_owned();
        retain_sessions(&mut cache.sessions, &key);
    }
}

/// Row `i` of `rows` has the key `key`.
pub open spec fn state_at(rows: Seq<AuthState>, key: Seq<char>, i: int) -> bool {
    0 <= i < rows.len() && rows[i].key@ == key
}

/// The key `key` has a row.
pub open spec fn has_state(rows: Seq<AuthState>, key: Seq<char>) -> bool {
    exists|i: int| #[trigger] state_at(rows, key, i)
}

/// The position of the key `key`, where it has a row.
pub open spec fn state_pos(rows: Seq<AuthState>, key: Seq<char>) -> int {
    choose|i: int| #[trigger] state_at(rows, key, i)
}

/// Keeps the rows whose key is not `key`.
pub open spec fn state_other_than(key: Seq<char>) -> spec_fn(AuthState) -> bool {
    |r: AuthState| r.key@ != key
}

/// The rows after `row` was written over the row of its key, or added when
/// there was none.
pub open spec fn states_written(rows: Seq<AuthState>, row: AuthState) -> Seq<AuthState> {
    if has_state(rows, row.key@) {
        rows.update(state_pos(rows, row.key@), row)
    } else {
        rows.push(row)
    }
}

fn find_state(rows: &Vec<AuthState>, key: &String) -> (r: Option<usize>)
    requires
        states_wf(rows@),
    ensures
        r matches Some(i) ==> state_at(rows@, key@, i as int) && i as int == state_pos(rows@, key@),
        r is None <==> !has_state(rows@, key@),
{
    let mut i: usize = 0;
    while i < rows.len()
        invariant
            i <= rows@.len(),
            states_wf(rows@),
            forall|k: int| 0 <= k < i ==> !#[trigger] state_at(rows@, key@, k),
        decreases rows@.len() - i,
    {
        if rows[i].key.eq(key) {
            assert(state_at(rows@, key@, i as int));
            let ghost j = state_pos(rows@, key@);
            assert(state_at(rows@, key@, j));
            assert(rows@[j].key@ == rows@[i as int].key@);
            return Some(i);
        }
        i = i + 1;
    }
    None
}

fn retain_states(rows: &mut Vec<AuthState>, key: &String)
    requires
        states_wf(old(rows)@),
    ensures
        final(rows)@ == old(rows)@.filter(state_other_than(key@)),
        states_wf(final(rows)@),
{
    let ghost p = state_other_than(key@);
    let ghost src = rows@;
    let mut kept: Vec<AuthState> = Vec::new();
    let ghost mut idx: Seq<int> = Seq::empty();
    let mut i: usize = 0;
    while i < rows.len()
        invariant
            rows@ == src,
            states_wf(src),
            p == state_other_than(key@),
            i <= src.len(),
            kept@ == src.subrange(0, i as int).filter(p),
            idx.len() == kept@.len(),
            forall|k: int| 0 <= k < idx.len() ==> 0 <= #[trigger] idx[k] < i && kept@[k] == src[idx[k]],
            forall|k1: int, k2: int| 0 <= k1 < k2 < idx.len() ==> #[trigger] idx[k1] < #[trigger] idx[k2],
        decreases src.len() - i,
    {
        let ghost prefix = src.subrange(0, i as int);
        let ghost x = src[i as int];
        assert(src.subrange(0, i + 1) =~= prefix.push(x));
        proof {
            prefix.lemma_filter_push(x, p);
        }
        if !rows[i].key.eq(key) {
            kept.push(AuthState { key: rows[i].key.clone(), state: rows[i].state.clone() });
            proof {
                idx = idx.push(i as int);
            }
        }
        i = i + 1;
    }
    assert(src.subrange(0, i as int) =~= src);
    proof {
        let out = kept@;
        assert forall|a: int, b: int| 0 <= a < out.len() && 0 <= b < out.len() && a != b implies
            (#[trigger] out[a]).key@ != (#[trigger] out[b]).key@ by {
            if a < b {
                assert(idx[a] < idx[b]);
            } else {
                assert(idx[b] < idx[a]);
            }
            assert(out[a] == src[idx[a]]);
            assert(out[b] == src[idx[b]]);
        }
    }
    *rows = kept;
}

impl AuthState {
    /// The row of the key `did`, if there is one.
    pub fn get_by_did(did: &str, cache: &CacheStore) -> (r: Option<AuthState>)
        requires
            cache.wf(),
        ensures
            r is Some <==> has_state(cache.states@, did@),
            r matches Some(row) ==> row == cache.states@[state_pos(cache.states@, did@)],
    {
        let key = did.to_owned();
        match find_state(&cache.states, &key) {
            None => None,
            Some(i) => {
                let row = &cache.states[i];
                Some(AuthState { key: row.key.clone(), state: row.state.clone() })
            },
        }
    }

    /// Writes this row over the row of its key, or inserts it.
    pub fn save_or_update(&self, cache: &mut CacheStore)
        requires
            old(cache).wf(),
        ensures
            final(cache).wf(),
            final(cache).states@ == states_written(old(cache).states@, *self),
            final(cache).stacks@ == old(cache).stacks@,
            final(cache).cards@ == old(cache).cards@,
            final(cache).sessions@ == old(cache).sessions@,
    {
        let row = AuthState { key: self.key.clone(), state: self.state.clone() };
        let ghost before = cache.states@;
        match find_state(&cache.states, &self.key) {
            None => {
                cache.states.push(row);
                proof {
                    let after = cache.states@;
                    assert forall|a: int, b: int|
                        0 <= a < after.len() && 0 <= b < after.len() && a != b implies (
                    #[trigger] after[a]).key@ != (#[trigger] after[b]).key@ by {
                        if a == before.len() {
                            assert(!state_at(before, self.key@, b));
                            assert(before[b] == after[b]);
                        } else if b == before.len() {
                            assert(!state_at(before, self.key@, a));
                            assert(before[a] == after[a]);
                        }
                    }
                }
            },
            Some(i) => {
                cache.states.set(i, row);
                proof {
                    let after = cache.states@;
                    assert forall|a: int, b: int|
                        0 <= a < after.len() && 0 <= b < after.len() && a != b implies (
                    #[trigger] after[a]).key@ != (#[trigger] after[b]).key@ by {
                        if a == i {
                            assert(before[b] == after[b]);
                            assert(before[b].key@ != before[a].key@);
                        } else if b == i {
                            assert(before[a] == after[a]);
                            assert(before[b].key@ != before[a].key@);
                        } else {
                            assert(before[a] == after[a]);
                            assert(before[b] == after[b]);
                        }
                    }
                }
            },
        }
    }

    /// Removes every row.
    pub fn delete_all(cache: &mut CacheStore)
        requires
            old(cache).wf(),
        ensures
            final(cache).wf(),
            final(cache).states@.len() == 0,
            final(cache).stacks@ == old(cache).stacks@,
            final(cache).cards@ == old(cache).cards@,
            final(cache).sessions@ == old(cache).sessions@,
    {
        cache.states = Vec::new();
    }

    /// Removes the row of the key `did`.
    pub fn delete_by_did(did: &str, cache: &mut CacheStore)
        requires
            old(cache).wf(),
        ensures
            final(cache).wf(),
            final(cache).states@ == old(cache).states@.filter(state_other_than(did@)),
            final(cache).stacks@ == old(cache).stacks@,
            final(cache).cards@ == old(cache).cards@,
            final(cache).sessions@ == old(cache).sessions@,
    {
        let key = did.to_owned();
        retain_states(&mut cache.states, &key);
    }
}

impl AuthState {
    /// The row of the key `key`, if there is one.
    pub fn get_by_key(key: &str, cache: &CacheStore) -> (r: Option<AuthState>)
        requires
            cache.wf(),
        ensures
            r is Some <==> has_state(cache.states@, key@),
            r matches Some(row) ==> row == cache.states@[state_pos(cache.states@, key@)],
    {
        AuthState::get_by_did(key, cache)
    }

    /// Removes the row of the key `key`.
    pub fn delete_by_key(key: &str, cache: &mut CacheStore)
        requires
            old(cache).wf(),
        ensures
            final(cache).wf(),
            final(cache).states@ == old(cache).states@.filter(state_other_than(key@)),
            final(cache).stacks@ == old(cache).stacks@,
            final(cache).cards@ == old(cache).cards@,
            final(cache).sessions@ == old(cache).sessions@,
    {
        AuthState::delete_by_did(key, cache)
    }
}

/// The author `author` has a stack labelled `label`.
pub open spec fn label_taken(rows: Seq<DbStack>, author: Seq<char>, label: Seq<char>) -> bool {
    exists|i: int|
        0 <= i < rows.len() && (#[trigger] rows[i]).author_did@ == author && rows[i].label@
            == label
}

/// The tables of `a` and `b` are the same.
pub open spec fn unchanged(a: CacheStore, b: CacheStore) -> bool {
    &&& a.stacks@ == b.stacks@
    &&& a.cards@ == b.cards@
    &&& a.sessions@ == b.sessions@
    &&& a.states@ == b.states@
}

impl CacheStore {
    /// Whether the author `author` has a stack labelled `label`.
    pub fn label_taken(&self, author: &str, label: &str) -> (r: bool)
        ensures
            r == label_taken(self.stacks@, author@, label@),
    {
        let a = author.to_owned();
        let l = label.to_owned();
        let mut i: usize = 0;
        while i < self.stacks.len()
            invariant
                i <= self.stacks@.len(),
                a@ == author@,
                l@ == label@,
                forall|k: int|
                    0 <= k < i ==> !((#[trigger] self.stacks@[k]).author_did@ == author@
                        && self.stacks@[k].label@ == label@),
            decreases self.stacks@.len() - i,
        {
            let s = &self.stacks[i];
            if s.author_did.eq(&a) && s.label.eq(&l) {
                assert(self.stacks@[i as int] == *s);
                return true;
            }
            i = i + 1;
        }
        false
    }
}

/// The row that an edit by `args` writes, at the time `t`.
pub open spec fn edited_row(args: StackUpdateArgs, t: i64) -> DbStack {
    DbStack {
        uri: args.uri,
        author_did: args.author_did,
        back_lang: args.back_lang,
        front_lang: args.front_lang,
        label: args.label,
        created_at: t,
        indexed_at: t,
    }
}

impl StackUpdateArgs {
    /// Edits the stack row `self.uri` when `self.author_did` owns it, keeping
    /// its creation time; `Ok(None)` when it does not own it. Fails when
    /// another stack of the author has the new label.
    pub fn update_owned(&self, cache: &mut CacheStore) -> (r: Result<Option<StackDetails>, CacheError>)
        requires
            old(cache).wf(),
        ensures
            final(cache).wf(),
            !stack_owned(old(cache).stacks@, self.author_did@, self.uri@) ==> r == Ok::<
                Option<StackDetails>,
                CacheError,
            >(None) && unchanged(*final(cache), *old(cache)),
            stack_owned(old(cache).stacks@, self.author_did@, self.uri@) ==> exists|t: i64|
                {
                    let row = #[trigger] edited_row(*self, t);
                    &&& r == if label_clash(old(cache).stacks@, row) {
                        Err(CacheError::DuplicateLabel)
                    } else {
                        Ok(Some(details_of(row)))
                    }
                    &&& r is Ok ==> final(cache).stacks@ == upserted_stacks(old(cache).stacks@, row)
                    &&& r is Err ==> final(cache).stacks@ == old(cache).stacks@
                },
            final(cache).cards@ == old(cache).cards@,
            final(cache).sessions@ == old(cache).sessions@,
            final(cache).states@ == old(cache).states@,
    {
        if !DbStack::is_owned_by(self.author_did.as_str(), self.uri.as_str(), cache) {
            return Ok(None);
        }
        let t = crate::clock::now_micros();
        let row = DbStack {
            uri: self.uri.clone(),
            author_did: self.author_did.clone(),
            back_lang: clone_opt(&self.back_lang),
            front_lang: clone_opt(&self.front_lang),
            label: self.label.clone(),
            created_at: t,
            indexed_at: t,
        };
        assert(row == edited_row(*self, t));
        match row.upsert(cache) {
            Err(e) => Err(e),
            Ok(()) => Ok(Some(details(&row))),
        }
    }
}

} // verus!
