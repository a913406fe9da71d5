//! The records that the authoritative store holds for this system, and the
//! collections that name them.
use vstd::prelude::*;
use vstd::string::{StrSliceExecFns, StringExecFns};

verus! {

/// A record collection of this system.
#[derive(Clone, Copy, Debug, PartialEq, Eq, Structural)]
pub enum Collection {
    Stack,
    Card,
}

/// The NSID of a collection.
pub open spec fn nsid_of(c: Collection) -> Seq<char> {
    match c {
        Collection::Stack => "xyz.flatshcards.stack"@,
        Collection::Card => "xyz.flatshcards.card"@,
    }
}

/// The collection whose NSID is `nsid`, if any.
pub open spec fn collection_of_nsid(nsid: Seq<char>) -> Option<Collection> {
    if nsid == nsid_of(Collection::Stack) {
        Some(Collection::Stack)
    } else if nsid == nsid_of(Collection::Card) {
        Some(Collection::Card)
    } else {
        None
    }
}

impl Collection {
    /// The NSID under which the repositories keep this collection.
    pub fn nsid(&self) -> (r: &'static str)
        ensures
            r@ == nsid_of(*self),
    {
        match self {
            Collection::Stack => "xyz.flatshcards.stack",
            Collection::Card => "xyz.flatshcards.card",
        }
    }

    /// The collection of an NSID, when it is one of this system's.
    pub fn from_nsid(nsid: &str) -> (r: Option<Collection>)
        ensures
            r == collection_of_nsid(nsid@),
    {
        proof {
            reveal_strlit("xyz.flatshcards.stack");
            reveal_strlit("xyz.flatshcards.card");
            assert(nsid_of(Collection::Stack).len() != nsid_of(Collection::Card).len());
        }
        let n = nsid.to_owned();
        let stack = String::from_str("xyz.flatshcards.stack");
        let card = String::from_str("xyz.flatshcards.card");
        if n.eq(&stack) {
            Some(Collection::Stack)
        } else if n.eq(&card) {
            Some(Collection::Card)
        } else {
            None
        }
    }
}

/// A stack record: a named grouping of cards.
#[derive(Clone, Debug)]
pub struct Stack {
    pub back_lang: Option<String>,
    pub created_at: String,
    pub front_lang: Option<String>,
    pub label: String,
}

/// A card record: one flashcard. `stack_id` is the record key of its stack.
#[derive(Clone, Debug)]
pub struct Card {
    pub back_lang: String,
    pub back_text: String,
    pub created_at: String,
    pub front_lang: String,
    pub front_text: String,
    pub stack_id: String,
}

/// A record of one of this system's collections.
#[derive(Clone, Debug)]
pub enum KnownRecord {
    LexiconXyzFlatshcardsCardsStack(Box<Stack>),
    LexiconXyzFlatshcardsCardsCard(Box<Card>),
}

impl KnownRecord {
    /// The collection that the record belongs to.
    pub fn collection(&self) -> (r: Collection)
        ensures
            r == (match self {
                KnownRecord::LexiconXyzFlatshcardsCardsStack(_) => Collection::Stack,
                KnownRecord::LexiconXyzFlatshcardsCardsCard(_) => Collection::Card,
            }),
    {
        match self {
            KnownRecord::LexiconXyzFlatshcardsCardsStack(_) => Collection::Stack,
            KnownRecord::LexiconXyzFlatshcardsCardsCard(_) => Collection::Card,
        }
    }
}

/// `key` is the record key of `uri`: what follows its last `/`, or all of it
/// when it has none.
pub open spec fn is_record_key_of(uri: Seq<char>, key: Seq<char>) -> bool {
    exists|k: int|
        0 <= k <= uri.len() && key == #[trigger] uri.subrange(k, uri.len() as int) && (k == 0
            || uri[k - 1] == '/') && forall|j: int| k <= j < uri.len() ==> #[trigger] uri[j] != '/'
}

/// The record key of a record URI (see `is_record_key_of`).
pub fn record_key_of(uri: &str) -> (r: &str)
    ensures
        is_record_key_of(uri@, r@),
{
    let n = uri.unicode_len();
    let mut k: usize = n;
    while k > 0
        invariant
            k <= n,
            n == uri@.len(),
            forall|j: int| k <= j < n ==> #[trigger] uri@[j] != '/',
        ensures
            k <= n,
            k == 0 || uri@[k - 1] == '/',
            forall|j: int| k <= j < n ==> #[trigger] uri@[j] != '/',
        decreases k,
    {
        if uri.get_char(k - 1) == '/' {
            break;
        }
        k = k - 1;
    }
    let r = uri.substring_char(k, n);
    assert(r@ == uri@.subrange(k as int, n as int));
    r
}

/// The URI of the stack whose record key is `rkey` in the repository `did`.
pub open spec fn stack_uri_spec(did: Seq<char>, rkey: Seq<char>) -> Seq<char> {
    "at://"@ + did + "/"@ + nsid_of(Collection::Stack) + "/"@ + rkey
}

/// The URI of the stack whose record key is `rkey` in the repository `did`.
pub fn stack_uri_of(did: &str, rkey: &str) -> (r: String)
    ensures
        r@ == stack_uri_spec(did@, rkey@),
{
    let mut r = String::from_str("at://");
    r.append(did);
    r.append("/");
    r.append(Collection::Stack.nsid());
    r.append("/");
    r.append(rkey);
    r
}

} // verus!
