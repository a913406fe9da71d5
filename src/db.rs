//! The rows of the cache store: stacks, cards and the two key/value tables of
//! the authentication layer, with the argument bundles that build them.
use vstd::prelude::*;

use crate::clock::now_micros;

verus! {

/// A copy of an optional string.
pub fn clone_opt(o: &Option<String>) -> (r: Option<String>)
    ensures
        r == *o,
{
    match o {
        Some(s) => Some(s.clone()),
        None => None,
    }
}

/// A cached stack row. Times are microseconds since the Unix epoch.
#[derive(Clone, Debug)]
pub struct DbStack {
    pub uri: String,
    pub author_did: String,
    pub back_lang: Option<String>,
    pub front_lang: Option<String>,
    pub label: String,
    pub created_at: i64,
    pub indexed_at: i64,
}

/// What a new stack row is made from.
#[derive(Clone, Debug)]
pub struct StackArgs {
    pub uri: String,
    pub author_did: String,
    pub back_lang: Option<String>,
    pub front_lang: Option<String>,
    pub label: String,
    pub indexed_at: Option<i64>,
}

/// What an edit of a stack row is made from.
#[derive(Clone, Debug)]
pub struct StackUpdateArgs {
    pub uri: String,
    pub author_did: String,
    pub back_lang: Option<String>,
    pub front_lang: Option<String>,
    pub label: String,
}

/// The part of a stack that a clone copies.
#[derive(Clone, Debug)]
pub struct StackCloneData {
    pub back_lang: Option<String>,
    pub front_lang: Option<String>,
    pub label: String,
}

/// A cached card row. Times are microseconds since the Unix epoch.
#[derive(Clone, Debug)]
pub struct DbCard {
    pub uri: String,
    pub author_did: String,
    pub back_lang: String,
    pub back_text: String,
    pub front_lang: String,
    pub front_text: String,
    pub created_at: i64,
    pub indexed_at: i64,
    pub stack_id: String,
}

/// What a card row holds, as characters.
pub struct CardView {
    pub uri: Seq<char>,
    pub author_did: Seq<char>,
    pub back_lang: Seq<char>,
    pub back_text: Seq<char>,
    pub front_lang: Seq<char>,
    pub front_text: Seq<char>,
    pub created_at: i64,
    pub indexed_at: i64,
    pub stack_id: Seq<char>,
}

impl View for DbCard {
    type V = CardView;

    open spec fn view(&self) -> CardView {
        CardView {
            uri: self.uri@,
            author_did: self.author_did@,
            back_lang: self.back_lang@,
            back_text: self.back_text@,
            front_lang: self.front_lang@,
            front_text: self.front_text@,
            created_at: self.created_at,
            indexed_at: self.indexed_at,
            stack_id: self.stack_id@,
        }
    }
}

/// What a new card row is made from.
#[derive(Clone, Debug)]
pub struct CardArgs {
    pub uri: String,
    pub author_did: String,
    pub back_lang: String,
    pub back_text: String,
    pub front_lang: String,
    pub front_text: String,
    pub indexed_at: Option<i64>,
    pub stack_id: String,
}

/// The part of a card that a clone copies.
#[derive(Clone, Debug)]
pub struct CardCloneData {
    pub back_lang: String,
    pub back_text: String,
    pub front_lang: String,
    pub front_text: String,
}

/// A card as a stack's page lists it.
#[derive(Clone, Debug)]
pub struct DisplayCard {
    pub uri: String,
    pub back_lang: String,
    pub back_text: String,
    pub front_lang: String,
    pub front_text: String,
}

/// A stack as a user's list shows it.
#[derive(Clone, Debug)]
pub struct StackDetails {
    pub uri: String,
    pub back_lang: Option<String>,
    pub front_lang: Option<String>,
    pub label: String,
}

/// A row of the session table: a key and a serialised session.
#[derive(Clone, Debug)]
pub struct AuthSession {
    pub key: String,
    pub session: String,
}

/// A row of the state table: a key and a serialised state.
#[derive(Clone, Debug)]
pub struct AuthState {
    pub key: String,
    pub state: String,
}

/// The stack row that `args` makes once its creation time is `t`.
pub open spec fn stack_from_args(args: StackArgs, t: i64) -> DbStack {
    DbStack {
        uri: args.uri,
        author_did: args.author_did,
        back_lang: args.back_lang,
        front_lang: args.front_lang,
        label: args.label,
        created_at: t,
        indexed_at: t,
    }
}

/// The card row that `args` makes once its creation time is `t`.
pub open spec fn card_from_args(args: CardArgs, t: i64) -> DbCard {
    DbCard {
        uri: args.uri,
        author_did: args.author_did,
        back_lang: args.back_lang,
        back_text: args.back_text,
        front_lang: args.front_lang,
        front_text: args.front_text,
        created_at: t,
        indexed_at: t,
        stack_id: args.stack_id,
    }
}

impl DbStack {
    /// A new stack row, created and indexed at the time that `args` gives, or
    /// now when it gives none.
    pub fn new(args: StackArgs) -> (r: DbStack)
        ensures
            exists|t: i64| r == stack_from_args(args, t),
            args.indexed_at matches Some(t) ==> r == stack_from_args(args, t),
    {
        let ghost a = args;
        let t = match args.indexed_at {
            Some(t) => t,
            None => now_micros(),
        };
        let r = DbStack {
            uri: args.uri,
            author_did: args.author_did,
            back_lang: args.back_lang,
            front_lang: args.front_lang,
            label: args.label,
            created_at: t,
            indexed_at: t,
        };
        assert(r == stack_from_args(a, t));
        r
    }

    /// A copy of this row.
    pub fn duplicate(&self) -> (r: DbStack)
        ensures
            r == *self,
    {
        DbStack {
            uri: self.uri.clone(),
            author_did: self.author_did.clone(),
            back_lang: clone_opt(&self.back_lang),
            front_lang: clone_opt(&self.front_lang),
            label: self.label.clone(),
            created_at: self.created_at,
            indexed_at: self.indexed_at,
        }
    }
}

impl DbCard {
    /// A new card row, created and indexed at the time that `args` gives, or
    /// now when it gives none.
    pub fn new(args: CardArgs) -> (r: DbCard)
        ensures
            exists|t: i64| r == card_from_args(args, t),
            args.indexed_at matches Some(t) ==> r == card_from_args(args, t),
    {
        let ghost a = args;
        let t = match args.indexed_at {
            Some(t) => t,
            None => now_micros(),
        };
        let r = DbCard {
            uri: args.uri,
            author_did: args.author_did,
            back_lang: args.back_lang,
            back_text: args.back_text,
            front_lang: args.front_lang,
            front_text: args.front_text,
            created_at: t,
            indexed_at: t,
            stack_id: args.stack_id,
        };
        assert(r == card_from_args(a, t));
        r
    }

    /// A copy of this row.
    pub fn duplicate(&self) -> (r: DbCard)
        ensures
            r == *self,
    {
        DbCard {
            uri: self.uri.clone(),
            author_did: self.author_did.clone(),
            back_lang: self.back_lang.clone(),
            back_text: self.back_text.clone(),
            front_lang: self.front_lang.clone(),
            front_text: self.front_text.clone(),
            created_at: self.created_at,
            indexed_at: self.indexed_at,
            stack_id: self.stack_id.clone(),
        }
    }
}

impl AuthSession {
    /// A session row; `session` is the serialised session.
    pub fn new(key: String, session: String) -> (r: AuthSession)
        ensures
            r.key == key,
            r.session == session,
    {
        AuthSession { key, session }
    }
}

impl AuthState {
    /// A state row; `state` is the serialised state.
    pub fn new(key: String, state: String) -> (r: AuthState)
        ensures
            r.key == key,
            r.state == state,
    {
        AuthState { key, state }
    }
}

} // verus!
