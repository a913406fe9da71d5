//! Single-entity writes through both stores. Each operation is a pair of
//! steps around the one remote call: `begin_*` checks ownership and input
//! and says which remote request to make; `finish_*` takes the outcome of
//! that request and mirrors it into the cache. Creates and edits write the
//! authoritative store first and the cache after; deletes empty the cache
//! first. A cache write that fails after a remote success is not reported:
//! the background reconciler repairs the cache.
use vstd::prelude::*;

use crate::cache::{
    card_other_than, card_outside_stack, card_owned, has_card, has_stack, label_clash,
    label_taken, stack_other_than, stack_owned, unchanged, upserted_cards, upserted_stacks,
    CacheStore,
};
use crate::db::{DbCard, DbStack, DisplayCard};
use crate::forms::{
    bad_back_message, bad_front_message, card_record_of, lang_ok, stack_record_of, CardForm,
    StackForm,
};
use crate::lang::iso_639_1_known;
use crate::records::{is_record_key_of, record_key_of, Collection, KnownRecord};

verus! {

/// A failure reported by the authoritative store.
#[derive(Clone, Debug)]
pub struct RemoteError {
    pub message: String,
}

/// Why a write was refused or failed.
#[derive(Clone, Debug)]
pub enum WriteError {
    /// The input is malformed; the message says how.
    Validation(String),
    /// The author already has a stack with this label.
    DuplicateLabel,
    /// The acting account does not own the entity.
    Forbidden,
    /// The entity is not in the cache.
    NotFound,
    /// The authoritative store failed the write.
    Remote(RemoteError),
}

/// A write to make against the authoritative store, in the repository of the
/// account `repo`.
#[derive(Clone, Debug)]
pub enum RemoteRequest {
    Create { collection: Collection, repo: String, record: KnownRecord },
    Put { collection: Collection, repo: String, rkey: String, record: KnownRecord },
    Delete { collection: Collection, repo: String, rkey: String },
}

/// `row` is the cache row of the stack that `form` created under `uri`, owned
/// by `author`.
pub open spec fn stack_row_from_form(
    row: DbStack,
    form: StackForm,
    author: Seq<char>,
    uri: Seq<char>,
) -> bool {
    &&& row.uri@ == uri
    &&& row.author_did@ == author
    &&& row.back_lang == form.back_lang
    &&& row.front_lang == form.front_lang
    &&& row.label == form.stack_label
    &&& row.created_at == row.indexed_at
}

/// `row` is the cache row of the card that `form` wrote under `uri`, owned by
/// `author`.
pub open spec fn card_row_from_form(row: DbCard, form: CardForm, author: Seq<char>, uri: Seq<char>) -> bool {
    &&& row.uri@ == uri
    &&& row.author_did@ == author
    &&& row.back_lang == form.back_lang
    &&& row.back_text == form.back_text
    &&& row.front_lang == form.front_lang
    &&& row.front_text == form.front_text
    &&& row.stack_id == form.stack_id
    &&& row.created_at == row.indexed_at
}

/// The stacks `after` are the stacks `before` once the stack that `form`
/// created remotely under `uri` for `author` was mirrored: its row added,
/// unless the URI or the author's label was taken.
pub open spec fn stack_created(
    before: Seq<DbStack>,
    after: Seq<DbStack>,
    form: StackForm,
    author: Seq<char>,
    uri: Seq<char>,
) -> bool {
    exists|row: DbStack|
        {
            &&& #[trigger] stack_row_from_form(row, form, author, uri)
            &&& if !has_stack(before, uri) && !label_clash(before, row) {
                after == before.push(row)
            } else {
                after == before
            }
        }
}

/// The stack form's complaint, as `StackForm::validate` words it.
pub open spec fn stack_form_message(form: StackForm) -> Seq<char> {
    if !lang_ok(form.front_lang) {
        bad_front_message(form.front_lang->0@)
    } else {
        bad_back_message(form.back_lang->0@)
    }
}

/// The card form's complaint, as `CardForm::validate` words it.
pub open spec fn card_form_message(form: CardForm) -> Seq<char> {
    if !iso_639_1_known(form.front_lang@) {
        bad_front_message(form.front_lang@)
    } else {
        bad_back_message(form.back_lang@)
    }
}

/// The card form's languages are both recognised.
pub open spec fn card_form_ok(form: CardForm) -> bool {
    iso_639_1_known(form.front_lang@) && iso_639_1_known(form.back_lang@)
}

/// The outcome of a remote write, as the caller sees it.
pub open spec fn remote_result<T>(outcome: Result<T, RemoteError>, ok: T) -> Result<T, WriteError> {
    match outcome {
        Ok(_) => Ok(ok),
        Err(e) => Err(WriteError::Remote(e)),
    }
}

/// When the remote write failed, `r` reports that failure.
pub open spec fn failure_passed_on<T, U>(outcome: Result<T, RemoteError>, r: Result<U, WriteError>) -> bool {
    match outcome {
        Err(e) => r == Err::<U, WriteError>(WriteError::Remote(e)),
        Ok(_) => true,
    }
}

/// First step of creating a stack: rejects a malformed form and a label that
/// the author already uses, without a remote call; otherwise asks to create
/// the stack record in the author's repository.
pub fn begin_create_stack(cache: &CacheStore, author_did: &str, form: &StackForm) -> (r: Result<
    RemoteRequest,
    WriteError,
>)
    ensures
        !(lang_ok(form.front_lang) && lang_ok(form.back_lang)) ==> (r matches Err(
            WriteError::Validation(m),
        ) && m@ == stack_form_message(*form)),
        lang_ok(form.front_lang) && lang_ok(form.back_lang) && label_taken(
            cache.stacks@,
            author_did@,
            form.stack_label@,
        ) ==> r matches Err(WriteError::DuplicateLabel),
        lang_ok(form.front_lang) && lang_ok(form.back_lang) && !label_taken(
            cache.stacks@,
            author_did@,
            form.stack_label@,
        ) ==> (r matches Ok(RemoteRequest::Create { collection, repo, record }) && collection
            == Collection::Stack && repo@ == author_did@ && stack_record_of(*form, record)),
{
    if let Some(m) = form.validate() {
        return Err(WriteError::Validation(m));
    }
    if cache.label_taken(author_did, form.stack_label.as_str()) {
        return Err(WriteError::DuplicateLabel);
    }
    Ok(
        RemoteRequest::Create {
            collection: Collection::Stack,
            repo: author_did.to_owned(),
            record: form.to_record(),
        },
    )
}

/// Last step of creating a stack: on remote success the new stack `uri` is
/// reported and its row is inserted into the cache, unless the cache refuses
/// it; on remote failure the failure is reported and the cache is left alone.
pub fn finish_create_stack(
    cache: &mut CacheStore,
    author_did: &str,
    form: &StackForm,
    outcome: Result<String, RemoteError>,
) -> (r: Result<String, WriteError>)
    requires
        old(cache).wf(),
    ensures
        final(cache).wf(),
        outcome is Err ==> failure_passed_on(outcome, r) && unchanged(
            *final(cache),
            *old(cache),
        ),
        outcome matches Ok(uri) ==> {
            &&& r == Ok::<String, WriteError>(uri)
            &&& stack_created(old(cache).stacks@, final(cache).stacks@, *form, author_did@, uri@)
            &&& final(cache).cards@ == old(cache).cards@
            &&& final(cache).sessions@ == old(cache).sessions@
            &&& final(cache).states@ == old(cache).states@
        },
{
    match outcome {
        Err(e) => Err(WriteError::Remote(e)),
        Ok(uri) => {
            let args = form.to_args(uri.clone(), author_did.to_owned());
            let row = DbStack::new(args);
            assert(stack_row_from_form(row, *form, author_did@, uri@));
            let _ = row.save(cache);
            Ok(uri)
        },
    }
}

/// First step of editing a stack: refuses an account that does not own it
/// and then a malformed form, without a remote call; otherwise asks to
/// replace the stack record.
pub fn begin_update_stack(
    cache: &CacheStore,
    author_did: &str,
    stack_uri: &str,
    form: &StackForm,
) -> (r: Result<RemoteRequest, WriteError>)
    requires
        cache.wf(),
    ensures
        !stack_owned(cache.stacks@, author_did@, stack_uri@) ==> r matches Err(
            WriteError::Forbidden,
        ),
        stack_owned(cache.stacks@, author_did@, stack_uri@) && !(lang_ok(form.front_lang)
            && lang_ok(form.back_lang)) ==> (r matches Err(WriteError::Validation(m)) && m@
            == stack_form_message(*form)),
        stack_owned(cache.stacks@, author_did@, stack_uri@) && lang_ok(form.front_lang)
            && lang_ok(form.back_lang) ==> (r matches Ok(
            RemoteRequest::Put { collection, repo, rkey, record },
        ) && collection == Collection::Stack && repo@ == author_did@ && is_record_key_of(
            stack_uri@,
            rkey@,
        ) && stack_record_of(*form, record)),
{
    if !DbStack::is_owned_by(author_did, stack_uri, cache) {
        return Err(WriteError::Forbidden);
    }
    if let Some(m) = form.validate() {
        return Err(WriteError::Validation(m));
    }
    Ok(
        RemoteRequest::Put {
            collection: Collection::Stack,
            repo: author_did.to_owned(),
            rkey: record_key_of(stack_uri).to_owned(),
            record: form.to_record(),
        },
    )
}

/// Last step of editing a stack: on remote success the cache row is edited
/// (when the account still owns it and the label stays unique among its
/// stacks) and success is reported; on remote failure the failure is
/// reported and the cache is left alone.
pub fn finish_update_stack(
    cache: &mut CacheStore,
    author_did: &str,
    stack_uri: &str,
    form: &StackForm,
    outcome: Result<(), RemoteError>,
) -> (r: Result<(), WriteError>)
    requires
        old(cache).wf(),
    ensures
        final(cache).wf(),
        r == remote_result(outcome, ()),
        outcome is Err ==> unchanged(*final(cache), *old(cache)),
        outcome is Ok ==> {
            &&& exists|row: DbStack|
                {
                    &&& #[trigger] stack_row_from_form(row, *form, author_did@, stack_uri@)
                    &&& if stack_owned(old(cache).stacks@, author_did@, stack_uri@) && !label_clash(
                        old(cache).stacks@,
                        row,
                    ) {
                        final(cache).stacks@ == upserted_stacks(old(cache).stacks@, row)
                    } else {
                        final(cache).stacks@ == old(cache).stacks@
                    }
                }
            &&& final(cache).cards@ == old(cache).cards@
            &&& final(cache).sessions@ == old(cache).sessions@
            &&& final(cache).states@ == old(cache).states@
        },
{
    match outcome {
        Err(e) => Err(WriteError::Remote(e)),
        Ok(()) => {
            let args = form.to_update_args(stack_uri.to_owned(), author_did.to_owned());
            let ghost before = cache.stacks@;
            let _ = args.update_owned(cache);
            proof {
                let t = 0i64;
                if !stack_owned(before, author_did@, stack_uri@) {
                    assert(stack_row_from_form(crate::cache::edited_row(args, t), *form, author_did@, stack_uri@));
                } else {
                    let t = choose|t: i64| {
                        let row = #[trigger] crate::cache::edited_row(args, t);
                        &&& (label_clash(before, row) ==> cache.stacks@ == before)
                        &&& (!label_clash(before, row) ==> cache.stacks@ == upserted_stacks(before, row))
                    };
                    assert(stack_row_from_form(crate::cache::edited_row(args, t), *form, author_did@, stack_uri@));
                }
            }
            Ok(())
        },
    }
}

/// First step of deleting a stack: refuses an account that does not own it,
/// without a remote call and leaving the cache alone; otherwise removes the
/// stack and its cards from the cache and asks to delete the stack record.
pub fn begin_delete_stack(cache: &mut CacheStore, author_did: &str, stack_uri: &str) -> (r: Result<
    RemoteRequest,
    WriteError,
>)
    requires
        old(cache).wf(),
    ensures
        final(cache).wf(),
        !stack_owned(old(cache).stacks@, author_did@, stack_uri@) ==> (r matches Err(
            WriteError::Forbidden,
        ) && unchanged(*final(cache), *old(cache))),
        stack_owned(old(cache).stacks@, author_did@, stack_uri@) ==> {
            &&& r matches Ok(RemoteRequest::Delete { collection, repo, rkey }) && collection
                == Collection::Stack && repo@ == author_did@ && is_record_key_of(
                stack_uri@,
                rkey@,
            )
            &&& final(cache).stacks@ == old(cache).stacks@.filter(stack_other_than(stack_uri@))
            &&& final(cache).cards@ == old(cache).cards@.filter(card_outside_stack(stack_uri@))
            &&& final(cache).sessions@ == old(cache).sessions@
            &&& final(cache).states@ == old(cache).states@
        },
{
    if !DbStack::is_owned_by(author_did, stack_uri, cache) {
        return Err(WriteError::Forbidden);
    }
    DbStack::delete_by_uri(stack_uri, cache);
    Ok(
        RemoteRequest::Delete {
            collection: Collection::Stack,
            repo: author_did.to_owned(),
            rkey: record_key_of(stack_uri).to_owned(),
        },
    )
}

/// Last step of a delete: reports what the authoritative store answered. The
/// cache was emptied before the remote call, whatever its outcome.
pub fn finish_delete(outcome: Result<(), RemoteError>) -> (r: Result<(), WriteError>)
    ensures
        r == remote_result(outcome, ()),
{
    match outcome {
        Ok(()) => Ok(()),
        Err(e) => Err(WriteError::Remote(e)),
    }
}

/// First step of creating a card: rejects a malformed form without a remote
/// call; otherwise asks to create the card record in the author's repository.
pub fn begin_create_card(author_did: &str, form: &CardForm) -> (r: Result<RemoteRequest, WriteError>)
    ensures
        !card_form_ok(*form) ==> (r matches Err(WriteError::Validation(m)) && m@
            == card_form_message(*form)),
        card_form_ok(*form) ==> (r matches Ok(RemoteRequest::Create { collection, repo, record })
            && collection == Collection::Card && repo@ == author_did@ && card_record_of(
            *form,
            record,
        )),
{
    if let Some(m) = form.validate() {
        return Err(WriteError::Validation(m));
    }
    Ok(
        RemoteRequest::Create {
            collection: Collection::Card,
            repo: author_did.to_owned(),
            record: form.as_record(),
        },
    )
}

/// Last step of creating a card: on remote success the new card is reported
/// and its row is inserted into the cache, unless the cache refuses it; on
/// remote failure the failure is reported and the cache is left alone.
pub fn finish_create_card(
    cache: &mut CacheStore,
    author_did: &str,
    form: &CardForm,
    outcome: Result<String, RemoteError>,
) -> (r: Result<DisplayCard, WriteError>)
    requires
        old(cache).wf(),
    ensures
        final(cache).wf(),
        outcome is Err ==> failure_passed_on(outcome, r) && unchanged(
            *final(cache),
            *old(cache),
        ),
        outcome matches Ok(uri) ==> {
            &&& r == Ok::<DisplayCard, WriteError>(
                DisplayCard {
                    uri: uri,
                    back_lang: form.back_lang,
                    back_text: form.back_text,
                    front_lang: form.front_lang,
                    front_text: form.front_text,
                },
            )
            &&& exists|row: DbCard|
                {
                    &&& #[trigger] card_row_from_form(row, *form, author_did@, uri@)
                    &&& if !has_card(old(cache).cards@, uri@) && has_stack(
                        old(cache).stacks@,
                        form.stack_id@,
                    ) {
                        final(cache).cards@ == old(cache).cards@.push(row)
                    } else {
                        final(cache).cards@ == old(cache).cards@
                    }
                }
            &&& final(cache).stacks@ == old(cache).stacks@
            &&& final(cache).sessions@ == old(cache).sessions@
            &&& final(cache).states@ == old(cache).states@
        },
{
    match outcome {
        Err(e) => Err(WriteError::Remote(e)),
        Ok(uri) => {
            let args = form.as_args(uri.clone(), author_did.to_owned());
            let row = DbCard::new(args);
            assert(card_row_from_form(row, *form, author_did@, uri@));
            let _ = row.save(cache);
            Ok(form.as_display(uri))
        },
    }
}

/// First step of editing a card: refuses an account that does not own it and
/// then a malformed form, without a remote call; otherwise asks to replace
/// the card record.
pub fn begin_update_card(
    cache: &CacheStore,
    author_did: &str,
    card_uri: &str,
    form: &CardForm,
) -> (r: Result<RemoteRequest, WriteError>)
    requires
        cache.wf(),
    ensures
        !card_owned(cache.cards@, author_did@, card_uri@) ==> r matches Err(WriteError::Forbidden),
        card_owned(cache.cards@, author_did@, card_uri@) && !card_form_ok(*form) ==> (r matches Err(
            WriteError::Validation(m),
        ) && m@ == card_form_message(*form)),
        card_owned(cache.cards@, author_did@, card_uri@) && card_form_ok(*form) ==> (r matches Ok(
            RemoteRequest::Put { collection, repo, rkey, record },
        ) && collection == Collection::Card && repo@ == author_did@ && is_record_key_of(
            card_uri@,
            rkey@,
        ) && card_record_of(*form, record)),
{
    if !DbCard::is_owned_by(author_did, card_uri, cache) {
        return Err(WriteError::Forbidden);
    }
    if let Some(m) = form.validate() {
        return Err(WriteError::Validation(m));
    }
    Ok(
        RemoteRequest::Put {
            collection: Collection::Card,
            repo: author_did.to_owned(),
            rkey: record_key_of(card_uri).to_owned(),
            record: form.as_record(),
        },
    )
}

/// Last step of editing a card: on remote success the card's cache row is
/// rewritten (keeping its creation time, unless the cache refuses the row)
/// and the card is reported; on remote failure the failure is reported and
/// the cache is left alone.
pub fn finish_update_card(
    cache: &mut CacheStore,
    author_did: &str,
    card_uri: &str,
    form: &CardForm,
    outcome: Result<(), RemoteError>,
) -> (r: Result<DisplayCard, WriteError>)
    requires
        old(cache).wf(),
    ensures
        final(cache).wf(),
        outcome is Err ==> failure_passed_on(outcome, r) && unchanged(
            *final(cache),
            *old(cache),
        ),
        outcome is Ok ==> {
            &&& r matches Ok(d) && d.uri@ == card_uri@ && d.back_lang == form.back_lang
                && d.back_text == form.back_text && d.front_lang == form.front_lang
                && d.front_text == form.front_text
            &&& exists|row: DbCard|
                {
                    &&& #[trigger] card_row_from_form(row, *form, author_did@, card_uri@)
                    &&& if has_stack(old(cache).stacks@, form.stack_id@) {
                        final(cache).cards@ == upserted_cards(old(cache).cards@, row)
                    } else {
                        final(cache).cards@ == old(cache).cards@
                    }
                }
            &&& final(cache).stacks@ == old(cache).stacks@
            &&& final(cache).sessions@ == old(cache).sessions@
            &&& final(cache).states@ == old(cache).states@
        },
{
    match outcome {
        Err(e) => Err(WriteError::Remote(e)),
        Ok(()) => {
            let args = form.as_args(card_uri.to_owned(), author_did.to_owned());
            let row = DbCard::new(args);
            assert(card_row_from_form(row, *form, author_did@, card_uri@));
            let _ = row.upsert(cache);
            Ok(form.as_display(card_uri.to_owned()))
        },
    }
}

/// First step of deleting a card: refuses an account that does not own it,
/// without a remote call and leaving the cache alone; otherwise removes the
/// card from the cache and asks to delete the card record.
pub fn begin_delete_card(cache: &mut CacheStore, author_did: &str, card_uri: &str) -> (r: Result<
    RemoteRequest,
    WriteError,
>)
    requires
        old(cache).wf(),
    ensures
        final(cache).wf(),
        !card_owned(old(cache).cards@, author_did@, card_uri@) ==> (r matches Err(
            WriteError::Forbidden,
        ) && unchanged(*final(cache), *old(cache))),
        card_owned(old(cache).cards@, author_did@, card_uri@) ==> {
            &&& r matches Ok(RemoteRequest::Delete { collection, repo, rkey }) && collection
                == Collection::Card && repo@ == author_did@ && is_record_key_of(card_uri@, rkey@)
            &&& final(cache).cards@ == old(cache).cards@.filter(card_other_than(card_uri@))
            &&& final(cache).stacks@ == old(cache).stacks@
            &&& final(cache).sessions@ == old(cache).sessions@
            &&& final(cache).states@ == old(cache).states@
        },
{
    if !DbCard::is_owned_by(author_did, card_uri, cache) {
        return Err(WriteError::Forbidden);
    }
    DbCard::delete_by_uri(card_uri, cache);
    Ok(
        RemoteRequest::Delete {
            collection: Collection::Card,
            repo: author_did.to_owned(),
            rkey: record_key_of(card_uri).to_owned(),
        },
    )
}

} // verus!
