use flatshcards::cache::CacheStore;
use flatshcards::clone::{begin_clone, CloneJob};
use flatshcards::coordinator::{
    begin_create_card, begin_create_stack, begin_delete_card, begin_delete_stack,
    begin_update_card, begin_update_stack, finish_create_card, finish_create_stack, finish_delete,
    finish_update_card, finish_update_stack, RemoteError, RemoteRequest, WriteError,
};
use flatshcards::db::{DbCard, DisplayCard, StackDetails};
use flatshcards::forms::{CardForm, StackForm};
use flatshcards::reconciler::{
    apply_event, Applied, ChangeEvent, Operation, StreamAction, StreamSignal, StreamState,
};
use flatshcards::records::{Card, Collection, KnownRecord, Stack};

fn stack_form(label: &str, front: Option<&str>, back: Option<&str>) -> StackForm {
    StackForm {
        back_lang: back.map(|s| s.to_string()),
        front_lang: front.map(|s| s.to_string()),
        stack_label: label.to_string(),
    }
}

fn card_form(stack: &str, front: &str, back: &str, ft: &str, bt: &str) -> CardForm {
    CardForm {
        front_lang: front.to_string(),
        front_text: ft.to_string(),
        back_lang: back.to_string(),
        back_text: bt.to_string(),
        stack_id: stack.to_string(),
    }
}

fn remote_fail(m: &str) -> RemoteError {
    RemoteError { message: m.to_string() }
}

/// Creates a stack through both steps, the remote store answering `uri`.
fn create_stack(cache: &mut CacheStore, did: &str, form: &StackForm, uri: &str) -> String {
    let req = begin_create_stack(cache, did, form).ok().expect("accepted");
    assert!(matches!(req, RemoteRequest::Create { collection: Collection::Stack, .. }));
    finish_create_stack(cache, did, form, Ok(uri.to_string())).ok().expect("created")
}

fn add_card(cache: &mut CacheStore, did: &str, form: &CardForm, uri: &str) -> DisplayCard {
    let req = begin_create_card(did, form).ok().expect("accepted");
    assert!(matches!(req, RemoteRequest::Create { collection: Collection::Card, .. }));
    finish_create_card(cache, did, form, Ok(uri.to_string())).ok().expect("created")
}

#[test]
fn create_then_read_back_the_row() {
    let mut cache = CacheStore::new();
    let form = stack_form("Spanish Basics", Some("en"), Some("es"));
    let uri = create_stack(&mut cache, "did:plc:alice", &form, "at://did:plc:alice/xyz.flatshcards.stack/1");
    assert_eq!(uri, "at://did:plc:alice/xyz.flatshcards.stack/1");
    let row = cache.stacks.iter().find(|s| s.uri == uri).expect("row");
    assert_eq!(row.author_did, "did:plc:alice");
    assert_eq!(row.label, "Spanish Basics");
    assert_eq!(row.front_lang.as_deref(), Some("en"));
    assert_eq!(row.back_lang.as_deref(), Some("es"));
    assert_eq!(row.created_at, row.indexed_at);
}

#[test]
fn create_request_carries_the_form() {
    let cache = CacheStore::new();
    let form = stack_form("Basics", None, Some("fr"));
    match begin_create_stack(&cache, "did:a", &form) {
        Ok(RemoteRequest::Create { collection, repo, record }) => {
            assert_eq!(collection, Collection::Stack);
            assert_eq!(repo, "did:a");
            match record {
                KnownRecord::LexiconXyzFlatshcardsCardsStack(s) => {
                    assert_eq!(s.label, "Basics");
                    assert_eq!(s.front_lang, None);
                    assert_eq!(s.back_lang.as_deref(), Some("fr"));
                    assert!(!s.created_at.is_empty());
                }
                _ => panic!("not a stack record"),
            }
        }
        _ => panic!("not a create request"),
    }
}

#[test]
fn create_with_unknown_language_fails_validation() {
    let cache = CacheStore::new();
    match begin_create_stack(&cache, "did:a", &stack_form("x", Some("zz"), Some("es"))) {
        Err(WriteError::Validation(m)) => assert_eq!(m, "Invalid front language zz"),
        _ => panic!("expected a validation error"),
    }
    match begin_create_stack(&cache, "did:a", &stack_form("x", None, Some("qq"))) {
        Err(WriteError::Validation(m)) => assert_eq!(m, "Invalid back language qq"),
        _ => panic!("expected a validation error"),
    }
    match begin_create_card("did:a", &card_form("s", "en", "xx", "a", "b")) {
        Err(WriteError::Validation(m)) => assert_eq!(m, "Invalid back language xx"),
        _ => panic!("expected a validation error"),
    }
}

#[test]
fn second_stack_with_same_label_is_refused() {
    let mut cache = CacheStore::new();
    let form = stack_form("Spanish Basics", Some("en"), Some("es"));
    create_stack(&mut cache, "did:a", &form, "at://did:a/xyz.flatshcards.stack/1");
    assert!(matches!(
        begin_create_stack(&cache, "did:a", &form),
        Err(WriteError::DuplicateLabel)
    ));
    // Another account may use the label.
    assert!(begin_create_stack(&cache, "did:b", &form).is_ok());
    assert_eq!(cache.stacks.len(), 1);
}

#[test]
fn remote_failure_on_create_leaves_cache_alone() {
    let mut cache = CacheStore::new();
    let form = stack_form("Basics", None, None);
    match finish_create_stack(&mut cache, "did:a", &form, Err(remote_fail("down"))) {
        Err(WriteError::Remote(e)) => assert_eq!(e.message, "down"),
        _ => panic!("expected the remote failure"),
    }
    assert!(cache.stacks.is_empty());
    let cf = card_form("s", "en", "es", "a", "b");
    assert!(matches!(
        finish_create_card(&mut cache, "did:a", &cf, Err(remote_fail("down"))),
        Err(WriteError::Remote(_))
    ));
    assert!(cache.cards.is_empty());
}

#[test]
fn cache_refusal_after_remote_success_is_not_reported() {
    let mut cache = CacheStore::new();
    let form = stack_form("Basics", None, None);
    create_stack(&mut cache, "did:a", &form, "at://did:a/xyz.flatshcards.stack/1");
    // The same label again, as if written from another client meanwhile.
    let r = finish_create_stack(&mut cache, "did:a", &form, Ok("at://did:a/xyz.flatshcards.stack/2".to_string()));
    assert_eq!(r.ok(), Some("at://did:a/xyz.flatshcards.stack/2".to_string()));
    assert_eq!(cache.stacks.len(), 1);
}

#[test]
fn other_account_cannot_edit_or_delete() {
    let mut cache = CacheStore::new();
    let form = stack_form("Basics", Some("en"), Some("es"));
    let s = create_stack(&mut cache, "did:a", &form, "at://did:a/xyz.flatshcards.stack/1");
    let c = add_card(&mut cache, "did:a", &card_form(&s, "en", "es", "hello", "hola"), "at://did:a/xyz.flatshcards.card/1");
    let renamed = stack_form("Mine now", None, None);
    assert!(matches!(begin_update_stack(&cache, "did:b", &s, &renamed), Err(WriteError::Forbidden)));
    assert!(matches!(begin_delete_stack(&mut cache, "did:b", &s), Err(WriteError::Forbidden)));
    let cf = card_form(&s, "en", "es", "x", "y");
    assert!(matches!(begin_update_card(&cache, "did:b", &c.uri, &cf), Err(WriteError::Forbidden)));
    assert!(matches!(begin_delete_card(&mut cache, "did:b", &c.uri), Err(WriteError::Forbidden)));
    assert_eq!(cache.stacks.len(), 1);
    assert_eq!(cache.stacks[0].label, "Basics");
    assert_eq!(cache.cards.len(), 1);
    assert!(matches!(begin_update_stack(&cache, "did:a", "at://nowhere", &renamed), Err(WriteError::Forbidden)));
}

#[test]
fn owner_edits_stack_through_both_stores() {
    let mut cache = CacheStore::new();
    let s = create_stack(&mut cache, "did:a", &stack_form("Basics", None, None), "at://did:a/xyz.flatshcards.stack/3k2");
    let renamed = stack_form("Advanced", Some("de"), None);
    match begin_update_stack(&cache, "did:a", &s, &renamed) {
        Ok(RemoteRequest::Put { collection, repo, rkey, .. }) => {
            assert_eq!(collection, Collection::Stack);
            assert_eq!(repo, "did:a");
            assert_eq!(rkey, "3k2");
        }
        _ => panic!("expected a put request"),
    }
    assert!(matches!(
        begin_update_stack(&cache, "did:a", &s, &stack_form("Bad", Some("zz"), None)),
        Err(WriteError::Validation(_))
    ));
    // A failed remote edit leaves the cache row as it was.
    assert!(matches!(
        finish_update_stack(&mut cache, "did:a", &s, &renamed, Err(remote_fail("x"))),
        Err(WriteError::Remote(_))
    ));
    assert_eq!(cache.stacks[0].label, "Basics");
    assert!(finish_update_stack(&mut cache, "did:a", &s, &renamed, Ok(())).is_ok());
    assert_eq!(cache.stacks[0].label, "Advanced");
    assert_eq!(cache.stacks[0].front_lang.as_deref(), Some("de"));
}

#[test]
fn owner_edits_card_through_both_stores() {
    let mut cache = CacheStore::new();
    let s = create_stack(&mut cache, "did:a", &stack_form("Basics", None, None), "at://did:a/xyz.flatshcards.stack/1");
    let c = add_card(&mut cache, "did:a", &card_form(&s, "en", "es", "hello", "hola"), "at://did:a/xyz.flatshcards.card/7");
    let edit = card_form(&s, "en", "es", "good bye", "adios");
    match begin_update_card(&cache, "did:a", &c.uri, &edit) {
        Ok(RemoteRequest::Put { collection, rkey, record, .. }) => {
            assert_eq!(collection, Collection::Card);
            assert_eq!(rkey, "7");
            match record {
                KnownRecord::LexiconXyzFlatshcardsCardsCard(card) => {
                    assert_eq!(card.front_text, "good bye");
                    assert_eq!(card.stack_id, "1");
                }
                _ => panic!("not a card record"),
            }
        }
        _ => panic!("expected a put request"),
    }
    let shown = finish_update_card(&mut cache, "did:a", &c.uri, &edit, Ok(())).ok().expect("edited");
    assert_eq!(shown.uri, c.uri);
    assert_eq!(shown.front_text, "good bye");
    assert_eq!(cache.cards.len(), 1);
    assert_eq!(cache.cards[0].back_text, "adios");
}

#[test]
fn deleting_stack_empties_cache_whatever_the_remote_answer() {
    for remote_ok in [true, false] {
        let mut cache = CacheStore::new();
        let s = create_stack(&mut cache, "did:a", &stack_form("Basics", Some("en"), Some("es")), "at://did:a/xyz.flatshcards.stack/1");
        add_card(&mut cache, "did:a", &card_form(&s, "en", "es", "hello", "hola"), "at://did:a/xyz.flatshcards.card/1");
        add_card(&mut cache, "did:a", &card_form(&s, "en", "es", "bye", "adios"), "at://did:a/xyz.flatshcards.card/2");
        let req = begin_delete_stack(&mut cache, "did:a", &s).ok().expect("owned");
        assert!(matches!(req, RemoteRequest::Delete { collection: Collection::Stack, .. }));
        assert!(cache.stacks.is_empty());
        assert!(cache.cards.is_empty());
        let outcome = if remote_ok { Ok(()) } else { Err(remote_fail("down")) };
        assert_eq!(finish_delete(outcome).is_ok(), remote_ok);
        assert!(DisplayCard::stack_cards(&s, &cache).is_empty());
    }
}

#[test]
fn deleting_card_removes_it_first() {
    let mut cache = CacheStore::new();
    let s = create_stack(&mut cache, "did:a", &stack_form("Basics", None, None), "at://did:a/xyz.flatshcards.stack/1");
    let c = add_card(&mut cache, "did:a", &card_form(&s, "en", "es", "hello", "hola"), "at://did:a/xyz.flatshcards.card/1");
    match begin_delete_card(&mut cache, "did:a", &c.uri) {
        Ok(RemoteRequest::Delete { collection, rkey, .. }) => {
            assert_eq!(collection, Collection::Card);
            assert_eq!(rkey, "1");
        }
        _ => panic!("expected a delete request"),
    }
    assert!(cache.cards.is_empty());
    assert!(matches!(finish_delete(Err(remote_fail("gone"))), Err(WriteError::Remote(_))));
}

/// Drives a clone job against a remote store that fails the first
/// `failures` calls, answering `at://<did>/xyz.flatshcards.card/<n>` after.
fn run_clone(cache: &mut CacheStore, did: &str, src: &str, new_uri: &str, failures: usize) -> (CloneJob, usize) {
    let (data, req) = begin_clone(cache, did, src).ok().expect("source found");
    assert!(matches!(req, RemoteRequest::Create { collection: Collection::Stack, .. }));
    let mut job = CloneJob::start(cache, did, src, &data, new_uri.to_string());
    let mut calls = 0usize;
    let mut made = 0usize;
    while !job.is_done() {
        let req = job.next_request().expect("a card is waiting");
        assert!(matches!(req, RemoteRequest::Create { collection: Collection::Card, .. }));
        calls += 1;
        let outcome = if calls <= failures {
            Err(remote_fail("busy"))
        } else {
            made += 1;
            Ok(format!("at://{did}/xyz.flatshcards.card/{made}"))
        };
        job.record_outcome(cache, outcome);
    }
    assert!(job.next_request().is_none());
    (job, calls)
}

#[test]
fn clone_retries_until_every_card_is_created_once() {
    let mut cache = CacheStore::new();
    let s = create_stack(&mut cache, "did:a", &stack_form("Basics", Some("en"), Some("es")), "at://did:a/xyz.flatshcards.stack/1");
    add_card(&mut cache, "did:a", &card_form(&s, "en", "es", "hello", "hola"), "at://did:a/xyz.flatshcards.card/1");
    add_card(&mut cache, "did:a", &card_form(&s, "en", "es", "bye", "adios"), "at://did:a/xyz.flatshcards.card/2");
    add_card(&mut cache, "did:a", &card_form(&s, "es", "en", "gato", "cat"), "at://did:a/xyz.flatshcards.card/3");
    let (job, calls) = run_clone(&mut cache, "did:b", &s, "at://did:b/xyz.flatshcards.stack/9", 2);
    assert_eq!(calls, 5);
    assert!(job.created.iter().all(|c| c.is_some()));
    let mut made: Vec<String> = job.created.iter().map(|c| c.clone().unwrap()).collect();
    made.sort();
    made.dedup();
    assert_eq!(made.len(), 3);
    let report = job.finish();
    assert_eq!(report.new_stack_uri, "at://did:b/xyz.flatshcards.stack/9");
    assert_eq!(report.first_error.map(|e| e.message), Some("busy".to_string()));
    assert_eq!(DisplayCard::stack_cards("at://did:b/xyz.flatshcards.stack/9", &cache).len(), 3);
}

#[test]
fn clone_without_failures_reports_none() {
    let mut cache = CacheStore::new();
    let s = create_stack(&mut cache, "did:a", &stack_form("Basics", None, None), "at://did:a/xyz.flatshcards.stack/1");
    let (job, calls) = run_clone(&mut cache, "did:b", &s, "at://did:b/xyz.flatshcards.stack/2", 0);
    assert_eq!(calls, 0);
    assert!(job.finish().first_error.is_none());
    assert!(matches!(begin_clone(&cache, "did:b", "at://nowhere"), Err(WriteError::NotFound)));
}

#[test]
fn spanish_basics_scenario() {
    let mut cache = CacheStore::new();
    let alice = "did:plc:alice";
    let bob = "did:plc:bob";
    let s = create_stack(&mut cache, alice, &stack_form("Spanish Basics", Some("en"), Some("es")), "at://did:plc:alice/xyz.flatshcards.stack/1");
    let mine = StackDetails::user_stacks(alice, &cache);
    assert_eq!(mine.len(), 1);
    assert_eq!(mine[0].uri, s);
    add_card(&mut cache, alice, &card_form(&s, "en", "es", "hello", "hola"), "at://did:plc:alice/xyz.flatshcards.card/1");
    add_card(&mut cache, alice, &card_form(&s, "en", "es", "thank you", "gracias"), "at://did:plc:alice/xyz.flatshcards.card/2");
    let cards = DisplayCard::stack_cards(&s, &cache);
    assert_eq!(cards.len(), 2);
    assert!(cache.cards.iter().all(|c| c.stack_id == s));

    let (job, _) = run_clone(&mut cache, bob, &s, "at://did:plc:bob/xyz.flatshcards.stack/5", 0);
    let report = job.finish();
    let bobs = StackDetails::user_stacks(bob, &cache);
    assert_eq!(bobs.len(), 1);
    assert_ne!(bobs[0].uri, s);
    assert_eq!(bobs[0].uri, report.new_stack_uri);
    assert_eq!(bobs[0].label, "Spanish Basics");
    assert_eq!(bobs[0].front_lang.as_deref(), Some("en"));
    assert_eq!(bobs[0].back_lang.as_deref(), Some("es"));
    let key = |c: &DisplayCard| (c.front_lang.clone(), c.front_text.clone(), c.back_lang.clone(), c.back_text.clone());
    let mut src: Vec<_> = cards.iter().map(key).collect();
    let mut copy: Vec<_> = DisplayCard::stack_cards(&report.new_stack_uri, &cache).iter().map(key).collect();
    src.sort();
    copy.sort();
    assert_eq!(src, copy);
}

fn stack_event(op: Operation, uri: &str, label: &str, time: i64) -> ChangeEvent {
    ChangeEvent {
        collection: "xyz.flatshcards.stack".to_string(),
        did: "did:plc:carol".to_string(),
        uri: uri.to_string(),
        operation: op,
        record: Some(KnownRecord::LexiconXyzFlatshcardsCardsStack(Box::new(Stack {
            back_lang: Some("es".to_string()),
            created_at: "2024-01-01T00:00:00.000Z".to_string(),
            front_lang: None,
            label: label.to_string(),
        }))),
        time,
    }
}

fn card_event(op: Operation, uri: &str, stack_rkey: &str, time: i64) -> ChangeEvent {
    ChangeEvent {
        collection: "xyz.flatshcards.card".to_string(),
        did: "did:plc:carol".to_string(),
        uri: uri.to_string(),
        operation: op,
        record: Some(KnownRecord::LexiconXyzFlatshcardsCardsCard(Box::new(Card {
            back_lang: "es".to_string(),
            back_text: "perro".to_string(),
            created_at: "2024-01-01T00:00:00.000Z".to_string(),
            front_lang: "en".to_string(),
            front_text: "dog".to_string(),
            stack_id: stack_rkey.to_string(),
        }))),
        time,
    }
}

#[test]
fn same_create_event_twice_is_applied_once() {
    let mut cache = CacheStore::new();
    let s = "at://did:plc:carol/xyz.flatshcards.stack/abc";
    let e = stack_event(Operation::Create, s, "Animals", 10);
    assert_eq!(apply_event(&mut cache, &e), Applied::Stored);
    let c = card_event(Operation::Create, "at://did:plc:carol/xyz.flatshcards.card/1", "abc", 11);
    assert_eq!(apply_event(&mut cache, &c), Applied::Stored);
    let stacks_once: Vec<(String, String, i64, i64)> = cache.stacks.iter().map(|r| (r.uri.clone(), r.label.clone(), r.created_at, r.indexed_at)).collect();
    let cards_once: Vec<(String, String, i64, i64)> = cache.cards.iter().map(|r| (r.uri.clone(), r.stack_id.clone(), r.created_at, r.indexed_at)).collect();
    assert_eq!(apply_event(&mut cache, &e), Applied::Stored);
    assert_eq!(apply_event(&mut cache, &c), Applied::Stored);
    let stacks_twice: Vec<(String, String, i64, i64)> = cache.stacks.iter().map(|r| (r.uri.clone(), r.label.clone(), r.created_at, r.indexed_at)).collect();
    let cards_twice: Vec<(String, String, i64, i64)> = cache.cards.iter().map(|r| (r.uri.clone(), r.stack_id.clone(), r.created_at, r.indexed_at)).collect();
    assert_eq!(stacks_once, stacks_twice);
    assert_eq!(cards_once, cards_twice);
    assert_eq!(cards_once[0].1, s);
}

#[test]
fn reconciler_updates_deletes_and_ignores() {
    let mut cache = CacheStore::new();
    let s = "at://did:plc:carol/xyz.flatshcards.stack/abc";
    apply_event(&mut cache, &stack_event(Operation::Create, s, "Animals", 10));
    assert_eq!(apply_event(&mut cache, &stack_event(Operation::Update, s, "Pets", 20)), Applied::Stored);
    assert_eq!(cache.stacks[0].label, "Pets");
    assert_eq!(cache.stacks[0].created_at, 10);
    assert_eq!(cache.stacks[0].indexed_at, 20);
    let orphan = card_event(Operation::Create, "at://did:plc:carol/xyz.flatshcards.card/9", "nope", 1);
    assert_eq!(apply_event(&mut cache, &orphan), Applied::Refused(flatshcards::cache::CacheError::MissingStack));
    apply_event(&mut cache, &card_event(Operation::Create, "at://did:plc:carol/xyz.flatshcards.card/1", "abc", 11));
    let mut other = stack_event(Operation::Create, "at://x/app.bsky.feed.post/1", "x", 1);
    other.collection = "app.bsky.feed.post".to_string();
    assert_eq!(apply_event(&mut cache, &other), Applied::Ignored);
    let mut bare = stack_event(Operation::Create, "at://did:plc:carol/xyz.flatshcards.stack/z", "Z", 1);
    bare.record = None;
    assert_eq!(apply_event(&mut cache, &bare), Applied::Ignored);
    assert_eq!(apply_event(&mut cache, &stack_event(Operation::Delete, s, "", 30)), Applied::Removed);
    assert!(cache.stacks.is_empty());
    assert!(cache.cards.is_empty());
    assert_eq!(DbCard::is_owned_by("did:plc:carol", "at://did:plc:carol/xyz.flatshcards.card/1", &cache), false);
}

#[test]
fn reconciler_reconnects_after_a_drop() {
    let s = StreamState::Disconnected;
    let (s, a) = s.step(StreamSignal::Opened);
    assert_eq!((s, a), (StreamState::Streaming, StreamAction::Wait));
    let (s, a) = s.step(StreamSignal::Received);
    assert_eq!((s, a), (StreamState::Streaming, StreamAction::Apply));
    let (s, a) = s.step(StreamSignal::Dropped);
    assert_eq!((s, a), (StreamState::Disconnected, StreamAction::Connect));
    let (s, a) = s.step(StreamSignal::Received);
    assert_eq!((s, a), (StreamState::Disconnected, StreamAction::Connect));
}
