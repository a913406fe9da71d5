use flatshcards::cache::{CacheError, CacheStore};
use flatshcards::db::{
    AuthSession, AuthState, CardArgs, DbCard, DbStack, DisplayCard, StackArgs, StackDetails,
    StackUpdateArgs,
};

fn stack(uri: &str, author: &str, label: &str, t: i64) -> DbStack {
    DbStack::new(StackArgs {
        uri: uri.to_string(),
        author_did: author.to_string(),
        back_lang: Some("es".to_string()),
        front_lang: Some("en".to_string()),
        label: label.to_string(),
        indexed_at: Some(t),
    })
}

fn card(uri: &str, author: &str, stack_id: &str, front: &str, back: &str) -> DbCard {
    DbCard::new(CardArgs {
        uri: uri.to_string(),
        author_did: author.to_string(),
        back_lang: "es".to_string(),
        back_text: back.to_string(),
        front_lang: "en".to_string(),
        front_text: front.to_string(),
        indexed_at: Some(7),
        stack_id: stack_id.to_string(),
    })
}

#[test]
fn new_stack_row_takes_given_time() {
    let s = stack("at://a/s/1", "did:a", "Basics", 42);
    assert_eq!(s.created_at, 42);
    assert_eq!(s.indexed_at, 42);
    assert_eq!(s.label, "Basics");
}

#[test]
fn new_stack_row_without_time_is_indexed_when_created() {
    let s = DbStack::new(StackArgs {
        uri: "u".to_string(),
        author_did: "d".to_string(),
        back_lang: None,
        front_lang: None,
        label: "l".to_string(),
        indexed_at: None,
    });
    assert_eq!(s.created_at, s.indexed_at);
    assert!(s.created_at > 0);
}

#[test]
fn save_refuses_taken_uri_and_label() {
    let mut cache = CacheStore::new();
    assert_eq!(stack("at://a/s/1", "did:a", "Basics", 1).save(&mut cache), Ok(()));
    assert_eq!(
        stack("at://a/s/1", "did:b", "Other", 2).save(&mut cache),
        Err(CacheError::DuplicateUri)
    );
    assert_eq!(
        stack("at://a/s/2", "did:a", "Basics", 2).save(&mut cache),
        Err(CacheError::DuplicateLabel)
    );
    assert_eq!(stack("at://b/s/2", "did:b", "Basics", 2).save(&mut cache), Ok(()));
    assert_eq!(cache.stacks.len(), 2);
}

#[test]
fn upsert_keeps_creation_time_and_refreshes_the_rest() {
    let mut cache = CacheStore::new();
    stack("at://a/s/1", "did:a", "Basics", 1).save(&mut cache).unwrap();
    let mut edited = stack("at://a/s/1", "did:a", "Advanced", 9);
    edited.front_lang = None;
    assert_eq!(edited.upsert(&mut cache), Ok(()));
    assert_eq!(cache.stacks.len(), 1);
    assert_eq!(cache.stacks[0].label, "Advanced");
    assert_eq!(cache.stacks[0].front_lang, None);
    assert_eq!(cache.stacks[0].created_at, 1);
    assert_eq!(cache.stacks[0].indexed_at, 9);
}

#[test]
fn upsert_inserts_missing_row_and_refuses_label_clash() {
    let mut cache = CacheStore::new();
    assert_eq!(stack("at://a/s/1", "did:a", "Basics", 1).upsert(&mut cache), Ok(()));
    assert_eq!(
        stack("at://a/s/2", "did:a", "Basics", 2).upsert(&mut cache),
        Err(CacheError::DuplicateLabel)
    );
    assert_eq!(cache.stacks.len(), 1);
}

#[test]
fn card_save_needs_its_stack_and_a_fresh_uri() {
    let mut cache = CacheStore::new();
    assert_eq!(
        card("at://a/c/1", "did:a", "at://a/s/1", "hello", "hola").save(&mut cache),
        Err(CacheError::MissingStack)
    );
    stack("at://a/s/1", "did:a", "Basics", 1).save(&mut cache).unwrap();
    assert_eq!(card("at://a/c/1", "did:a", "at://a/s/1", "hello", "hola").save(&mut cache), Ok(()));
    assert_eq!(
        card("at://a/c/1", "did:a", "at://a/s/1", "bye", "adios").save(&mut cache),
        Err(CacheError::DuplicateUri)
    );
    // Two cards of one language pair stand side by side.
    assert_eq!(card("at://a/c/2", "did:a", "at://a/s/1", "bye", "adios").save(&mut cache), Ok(()));
    assert_eq!(cache.cards.len(), 2);
}

#[test]
fn card_upsert_rewrites_row() {
    let mut cache = CacheStore::new();
    stack("at://a/s/1", "did:a", "Basics", 1).save(&mut cache).unwrap();
    card("at://a/c/1", "did:a", "at://a/s/1", "hello", "hola").save(&mut cache).unwrap();
    let mut c = card("at://a/c/1", "did:a", "at://a/s/1", "good morning", "buenos dias");
    c.created_at = 100;
    c.indexed_at = 100;
    assert_eq!(c.upsert(&mut cache), Ok(()));
    assert_eq!(cache.cards.len(), 1);
    assert_eq!(cache.cards[0].front_text, "good morning");
    assert_eq!(cache.cards[0].created_at, 7);
    assert_eq!(cache.cards[0].indexed_at, 100);
    let orphan = card("at://a/c/9", "did:a", "at://a/s/404", "x", "y");
    assert_eq!(orphan.upsert(&mut cache), Err(CacheError::MissingStack));
}

#[test]
fn deleting_a_stack_removes_its_cards_only() {
    let mut cache = CacheStore::new();
    stack("at://a/s/1", "did:a", "Basics", 1).save(&mut cache).unwrap();
    stack("at://a/s/2", "did:a", "Verbs", 1).save(&mut cache).unwrap();
    card("at://a/c/1", "did:a", "at://a/s/1", "hello", "hola").save(&mut cache).unwrap();
    card("at://a/c/2", "did:a", "at://a/s/1", "bye", "adios").save(&mut cache).unwrap();
    card("at://a/c/3", "did:a", "at://a/s/2", "to be", "ser").save(&mut cache).unwrap();
    DbStack::delete_by_uri("at://a/s/1", &mut cache);
    assert_eq!(cache.stacks.len(), 1);
    assert_eq!(cache.stacks[0].uri, "at://a/s/2");
    assert_eq!(cache.cards.len(), 1);
    assert_eq!(cache.cards[0].uri, "at://a/c/3");
}

#[test]
fn deleting_a_card_by_uri() {
    let mut cache = CacheStore::new();
    stack("at://a/s/1", "did:a", "Basics", 1).save(&mut cache).unwrap();
    card("at://a/c/1", "did:a", "at://a/s/1", "hello", "hola").save(&mut cache).unwrap();
    card("at://a/c/2", "did:a", "at://a/s/1", "bye", "adios").save(&mut cache).unwrap();
    DbCard::delete_by_uri("at://a/c/1", &mut cache);
    DbCard::delete_by_uri("at://a/c/404", &mut cache);
    assert_eq!(cache.cards.len(), 1);
    assert_eq!(cache.cards[0].uri, "at://a/c/2");
    assert_eq!(cache.stacks.len(), 1);
}

#[test]
fn ownership_is_by_author_and_unknown_uris_are_not_owned() {
    let mut cache = CacheStore::new();
    stack("at://a/s/1", "did:a", "Basics", 1).save(&mut cache).unwrap();
    card("at://a/c/1", "did:a", "at://a/s/1", "hello", "hola").save(&mut cache).unwrap();
    assert!(DbStack::is_owned_by("did:a", "at://a/s/1", &cache));
    assert!(!DbStack::is_owned_by("did:b", "at://a/s/1", &cache));
    assert!(!DbStack::is_owned_by("did:a", "at://a/s/9", &cache));
    assert!(DbCard::is_owned_by("did:a", "at://a/c/1", &cache));
    assert!(!DbCard::is_owned_by("did:b", "at://a/c/1", &cache));
    assert!(!DbCard::is_owned_by("did:a", "at://a/c/9", &cache));
}

#[test]
fn reads_of_stacks_and_cards() {
    let mut cache = CacheStore::new();
    stack("at://a/s/1", "did:a", "Basics", 1).save(&mut cache).unwrap();
    stack("at://b/s/1", "did:b", "Basics", 1).save(&mut cache).unwrap();
    stack("at://a/s/2", "did:a", "Verbs", 1).save(&mut cache).unwrap();
    card("at://a/c/1", "did:a", "at://a/s/1", "hello", "hola").save(&mut cache).unwrap();
    card("at://a/c/2", "did:a", "at://a/s/2", "to be", "ser").save(&mut cache).unwrap();

    let mine: Vec<StackDetails> = StackDetails::user_stacks("did:a", &cache);
    let labels: Vec<&str> = mine.iter().map(|s| s.label.as_str()).collect();
    assert_eq!(labels, vec!["Basics", "Verbs"]);
    assert!(StackDetails::user_stacks("did:c", &cache).is_empty());

    let cards: Vec<DisplayCard> = DisplayCard::stack_cards("at://a/s/2", &cache);
    assert_eq!(cards.len(), 1);
    assert_eq!(cards[0].uri, "at://a/c/2");
    assert_eq!(cards[0].back_text, "ser");

    let owned = DbStack::get_owned_by("did:a", "at://a/s/1", &cache).unwrap();
    assert_eq!(owned.uri, "at://a/s/1");
    assert!(DbStack::get_owned_by("did:b", "at://a/s/1", &cache).is_none());

    let data = DbStack::get_clone_data("at://b/s/1", &cache).unwrap();
    assert_eq!(data.label, "Basics");
    assert_eq!(data.front_lang.as_deref(), Some("en"));
    assert!(DbStack::get_clone_data("at://x", &cache).is_none());

    let clone_cards = DbCard::get_clone_data("at://a/s/1", &cache);
    assert_eq!(clone_cards.len(), 1);
    assert_eq!(clone_cards[0].front_text, "hello");
}

#[test]
fn update_owned_edits_only_an_owned_stack() {
    let mut cache = CacheStore::new();
    stack("at://a/s/1", "did:a", "Basics", 1).save(&mut cache).unwrap();
    stack("at://a/s/2", "did:a", "Verbs", 1).save(&mut cache).unwrap();
    let args = |author: &str, label: &str| StackUpdateArgs {
        uri: "at://a/s/1".to_string(),
        author_did: author.to_string(),
        back_lang: None,
        front_lang: Some("fr".to_string()),
        label: label.to_string(),
    };
    assert_eq!(args("did:b", "Mine").update_owned(&mut cache).unwrap().map(|d| d.label), None);
    assert_eq!(
        args("did:a", "Verbs").update_owned(&mut cache).map(|d| d.map(|d| d.label)),
        Err(CacheError::DuplicateLabel)
    );
    let updated = args("did:a", "French").update_owned(&mut cache).unwrap().unwrap();
    assert_eq!(updated.label, "French");
    assert_eq!(cache.stacks[0].label, "French");
    assert_eq!(cache.stacks[0].front_lang.as_deref(), Some("fr"));
    assert_eq!(cache.stacks[0].created_at, 1);
}

#[test]
fn session_table_get_set_delete_clear() {
    let mut cache = CacheStore::new();
    assert!(AuthSession::get_by_did("did:a", &cache).is_none());
    AuthSession::new("did:a".to_string(), "{\"v\":1}".to_string()).save_or_update(&mut cache);
    AuthSession::new("did:b".to_string(), "{\"v\":2}".to_string()).save_or_update(&mut cache);
    AuthSession::new("did:a".to_string(), "{\"v\":3}".to_string()).save_or_update(&mut cache);
    assert_eq!(cache.sessions.len(), 2);
    assert_eq!(AuthSession::get_by_did("did:a", &cache).unwrap().session, "{\"v\":3}");
    AuthSession::delete_by_did("did:a", &mut cache);
    assert!(AuthSession::get_by_did("did:a", &cache).is_none());
    assert_eq!(AuthSession::get_by_did("did:b", &cache).unwrap().session, "{\"v\":2}");
    AuthSession::delete_all(&mut cache);
    assert!(cache.sessions.is_empty());
}

#[test]
fn state_table_get_set_delete_clear() {
    let mut cache = CacheStore::new();
    AuthState::new("k1".to_string(), "s1".to_string()).save_or_update(&mut cache);
    AuthState::new("k2".to_string(), "s2".to_string()).save_or_update(&mut cache);
    AuthState::new("k1".to_string(), "s3".to_string()).save_or_update(&mut cache);
    assert_eq!(AuthState::get_by_key("k1", &cache).unwrap().state, "s3");
    assert_eq!(AuthState::get_by_did("k2", &cache).unwrap().state, "s2");
    AuthState::delete_by_key("k1", &mut cache);
    assert!(AuthState::get_by_key("k1", &cache).is_none());
    AuthState::delete_by_did("k2", &mut cache);
    assert!(cache.states.is_empty());
    AuthState::new("k3".to_string(), "s".to_string()).save_or_update(&mut cache);
    AuthState::delete_all(&mut cache);
    assert!(cache.states.is_empty());
    assert!(cache.sessions.is_empty());
}
