use app_core::autocomplete::{
    cache_key, check_query, local_hashtag_suggestions, ActorProfile, AutocompleteError, AutocompleteResult, CacheEntry, HashtagSuggestion, QueryCheck,
};
use app_core::editor::SuggestionType;

#[test]
fn test_actor_profile() {
    let profile = ActorProfile {
        did: "did:plc:test123".to_string(),
        handle: "alice.bsky.social".to_string(),
        display_name: Some("Alice".to_string()),
        avatar: None,
        description: Some("Test user".to_string()),
    };

    assert_eq!(profile.did, "did:plc:test123");
    assert_eq!(profile.handle, "alice.bsky.social");
}

#[test]
fn test_hashtag_suggestion() {
    let tag = HashtagSuggestion {
        tag: "rust".to_string(),
        count: Some(12345),
    };

    assert_eq!(tag.tag, "rust");
    assert_eq!(tag.count, Some(12345));
}

#[test]
fn test_autocomplete_result_display_text_mention() {
    let result = AutocompleteResult::Mention(ActorProfile {
        did: "did:plc:test123".to_string(),
        handle: "alice.bsky.social".to_string(),
        display_name: Some("Alice".to_string()),
        avatar: None,
        description: None,
    });

    assert_eq!(result.display_text(), "Alice (@alice.bsky.social)");
}

#[test]
fn test_autocomplete_result_display_text_mention_no_display_name() {
    let result = AutocompleteResult::Mention(ActorProfile {
        did: "did:plc:test123".to_string(),
        handle: "alice.bsky.social".to_string(),
        display_name: None,
        avatar: None,
        description: None,
    });

    assert_eq!(result.display_text(), "@alice.bsky.social");
}

#[test]
fn test_autocomplete_result_display_text_hashtag() {
    let result = AutocompleteResult::Hashtag(HashtagSuggestion {
        tag: "rust".to_string(),
        count: Some(12345),
    });

    assert_eq!(result.display_text(), "#rust (12345)");
}

#[test]
fn test_autocomplete_result_display_text_hashtag_no_count() {
    let result = AutocompleteResult::Hashtag(HashtagSuggestion {
        tag: "rust".to_string(),
        count: None,
    });

    assert_eq!(result.display_text(), "#rust");
}

#[test]
fn test_autocomplete_result_completion_value_mention() {
    let result = AutocompleteResult::Mention(ActorProfile {
        did: "did:plc:test123".to_string(),
        handle: "alice.bsky.social".to_string(),
        display_name: Some("Alice".to_string()),
        avatar: None,
        description: None,
    });

    assert_eq!(result.completion_value(), "alice.bsky.social");
}

#[test]
fn test_autocomplete_result_completion_value_hashtag() {
    let result = AutocompleteResult::Hashtag(HashtagSuggestion {
        tag: "rust".to_string(),
        count: Some(12345),
    });

    assert_eq!(result.completion_value(), "rust");
}

#[test]
fn test_autocomplete_result_did() {
    let mention = AutocompleteResult::Mention(ActorProfile {
        did: "did:plc:test123".to_string(),
        handle: "alice.bsky.social".to_string(),
        display_name: None,
        avatar: None,
        description: None,
    });

    assert_eq!(mention.did(), Some("did:plc:test123"));

    let hashtag = AutocompleteResult::Hashtag(HashtagSuggestion {
        tag: "rust".to_string(),
        count: None,
    });

    assert_eq!(hashtag.did(), None);
}

#[test]
fn test_cache_entry_expiration() {
    let entry = CacheEntry::new(vec![]);
    assert!(!entry.is_expired());
}

#[test]
fn test_autocomplete_error_display() {
    let error = AutocompleteError::InvalidQuery("test".to_string());
    assert_eq!(error.to_string(), "Invalid query: test");
}

#[test]
fn query_checks() {
    assert!(matches!(check_query(""), Ok(QueryCheck::Empty)));
    assert!(matches!(check_query("alice"), Ok(QueryCheck::Search)));
    assert!(matches!(check_query(&"a".repeat(100)), Ok(QueryCheck::Search)));
    match check_query(&"a".repeat(101)) {
        Err(e) => assert_eq!(e.to_string(), "Invalid query: Query too long"),
        Ok(_) => panic!("a query of 101 bytes is refused"),
    }
    assert_eq!(AutocompleteError::Xrpc("down".to_string()).to_string(), "XRPC error: down");
    assert_eq!(AutocompleteError::Network("reset".to_string()).to_string(), "Network error: reset");
}

#[test]
fn test_local_hashtag_suggestions() {
    let results = local_hashtag_suggestions("ru");
    assert!(!results.is_empty());

    // Should include "rust" and "rustlang"
    let tags: Vec<String> = results.iter().map(|r| r.completion_value()).collect();

    assert!(tags.contains(&"rust".to_string()));
    assert!(tags.contains(&"rustlang".to_string()));
}

#[test]
fn test_local_hashtag_suggestions_no_match() {
    let results = local_hashtag_suggestions("zzz");
    assert_eq!(results.len(), 0);
}

#[test]
fn suggestion_cache_keys() {
    assert_eq!(cache_key(SuggestionType::Mention, "alice"), "Mention:alice");
    assert_eq!(cache_key(SuggestionType::Hashtag, "rust"), "Hashtag:rust");
}
