use app_core::profiles::{
    KnownFollowersParams, ProfileError, ProfileUpdateParams, SuggestedFollowsParams,
};

#[test]
fn test_invalid_actor_validation() {
    // This would be tested with actual ProfileService instance
    // but we can validate the error type
    let error = ProfileError::InvalidActor("Test".to_string());
    assert!(error.to_string().contains("Invalid actor"));
}

#[test]
fn test_profile_not_found_error() {
    let error = ProfileError::NotFound("alice.bsky.social".to_string());
    assert!(error.to_string().contains("Profile not found"));
}

#[test]
fn test_follow_uri_parsing() {
    // Test valid follow URI parsing for unfollow
    let uri = "at://did:plc:abc123/app.bsky.graph.follow/3jzfcijpj2z2a";
    let uri_parts: Vec<&str> = uri.trim_start_matches("at://").split('/').collect();

    assert_eq!(uri_parts.len(), 3);
    assert_eq!(uri_parts[0], "did:plc:abc123");
    assert_eq!(uri_parts[1], "app.bsky.graph.follow");
    assert_eq!(uri_parts[2], "3jzfcijpj2z2a");
}

#[test]
fn test_invalid_follow_uri() {
    // Test that invalid URIs would be rejected
    let invalid_uris = vec![
        "",
        "at://",
        "at://did:plc:abc123",
        "at://did:plc:abc123/app.bsky.graph.follow",
        "not-a-uri",
    ];

    for uri in invalid_uris {
        let uri_parts: Vec<&str> = uri.trim_start_matches("at://").split('/').collect();
        // These should all have less than 3 parts
        if !uri.is_empty() && uri != "not-a-uri" {
            assert!(uri_parts.len() < 3, "URI {} should have less than 3 parts", uri);
        }
    }
}

#[test]
fn test_profile_update_params_builder() {
    let update = ProfileUpdateParams::new("did:plc:test123")
        .with_display_name("Alice Smith")
        .with_description("Software engineer and coffee enthusiast");

    assert_eq!(update.repo, "did:plc:test123");
    assert_eq!(update.display_name, Some("Alice Smith".to_string()));
    assert_eq!(update.description, Some("Software engineer and coffee enthusiast".to_string()));
    assert!(update.avatar.is_none());
    assert!(update.banner.is_none());
}

#[test]
fn test_profile_update_display_name_length_valid() {
    // Test that valid display names (64 chars or less) are acceptable
    let valid_name = "A".repeat(64);
    let update = ProfileUpdateParams::new("did:plc:test").with_display_name(&valid_name);

    assert_eq!(update.display_name, Some(valid_name));
    assert_eq!(update.display_name.as_ref().unwrap().chars().count(), 64);
}

#[test]
fn test_profile_update_display_name_length_invalid() {
    // Test that display name with > 64 chars would be caught by validation
    let too_long = "A".repeat(65);
    assert_eq!(too_long.chars().count(), 65);
}

#[test]
fn test_profile_update_description_length_valid() {
    // Test that valid descriptions (256 chars or less) are acceptable
    let valid_desc = "A".repeat(256);
    let update = ProfileUpdateParams::new("did:plc:test").with_description(&valid_desc);

    assert_eq!(update.description, Some(valid_desc));
    assert_eq!(update.description.as_ref().unwrap().chars().count(), 256);
}

#[test]
fn test_profile_update_description_length_invalid() {
    // Test that description with > 256 chars would be caught by validation
    let too_long = "A".repeat(257);
    assert_eq!(too_long.chars().count(), 257);
}

#[test]
fn test_profile_update_unicode_characters() {
    // Test that character counting works correctly with Unicode
    let emoji_name = "Alice 👩‍💻"; // Contains emoji with zero-width joiner
    let update = ProfileUpdateParams::new("did:plc:test").with_display_name(emoji_name);

    assert_eq!(update.display_name, Some(emoji_name.to_string()));
    // Verify we're counting grapheme clusters/chars correctly
    assert!(emoji_name.chars().count() < 64);
}

#[test]
fn test_profile_update_empty_values() {
    // Test that empty strings are handled correctly
    let update = ProfileUpdateParams::new("did:plc:test")
        .with_display_name("")
        .with_description("");

    assert_eq!(update.display_name, Some("".to_string()));
    assert_eq!(update.description, Some("".to_string()));
}

#[test]
fn test_profile_update_partial_update() {
    // Test that we can update only some fields
    let update = ProfileUpdateParams::new("did:plc:test").with_display_name("New Name");

    assert_eq!(update.display_name, Some("New Name".to_string()));
    assert!(update.description.is_none());
    assert!(update.avatar.is_none());
    assert!(update.banner.is_none());
}

#[test]
fn test_suggested_follows_params_new() {
    let params = SuggestedFollowsParams::new();
    assert_eq!(params.limit, 25);
    assert!(params.cursor.is_none());
    assert!(params.interests.is_none());
    assert!(params.language.is_none());
}

#[test]
fn test_suggested_follows_params_with_cursor() {
    let params = SuggestedFollowsParams::new().with_cursor("cursor123".to_string());
    assert_eq!(params.cursor, Some("cursor123".to_string()));
}

#[test]
fn test_suggested_follows_params_with_limit() {
    let params = SuggestedFollowsParams::new().with_limit(50);
    assert_eq!(params.limit, 50);
}

#[test]
fn test_suggested_follows_params_limit_capped() {
    let params = SuggestedFollowsParams::new().with_limit(150);
    assert_eq!(params.limit, 100);
}

#[test]
fn test_suggested_follows_params_with_interests() {
    let params = SuggestedFollowsParams::new()
        .with_interests(vec!["tech".to_string(), "sports".to_string()]);
    assert_eq!(params.interests, Some(vec!["tech".to_string(), "sports".to_string()]));
}

#[test]
fn test_suggested_follows_params_with_language() {
    let params = SuggestedFollowsParams::new().with_language("en");
    assert_eq!(params.language, Some("en".to_string()));
}

#[test]
fn test_suggested_follows_params_builder_chain() {
    let params = SuggestedFollowsParams::new()
        .with_cursor("abc".to_string())
        .with_limit(30)
        .with_interests(vec!["tech".to_string()])
        .with_language("es");

    assert_eq!(params.cursor, Some("abc".to_string()));
    assert_eq!(params.limit, 30);
    assert_eq!(params.interests, Some(vec!["tech".to_string()]));
    assert_eq!(params.language, Some("es".to_string()));
}

#[test]
fn test_suggested_follows_params_default() {
    let params = SuggestedFollowsParams::default();
    assert_eq!(params.limit, 0); // Default trait gives 0
    assert!(params.cursor.is_none());
}

#[test]
fn test_suggested_follows_params_clone() {
    let params1 = SuggestedFollowsParams::new()
        .with_limit(40)
        .with_language("en");
    let params2 = params1.clone();

    assert_eq!(params1.limit, params2.limit);
    assert_eq!(params1.language, params2.language);
}

#[test]
fn test_suggested_follows_params_multiple_interests() {
    let interests = vec!["tech".to_string(), "programming".to_string(), "rust".to_string()];
    let params = SuggestedFollowsParams::new().with_interests(interests.clone());
    assert_eq!(params.interests, Some(interests));
}

#[test]
fn test_suggested_follows_params_empty_interests() {
    let params = SuggestedFollowsParams::new().with_interests(vec![]);
    assert_eq!(params.interests, Some(vec![]));
}

#[test]
fn test_suggested_follows_params_limit_boundary() {
    // Zero should be zero
    let params = SuggestedFollowsParams::new().with_limit(0);
    assert_eq!(params.limit, 0);

    // Exactly 100 should be 100
    let params = SuggestedFollowsParams::new().with_limit(100);
    assert_eq!(params.limit, 100);

    // Over 100 should cap at 100
    let params = SuggestedFollowsParams::new().with_limit(1000);
    assert_eq!(params.limit, 100);
}

#[test]
fn test_suggested_follows_params_debug() {
    let params = SuggestedFollowsParams::new().with_limit(25);
    let debug_str = format!("{:?}", params);
    assert!(debug_str.contains("SuggestedFollowsParams"));
    assert!(debug_str.contains("25"));
}

// ========================================================================
// Known Followers Tests
// ========================================================================

#[test]
fn test_known_followers_params_new() {
    let params = KnownFollowersParams::new();
    assert_eq!(params.cursor, None);
    assert_eq!(params.limit, 50);
}

#[test]
fn test_known_followers_params_default() {
    let params = KnownFollowersParams::default();
    assert_eq!(params.cursor, None);
    assert_eq!(params.limit, 0);
}

#[test]
fn test_known_followers_params_with_cursor() {
    let params = KnownFollowersParams::new().with_cursor("test_cursor".to_string());
    assert_eq!(params.cursor, Some("test_cursor".to_string()));
    assert_eq!(params.limit, 50);
}

#[test]
fn test_known_followers_params_with_limit() {
    let params = KnownFollowersParams::new().with_limit(25);
    assert_eq!(params.cursor, None);
    assert_eq!(params.limit, 25);
}

#[test]
fn test_known_followers_params_limit_capped() {
    let params = KnownFollowersParams::new().with_limit(200);
    assert_eq!(params.limit, 100);
}

#[test]
fn test_known_followers_params_builder_chain() {
    let params = KnownFollowersParams::new()
        .with_cursor("abc123".to_string())
        .with_limit(30);

    assert_eq!(params.cursor, Some("abc123".to_string()));
    assert_eq!(params.limit, 30);
}

#[test]
fn test_known_followers_params_clone() {
    let params1 = KnownFollowersParams::new().with_limit(20);
    let params2 = params1.clone();

    assert_eq!(params1.limit, params2.limit);
    assert_eq!(params1.cursor, params2.cursor);
}

#[test]
fn test_known_followers_params_debug() {
    let params = KnownFollowersParams::new().with_limit(50);
    let debug_str = format!("{:?}", params);
    assert!(debug_str.contains("KnownFollowersParams"));
    assert!(debug_str.contains("50"));
}

#[test]
fn test_known_followers_params_limit_boundary() {
    // Zero should be zero
    let params = KnownFollowersParams::new().with_limit(0);
    assert_eq!(params.limit, 0);

    // Exactly 100 should be 100
    let params = KnownFollowersParams::new().with_limit(100);
    assert_eq!(params.limit, 100);

    // Over 100 should cap at 100
    let params = KnownFollowersParams::new().with_limit(500);
    assert_eq!(params.limit, 100);
}

#[test]
fn profile_update_blobs() {
    let avatar = serde_json::Value::String("avatar-blob".to_string());
    let banner = serde_json::Value::String("banner-blob".to_string());
    let params = ProfileUpdateParams::new("did:plc:me").with_avatar(avatar.clone()).with_banner(banner.clone());
    assert_eq!(params.avatar, Some(avatar));
    assert_eq!(params.banner, Some(banner));
    assert_eq!(params.repo, "did:plc:me");
}
