use app_core::branding::{about, colors, copyright, social, APP_NAME, APP_NAME_SHORT, APP_VERSION};

#[test]
fn test_app_name() {
    assert_eq!(APP_NAME, "Aurora Compass");
    assert_eq!(APP_NAME_SHORT, "Aurora");
}

#[test]
fn test_app_version() {
    assert!(!APP_VERSION.is_empty());
    // Version should follow semver format
    let parts: Vec<&str> = APP_VERSION.split('.').collect();
    assert!(parts.len() >= 2, "Version should have at least major.minor");
}

#[test]
fn test_brand_colors() {
    // Verify all colors are valid hex codes
    let color_list = [
        colors::PRIMARY,
        colors::SECONDARY_PURPLE,
        colors::SECONDARY_BLUE,
        colors::SECONDARY_CYAN,
        colors::ACCENT_GOLD,
        colors::BACKGROUND_LIGHT,
        colors::BACKGROUND_DARK,
        colors::BACKGROUND_DIM,
    ];

    for color in &color_list {
        assert!(color.starts_with('#'), "Color should start with #: {}", color);
        assert!(
            color.len() == 7,
            "Color should be 7 characters (#RRGGBB): {}",
            color
        );
    }
}

#[test]
fn test_copyright_notice() {
    let notice = copyright::notice();
    assert!(notice.contains("Aurora Compass Team"));
    assert!(notice.contains("MIT"));
}

#[test]
fn test_about_text() {
    let text = about::text();
    assert!(text.contains("Aurora Compass"));
    assert!(text.contains("Optional moderation"));
    assert!(text.contains("Custom AppView"));
}

#[test]
fn test_social_urls() {
    // Verify URLs are well-formed
    assert!(social::WEBSITE.starts_with("https://"));
    assert!(social::GITHUB.starts_with("https://github.com/"));
    assert!(social::SUPPORT_EMAIL.contains('@'));
}
