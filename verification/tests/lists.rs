use app_core::lists::{ListPurpose, ListView, ListViewBasic, ListViewerState};
use app_core::profiles::ProfileViewBasic;

#[test]
fn test_list_purpose_as_str() {
    assert_eq!(ListPurpose::Curatelist.as_str(), "app.bsky.graph.defs#curatelist");
    assert_eq!(ListPurpose::Modlist.as_str(), "app.bsky.graph.defs#modlist");
    assert_eq!(ListPurpose::Referencelist.as_str(), "app.bsky.graph.defs#referencelist");
}

#[test]
fn test_list_purpose_from_str() {
    assert_eq!(
        ListPurpose::from_str("app.bsky.graph.defs#curatelist"),
        Some(ListPurpose::Curatelist)
    );
    assert_eq!(
        ListPurpose::from_str("app.bsky.graph.defs#modlist"),
        Some(ListPurpose::Modlist)
    );
    assert_eq!(
        ListPurpose::from_str("app.bsky.graph.defs#referencelist"),
        Some(ListPurpose::Referencelist)
    );
    assert_eq!(ListPurpose::from_str("invalid"), None);
}

#[test]
fn test_list_purpose_is_modlist() {
    assert!(!ListPurpose::Curatelist.is_modlist());
    assert!(ListPurpose::Modlist.is_modlist());
    assert!(!ListPurpose::Referencelist.is_modlist());
}

#[test]
fn test_list_purpose_is_curatelist() {
    assert!(ListPurpose::Curatelist.is_curatelist());
    assert!(!ListPurpose::Modlist.is_curatelist());
    assert!(!ListPurpose::Referencelist.is_curatelist());
}

#[test]
fn test_list_viewer_state_default() {
    let state = ListViewerState::default();
    assert!(!state.is_muted());
    assert!(!state.is_blocked());
}

#[test]
fn test_list_viewer_state_muted() {
    let state = ListViewerState { muted: Some(true), blocked: None };
    assert!(state.is_muted());
    assert!(!state.is_blocked());
}

#[test]
fn test_list_viewer_state_blocked() {
    let state = ListViewerState {
        muted: None,
        blocked: Some("at://did:plc:abc/app.bsky.graph.listblock/123".to_string()),
    };
    assert!(!state.is_muted());
    assert!(state.is_blocked());
}

#[test]
fn test_list_view_basic_purpose_enum() {
    let list = ListViewBasic {
        uri: "at://did:plc:abc/app.bsky.graph.list/123".to_string(),
        cid: "bafyreib".to_string(),
        name: "Test List".to_string(),
        purpose: "app.bsky.graph.defs#curatelist".to_string(),
        avatar: None,
        list_item_count: Some(5),
        labels: None,
        viewer: None,
        indexed_at: None,
    };

    assert_eq!(list.purpose_enum(), Some(ListPurpose::Curatelist));
}

#[test]
fn test_list_view_is_owned_by() {
    let list = ListView {
        uri: "at://did:plc:abc/app.bsky.graph.list/123".to_string(),
        cid: "bafyreib".to_string(),
        creator: ProfileViewBasic {
            did: "did:plc:owner123".to_string(),
            handle: "owner.bsky.social".to_string(),
            display_name: None,
            avatar: None,
            associated: None,
            viewer: None,
            labels: None,
            created_at: None,
        },
        name: "Test List".to_string(),
        purpose: "app.bsky.graph.defs#modlist".to_string(),
        description: Some("A test list".to_string()),
        description_facets: None,
        avatar: None,
        list_item_count: Some(10),
        labels: None,
        viewer: None,
        indexed_at: None,
    };

    assert!(list.is_owned_by("did:plc:owner123"));
    assert!(!list.is_owned_by("did:plc:other456"));
}

#[test]
fn test_list_purpose_display() {
    assert_eq!(ListPurpose::Curatelist.to_string(), "app.bsky.graph.defs#curatelist");
    assert_eq!(ListPurpose::Modlist.to_string(), "app.bsky.graph.defs#modlist");
}
