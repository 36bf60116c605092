use navop_core::resource_nav::{
    child_node_key, decide_default_open, pointer_path, DefaultOpenTarget, RemoteFileEditorUserSettings,
    RemoteFileOpenMode, TreeKeyAction, KEY_SEP,
};

fn settings_with(
    open_mode: RemoteFileOpenMode,
    default_external_editor: Option<&str>,
) -> RemoteFileEditorUserSettings {
    RemoteFileEditorUserSettings {
        open_mode,
        default_external_editor: default_external_editor.map(str::to_string),
    }
}

#[test]
fn tree_keys_separate_parent_and_row() {
    assert_eq!("indices\u{1}logs", child_node_key("indices", "logs"));
}

#[test]
fn key_actions_cover_mouse_semantics_only() {
    assert_eq!(Some(TreeKeyAction::Activate), TreeKeyAction::from_key("enter"));
    assert_eq!(Some(TreeKeyAction::Activate), TreeKeyAction::from_key("space"));
    assert_eq!(Some(TreeKeyAction::Expand), TreeKeyAction::from_key("right"));
    assert_eq!(Some(TreeKeyAction::Collapse), TreeKeyAction::from_key("left"));
    assert_eq!(None, TreeKeyAction::from_key("tab"));
}

#[test]
fn built_in_mode_always_opens_with_the_built_in_editor() {
    assert_eq!(
        DefaultOpenTarget::BuiltIn,
        decide_default_open(&settings_with(RemoteFileOpenMode::BuiltIn, None))
    );
    assert_eq!(
        DefaultOpenTarget::BuiltIn,
        decide_default_open(&settings_with(RemoteFileOpenMode::BuiltIn, Some("zed")))
    );
}

#[test]
fn external_mode_uses_the_configured_default_editor() {
    assert_eq!(
        DefaultOpenTarget::External {
            editor_key: "zed".to_string()
        },
        decide_default_open(&settings_with(RemoteFileOpenMode::External, Some("zed")))
    );
}

#[test]
fn external_mode_without_a_default_editor_reports_configuration_required() {
    assert_eq!(
        DefaultOpenTarget::ExternalNotConfigured,
        decide_default_open(&settings_with(RemoteFileOpenMode::External, None))
    );
    assert_eq!(
        DefaultOpenTarget::ExternalNotConfigured,
        decide_default_open(&settings_with(RemoteFileOpenMode::External, Some("")))
    );
    assert_eq!(
        DefaultOpenTarget::ExternalNotConfigured,
        decide_default_open(&settings_with(RemoteFileOpenMode::External, Some("   ")))
    );
}

#[test]
fn an_external_editor_key_is_trimmed() {
    assert_eq!(
        DefaultOpenTarget::External {
            editor_key: "code".to_string()
        },
        decide_default_open(&settings_with(RemoteFileOpenMode::External, Some("  code\t")))
    );
}

#[test]
fn manifest_paths_become_json_pointers() {
    assert_eq!("/name", pointer_path("name"));
    assert_eq!("/name", pointer_path("/name"));
    assert_eq!("/", pointer_path(""));
    assert_eq!("/a/b", pointer_path("a/b"));
}

#[test]
fn nested_keys_keep_every_level() {
    let parent = child_node_key("indices", "logs");
    let nested = child_node_key(&parent, "shard-0");
    assert_eq!("indices\u{1}logs\u{1}shard-0", nested);
    assert_eq!('\u{1}', KEY_SEP);
}
