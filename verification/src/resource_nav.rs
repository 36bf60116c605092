//! Navigation helpers of the resource workbench: JSON pointer paths, tree
//! node keys, the keys that drive the tree, and how a remote file opens by
//! default.
use vstd::prelude::*;
use crate::text::{chars_of, owned, string_of, text_eq, trim, trim_chars};
use crate::text_build::push_chars;

verus! {

/// A manifest path such as `name` or `/name` as a JSON pointer: with a
/// leading `/`.
pub open spec fn pointer_of(path: Seq<char>) -> Seq<char> {
    if path.len() > 0 && path[0] == '/' {
        path
    } else {
        seq!['/'] + path
    }
}

/// Normalizes a manifest path to a JSON pointer.
pub fn pointer_path(path: &str) -> (r: String)
    ensures
        r@ == pointer_of(path@),
{
    let chars = chars_of(path);
    if chars.len() > 0 && chars[0] == '/' {
        owned(path)
    } else {
        let mut text: Vec<char> = Vec::new();
        text.push('/');
        push_chars(&mut text, chars.as_slice());
        assert(text@ =~= seq!['/'] + path@);
        string_of(text.as_slice())
    }
}

/// The separator of a parent key and a row key; it does not occur in keys
/// that come from data.
pub const KEY_SEP: char = '\u{1}';

/// The key of a tree node: the parent's key, the separator, the row's key.
pub fn child_node_key(parent_key: &str, row_key: &str) -> (r: String)
    ensures
        r@ == parent_key@ + seq![KEY_SEP] + row_key@,
{
    let mut text = chars_of(parent_key);
    text.push(KEY_SEP);
    let row = chars_of(row_key);
    push_chars(&mut text, row.as_slice());
    string_of(text.as_slice())
}

/// Node keys keep the parent apart from the row: when no key holds the
/// separator, two child keys are equal only for equal parents and rows.
pub proof fn law_child_keys_are_unambiguous(p1: Seq<char>, r1: Seq<char>, p2: Seq<char>, r2: Seq<char>)
    requires
        !p1.contains(KEY_SEP),
        !p2.contains(KEY_SEP),
        p1 + seq![KEY_SEP] + r1 == p2 + seq![KEY_SEP] + r2,
    ensures
        p1 == p2,
        r1 == r2,
{
    let k1 = p1 + seq![KEY_SEP] + r1;
    let k2 = p2 + seq![KEY_SEP] + r2;
    if p1.len() < p2.len() {
        assert(k1[p1.len() as int] == KEY_SEP);
        assert(k2[p1.len() as int] == p2[p1.len() as int]);
    } else if p2.len() < p1.len() {
        assert(k2[p2.len() as int] == KEY_SEP);
        assert(k1[p2.len() as int] == p1[p2.len() as int]);
    }
    assert(p1 =~= k1.subrange(0, p1.len() as int));
    assert(p2 =~= k2.subrange(0, p2.len() as int));
    assert(r1 =~= k1.subrange(p1.len() + 1int, k1.len() as int));
    assert(r2 =~= k2.subrange(p2.len() + 1int, k2.len() as int));
}

/// What a key does in the tree: only what the mouse already does.
#[derive(Debug, Clone, Copy, PartialEq, Eq, Structural)]
pub enum TreeKeyAction {
    /// Like clicking the row: navigate.
    Activate,
    /// Like clicking the arrow: expand.
    Expand,
    /// Like clicking the arrow: collapse.
    Collapse,
}

impl TreeKeyAction {
    /// The action of a key: `enter` and `space` activate, `right` expands,
    /// `left` collapses; other keys do nothing.
    pub fn from_key(key: &str) -> (r: Option<Self>)
        ensures
            r == (if key@ == "enter"@ || key@ == "space"@ {
                Some(TreeKeyAction::Activate)
            } else if key@ == "right"@ {
                Some(TreeKeyAction::Expand)
            } else if key@ == "left"@ {
                Some(TreeKeyAction::Collapse)
            } else {
                None
            }),
    {
        if text_eq(key, "enter") || text_eq(key, "space") {
            Some(TreeKeyAction::Activate)
        } else if text_eq(key, "right") {
            Some(TreeKeyAction::Expand)
        } else if text_eq(key, "left") {
            Some(TreeKeyAction::Collapse)
        } else {
            None
        }
    }
}

/// How remote files open by default.
#[derive(Debug, Clone, Copy, PartialEq, Eq, Structural)]
pub enum RemoteFileOpenMode {
    BuiltIn,
    External,
}

/// The user's settings of the remote file editor that decide how a file
/// opens.
#[derive(Debug, Clone, PartialEq, Eq)]
pub struct RemoteFileEditorUserSettings {
    pub open_mode: RemoteFileOpenMode,
    /// The key of the external editor to open files with.
    pub default_external_editor: Option<String>,
}

/// Where a remote file opens by default.
#[derive(Debug, Clone, PartialEq, Eq)]
pub enum DefaultOpenTarget {
    BuiltIn,
    External { editor_key: String },
    /// External editing is chosen but no editor is configured.
    ExternalNotConfigured,
}

/// The configured external editor: its trimmed key, unless that is empty.
pub open spec fn configured_editor(setting: Option<Seq<char>>) -> Option<Seq<char>> {
    match setting {
        Some(key) => if trim(key).len() > 0 {
            Some(trim(key))
        } else {
            None
        },
        None => None,
    }
}

/// The configured external editor of the settings.
pub fn configured_default_external_editor(settings: &RemoteFileEditorUserSettings) -> (r: Option<String>)
    ensures
        match r {
            Some(k) => configured_editor(crate::rocketmq_form::opt_text(settings.default_external_editor))
                == Some(k@),
            None => configured_editor(crate::rocketmq_form::opt_text(settings.default_external_editor))
                is None,
        },
{
    match &settings.default_external_editor {
        Some(key) => {
            let chars = chars_of(key.as_str());
            let t = trim_chars(chars.as_slice());
            if t.len() > 0 {
                Some(string_of(t.as_slice()))
            } else {
                None
            }
        },
        None => None,
    }
}

/// Where a remote file opens by default: the built-in editor in built-in
/// mode; in external mode the configured editor, or a request to configure
/// one.
pub fn decide_default_open(settings: &RemoteFileEditorUserSettings) -> (r: DefaultOpenTarget)
    ensures
        settings.open_mode == RemoteFileOpenMode::BuiltIn ==> r == DefaultOpenTarget::BuiltIn,
        settings.open_mode == RemoteFileOpenMode::External ==> match configured_editor(
            crate::rocketmq_form::opt_text(settings.default_external_editor),
        ) {
            Some(k) => r matches DefaultOpenTarget::External { editor_key } && editor_key@ == k,
            None => r == DefaultOpenTarget::ExternalNotConfigured,
        },
{
    match settings.open_mode {
        RemoteFileOpenMode::BuiltIn => DefaultOpenTarget::BuiltIn,
        RemoteFileOpenMode::External => match configured_default_external_editor(settings) {
            Some(editor_key) => DefaultOpenTarget::External { editor_key },
            None => DefaultOpenTarget::ExternalNotConfigured,
        },
    }
}

} // verus!
