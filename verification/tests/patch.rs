//! Absent, cleared and put.

use rimaia_core::tasks::types::Patch;

#[test]
fn unset_leaves_the_current_value_alone() {
    assert_eq!(
        Patch::Unset.apply(Some("old".to_string())),
        Some("old".to_string())
    );
    assert_eq!(Patch::<String>::Unset.apply(None), None);
}

#[test]
fn clear_always_produces_none() {
    assert_eq!(Patch::Clear.apply(Some("old".to_string())), None);
    assert_eq!(Patch::<String>::Clear.apply(None), None);
}

#[test]
fn set_replaces_whatever_was_there() {
    assert_eq!(
        Patch::Put("new".to_string()).apply(Some("old".to_string())),
        Some("new".to_string())
    );
    assert_eq!(
        Patch::Put("new".to_string()).apply(None),
        Some("new".to_string())
    );
}
