use ostree_helpers::text::{app_id_from_ref, str_eq};

#[test]
fn app_id_from_full_ref() {
    let id = app_id_from_ref("app/org.gnome.Builder/x86_64/stable");
    assert_eq!(id, "org.gnome.Builder");
}

#[test]
fn app_id_from_runtime_ref() {
    let id = app_id_from_ref("runtime/org.freedesktop.Platform/aarch64/23.08");
    assert_eq!(id, "org.freedesktop.Platform");
}

#[test]
fn app_id_stops_at_next_separator() {
    assert_eq!(app_id_from_ref("a/b/c"), "b");
}

#[test]
fn app_id_runs_to_end_without_next_separator() {
    assert_eq!(app_id_from_ref("app/org.example.App"), "org.example.App");
}

#[test]
fn app_id_of_trailing_separator_is_empty() {
    assert_eq!(app_id_from_ref("app/"), "");
}

#[test]
fn str_eq_agrees_with_equality() {
    assert!(str_eq("", ""));
    assert!(str_eq("abc", "abc"));
    assert!(!str_eq("abc", "abd"));
    assert!(!str_eq("abc", "ab"));
    assert!(str_eq("snowman \u{2603}", "snowman \u{2603}"));
    assert!(!str_eq("snowman \u{2603}", "snowman x"));
}
