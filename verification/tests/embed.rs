use pinentry_zellij::embed::{cache_search_depth, cache_walk_step, CacheStep};
use pinentry_zellij::embed::{build_permissions_entry, permissions_to_append, plugin_up_to_date};

#[test]
fn permissions_entry_structure() {
    let path = "/home/user/.config/zellij/plugins/pinentry-zellij-plugin.wasm";
    let (key, entry) = build_permissions_entry(path);

    assert_eq!(
        key,
        "\"/home/user/.config/zellij/plugins/pinentry-zellij-plugin.wasm\""
    );
    assert!(entry.contains(&key));
    assert!(entry.contains("ReadCliPipes"));
    assert!(entry.contains("ReadApplicationState"));
    assert!(entry.contains("ChangeApplicationState"));
}

#[test]
fn permissions_entry_is_valid_kdl_block() {
    let path = "/tmp/plugin.wasm";
    let (_, entry) = build_permissions_entry(path);

    // Should have opening and closing braces on separate lines.
    assert!(entry.contains("{\n"));
    assert!(entry.contains("\n}"));
    // Each permission indented.
    for perm in [
        "ReadCliPipes",
        "ReadApplicationState",
        "ChangeApplicationState",
    ] {
        assert!(entry.contains(&format!("    {perm}")));
    }
}

#[test]
fn permissions_key_detects_duplicates() {
    let path = "/tmp/plugin.wasm";
    let (key, entry) = build_permissions_entry(path);

    // Simulated existing file content containing this plugin.
    let existing = format!("some_other_plugin {{}}\n{entry}");
    assert!(existing.contains(&key));

    // Different plugin should not match.
    let other = "some_other_plugin {}".to_string();
    assert!(!other.contains(&key));
}

#[test]
fn permissions_to_append_cases() {
    let path = "/tmp/plugin.wasm";
    let (_, entry) = build_permissions_entry(path);
    let existing = format!("some_other_plugin {{}}\n{entry}");
    assert_eq!(permissions_to_append(Some(&existing), path), None);
    assert_eq!(permissions_to_append(Some("some_other_plugin {}"), path), Some(entry.clone()));
    assert_eq!(permissions_to_append(None, path), Some(entry));
}

#[test]
fn permissions_entry_exact_text() {
    let (_, entry) = build_permissions_entry("/p.wasm");
    assert_eq!(
        entry,
        "\n\"/p.wasm\" {\n    ReadCliPipes\n    ReadApplicationState\n    ChangeApplicationState\n}\n"
    );
}

#[test]
fn plugin_up_to_date_cases() {
    assert!(plugin_up_to_date(true, Some(b"abc"), b"abc"));
    assert!(!plugin_up_to_date(false, Some(b"abc"), b"abc"));
    assert!(!plugin_up_to_date(true, Some(b"abd"), b"abc"));
    assert!(!plugin_up_to_date(true, None, b"abc"));
}

#[test]
fn cache_walk_steps() {
    assert_eq!(cache_walk_step(0, true, true), CacheStep::Stop);
    assert_eq!(cache_walk_step(3, false, true), CacheStep::Skip);
    assert_eq!(cache_walk_step(3, true, true), CacheStep::Remove);
    assert_eq!(cache_walk_step(3, true, false), CacheStep::Descend(2));
    assert_eq!(cache_search_depth(5), 7);
}
