use std::path::Path;

use dock_dodger::registry::Registry;
use dock_dodger::render::{js_add_app, rebuild_list};
use dock_dodger::router::{event_for_message, route, RenderDirective, UiEvent};

fn make_bundle(dir: &Path, name: &str) -> String {
    let root = dir.join(name);
    fs_err::create_dir_all(root.join("Contents")).unwrap();
    let doc = plist::Value::Dictionary(plist::Dictionary::new());
    doc.to_file_xml(root.join("Contents/Info.plist")).unwrap();
    root.to_str().unwrap().to_string()
}

#[test]
fn one_row_script_quotes_the_path() {
    assert_eq!(js_add_app("/Applications/Foo.app"), "addApp(\"/Applications/Foo.app\");");
}

#[test]
fn one_row_script_escapes_like_a_json_encoder() {
    let tricky = "/odd/\"name\"\\Foo.app";
    let expected = format!("addApp({});", serde_json::to_string(tricky).unwrap());
    assert_eq!(js_add_app(tricky), expected);
}

#[test]
fn rebuild_script_clears_then_appends_in_order() {
    assert_eq!(
        rebuild_list(&Vec::new()),
        "document.getElementById('list').innerHTML='';toggleEmptyState();"
    );
    let paths = vec!["/a/One.app".to_string(), "/b/Two.app".to_string()];
    assert_eq!(
        rebuild_list(&paths),
        "document.getElementById('list').innerHTML='';\
         addApp(\"/a/One.app\");addApp(\"/b/Two.app\");toggleEmptyState();"
    );
}

#[test]
fn only_the_restore_command_is_recognized() {
    let e = event_for_message("restore", "/a/Foo.app".to_string());
    assert!(matches!(e, Some(UiEvent::RestoreRequested(p)) if p == "/a/Foo.app"));
    assert!(event_for_message("open", "/a/Foo.app".to_string()).is_none());
    assert!(event_for_message("", "/a/Foo.app".to_string()).is_none());
    assert!(event_for_message("Restore", "/a/Foo.app".to_string()).is_none());
}

#[test]
fn window_close_only_ends_the_loop() {
    let mut reg = Registry::new();
    let out = route(&mut reg, UiEvent::WindowClosed);
    assert!(out.exit);
    assert!(!out.save);
    assert!(matches!(out.render, RenderDirective::Unchanged));
    assert_eq!(reg.len(), 0);
}

#[test]
fn offered_non_bundle_changes_nothing() {
    let mut reg = Registry::new();
    let out = route(&mut reg, UiEvent::FileOffered("/tmp/notes.txt".to_string()));
    assert!(!out.exit);
    assert!(!out.save);
    assert!(matches!(out.render, RenderDirective::Unchanged));
    assert_eq!(reg.len(), 0);
}

#[test]
fn offered_missing_bundle_changes_nothing() {
    let mut reg = Registry::new();
    let out = route(&mut reg, UiEvent::FileOffered("/nonexistent/Zed.app".to_string()));
    assert!(!out.save);
    assert!(matches!(out.render, RenderDirective::Unchanged));
    assert_eq!(reg.len(), 0);
}

#[test]
fn routed_lifecycle_over_a_real_bundle() {
    let tmp = tempfile::TempDir::new().unwrap();
    let root = make_bundle(tmp.path(), "Routed.app");
    let mut reg = Registry::new();

    let added = route(&mut reg, UiEvent::FileOffered(root.clone()));
    assert!(added.save);
    assert!(matches!(added.render, RenderDirective::AppendRow(p) if p == root));
    assert_eq!(reg.len(), 1);

    let duplicate = route(&mut reg, UiEvent::FileOffered(root.clone()));
    assert!(!duplicate.save);
    assert!(matches!(duplicate.render, RenderDirective::Unchanged));
    assert_eq!(reg.len(), 1);

    let removed = route(&mut reg, UiEvent::RestoreRequested(root.clone()));
    assert!(removed.save);
    assert!(matches!(removed.render, RenderDirective::RebuildAll));
    assert_eq!(reg.len(), 0);

    let unmanaged = route(&mut reg, UiEvent::RestoreRequested(root.clone()));
    assert!(!unmanaged.save);
    assert!(matches!(unmanaged.render, RenderDirective::Unchanged));
}

#[test]
fn rebuild_script_matches_the_registry_snapshot() {
    let mut reg = Registry::new();
    assert!(matches!(
        route(&mut reg, UiEvent::FileOffered("/x/One.app".to_string())),
        out if matches!(out.render, RenderDirective::Unchanged)
    ));
    // The offer above failed (no such bundle on disk), so the snapshot is
    // still empty and the redraw script only clears the list.
    assert_eq!(
        rebuild_list(&reg.snapshot()),
        "document.getElementById('list').innerHTML='';toggleEmptyState();"
    );
}
