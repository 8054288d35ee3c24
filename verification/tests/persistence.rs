use dock_dodger::persist::{decode_snapshot, encode_snapshot, rebuild_registry, revalidate};
use dock_dodger::registry::{AdmitOutcome, Registry};

const FOO: &str = "/Applications/Foo.app";
const BAR: &str = "/Applications/Bar.app";

#[test]
fn encode_produces_a_json_array_of_strings() {
    assert_eq!(encode_snapshot(&vec![FOO.to_string()]), "[\"/Applications/Foo.app\"]");
    assert_eq!(encode_snapshot(&Vec::new()), "[]");
}

#[test]
fn decode_restores_what_encode_produced() {
    let paths = vec![FOO.to_string(), BAR.to_string(), "/with \"quote\".app".to_string()];
    let text = encode_snapshot(&paths);
    assert_eq!(decode_snapshot(&text), Some(paths));
}

#[test]
fn decode_rejects_malformed_text() {
    assert_eq!(decode_snapshot("not json"), None);
    assert_eq!(decode_snapshot("{\"a\": 1}"), None);
    assert_eq!(decode_snapshot("[1, 2]"), None);
    assert_eq!(decode_snapshot(""), None);
}

#[test]
fn decode_accepts_an_empty_array() {
    assert_eq!(decode_snapshot("[]"), Some(Vec::new()));
}

#[test]
fn revalidate_keeps_a_live_distinct_snapshot_unchanged() {
    let paths = vec![FOO.to_string(), BAR.to_string()];
    let lives = vec![true, true];
    let (kept, needs_rewrite) = revalidate(&paths, &lives);
    assert_eq!(kept, paths);
    assert!(!needs_rewrite);
}

#[test]
fn revalidate_prunes_a_deleted_bundle() {
    let paths = vec![FOO.to_string(), "/gone/Dead.app".to_string()];
    let lives = vec![true, false];
    let (kept, needs_rewrite) = revalidate(&paths, &lives);
    assert_eq!(kept, vec![FOO.to_string()]);
    assert!(needs_rewrite);
}

#[test]
fn revalidate_prunes_paths_without_the_extension() {
    let paths = vec!["/tmp/notes.txt".to_string(), BAR.to_string()];
    let lives = vec![true, true];
    let (kept, needs_rewrite) = revalidate(&paths, &lives);
    assert_eq!(kept, vec![BAR.to_string()]);
    assert!(needs_rewrite);
}

#[test]
fn revalidate_drops_a_repeated_path() {
    let paths = vec![FOO.to_string(), FOO.to_string()];
    let lives = vec![true, true];
    let (kept, needs_rewrite) = revalidate(&paths, &lives);
    assert_eq!(kept, vec![FOO.to_string()]);
    assert!(needs_rewrite);
}

#[test]
fn save_then_load_restores_the_registry() {
    let mut reg = Registry::new();
    assert_eq!(reg.finish_admit(FOO, Ok(())), AdmitOutcome::Added);
    assert_eq!(reg.finish_admit(BAR, Ok(())), AdmitOutcome::Added);
    let snapshot = reg.snapshot();

    let text = encode_snapshot(&snapshot);
    let stored = decode_snapshot(&text).unwrap();
    // Every stored path still exists at load time.
    let lives = vec![true; stored.len()];
    let (loaded, needs_rewrite) = rebuild_registry(&stored, &lives);

    assert!(!needs_rewrite);
    assert_eq!(loaded.snapshot(), snapshot);
}

#[test]
fn load_of_a_partly_stale_snapshot_reports_the_rewrite() {
    let stored = vec![FOO.to_string(), "/gone/Dead.app".to_string()];
    let lives = vec![true, false];
    let (loaded, needs_rewrite) = rebuild_registry(&stored, &lives);
    assert!(needs_rewrite);
    assert_eq!(loaded.snapshot(), vec![FOO.to_string()]);
    assert!(loaded.is_managed(FOO));
    assert!(!loaded.is_managed("/gone/Dead.app"));
}

#[test]
fn empty_snapshot_round_trips() {
    let (kept, needs_rewrite) = revalidate(&Vec::new(), &Vec::new());
    assert!(kept.is_empty());
    assert!(!needs_rewrite);
    let text = encode_snapshot(&Vec::new());
    let (loaded, needs_rewrite) = rebuild_registry(&decode_snapshot(&text).unwrap(), &Vec::new());
    assert_eq!(loaded.snapshot(), Vec::<String>::new());
    assert!(!needs_rewrite);
}
