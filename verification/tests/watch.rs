use fallow::watch::{has_source_changes, is_source_file, next_watch_action, FileEvent, WatchAction, WatchEvent};

fn event(path: &str, any_kind: bool) -> FileEvent {
    FileEvent { any_kind, path: path.to_string() }
}

#[test]
fn source_extensions_are_recognised() {
    for path in ["a.ts", "a.tsx", "a.js", "a.jsx", "a.mts", "a.cts", "a.mjs", "a.cjs"] {
        assert!(is_source_file(path), "{path} is a source file");
    }
    assert!(!is_source_file("README.md"));
    assert!(!is_source_file("styles.css"));
}

#[test]
fn only_plain_changes_of_source_files_count() {
    assert!(has_source_changes(&vec![event("/p/readme.md", true), event("/p/src/a.ts", true)]));
    assert!(!has_source_changes(&vec![event("/p/src/a.ts", false)]));
    assert!(!has_source_changes(&vec![]));
}

#[test]
fn watch_steps() {
    assert_eq!(next_watch_action(&WatchEvent::Changes(vec![event("/p/x.mjs", true)])), WatchAction::Reanalyze);
    assert_eq!(next_watch_action(&WatchEvent::Changes(vec![event("/p/x.json", true)])), WatchAction::Wait);
    assert_eq!(next_watch_action(&WatchEvent::WatchError), WatchAction::ReportError);
    assert_eq!(next_watch_action(&WatchEvent::ChannelClosed), WatchAction::Stop);
}
