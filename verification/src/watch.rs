//! Watch mode: what to do with each batch of file system events.
use vstd::prelude::*;

use crate::text::{ends_with, str_ends_with};

verus! {

/// The extensions of the source files whose changes trigger a new analysis.
pub const SOURCE_EXTENSIONS: [&'static str; 8] = [".ts", ".tsx", ".js", ".jsx", ".mts", ".cts", ".mjs", ".cjs"];

/// One debounced file system event.
#[derive(Debug)]
pub struct FileEvent {
    /// Whether the event is a plain change (not one of the debouncer's
    /// continuous-change notices).
    pub any_kind: bool,
    pub path: String,
}

/// What the watcher hands over next.
#[derive(Debug)]
pub enum WatchEvent {
    /// A batch of debounced events.
    Changes(Vec<FileEvent>),
    /// The watcher reported an error.
    WatchError,
    /// The event channel was closed.
    ChannelClosed,
}

/// What watch mode does next.
#[derive(Debug, PartialEq, Eq, Structural)]
pub enum WatchAction {
    /// Load the configuration again and re-run the analysis.
    Reanalyze,
    /// Nothing of interest changed; wait for the next batch.
    Wait,
    /// Report the watcher's error and keep watching.
    ReportError,
    /// Stop watching and exit successfully.
    Stop,
}

/// Whether a path names a JavaScript or TypeScript source file.
pub open spec fn is_source_path(path: Seq<char>) -> bool {
    exists|i: int| 0 <= i < SOURCE_EXTENSIONS@.len() && ends_with(path, #[trigger] SOURCE_EXTENSIONS@[i]@)
}

/// Whether an event changes a source file.
pub open spec fn source_change(e: FileEvent) -> bool {
    e.any_kind && is_source_path(e.path@)
}

/// Whether a path names a JavaScript or TypeScript source file.
pub fn is_source_file(path: &str) -> (r: bool)
    ensures
        r == is_source_path(path@),
{
    let mut i: usize = 0;
    while i < SOURCE_EXTENSIONS.len()
        invariant
            i <= SOURCE_EXTENSIONS@.len(),
            forall|k: int| 0 <= k < i ==> !ends_with(path@, #[trigger] SOURCE_EXTENSIONS@[k]@),
        decreases SOURCE_EXTENSIONS.len() - i,
    {
        if str_ends_with(path, SOURCE_EXTENSIONS[i]) {
            return true;
        }
        i = i + 1;
    }
    false
}

/// Whether some event of the batch changes a source file.
pub fn has_source_changes(events: &Vec<FileEvent>) -> (r: bool)
    ensures
        r == exists|k: int| 0 <= k < events@.len() && source_change(#[trigger] events@[k]),
{
    let mut k: usize = 0;
    while k < events.len()
        invariant
            k <= events@.len(),
            forall|q: int| 0 <= q < k ==> !source_change(#[trigger] events@[q]),
        decreases events.len() - k,
    {
        if events[k].any_kind && is_source_file(events[k].path.as_str()) {
            return true;
        }
        k = k + 1;
    }
    false
}

/// The step of the watch loop: a batch that changes a source file asks for a
/// new analysis, any other batch is waited past, a watcher error is reported
/// and watching goes on, and a closed channel ends the loop.
pub fn next_watch_action(event: &WatchEvent) -> (r: WatchAction)
    ensures
        r == match *event {
            WatchEvent::Changes(events) => if exists|k: int| 0 <= k < events@.len() && source_change(#[trigger] events@[k]) {
                WatchAction::Reanalyze
            } else {
                WatchAction::Wait
            },
            WatchEvent::WatchError => WatchAction::ReportError,
            WatchEvent::ChannelClosed => WatchAction::Stop,
        },
{
    match event {
        WatchEvent::Changes(events) => if has_source_changes(events) {
            WatchAction::Reanalyze
        } else {
            WatchAction::Wait
        },
        WatchEvent::WatchError => WatchAction::ReportError,
        WatchEvent::ChannelClosed => WatchAction::Stop,
    }
}

} // verus!
