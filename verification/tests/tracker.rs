use syndicate_json_canvas::select::SyndicationFormat;
use syndicate_json_canvas::sink::{Batch, SinkError};
use syndicate_json_canvas::tracker::SyndicationTracker;

fn texts(values: &[&str]) -> Vec<String> {
    values.iter().map(|v| v.to_string()).collect()
}

fn item(id: &str, text: &str) -> SyndicationFormat {
    SyndicationFormat {
        id: id.to_string(),
        text: text.to_string(),
        in_neighbor_ids: Vec::new(),
        out_neighbor_ids: Vec::new(),
    }
}

#[test]
fn new_tracker_holds_nothing() {
    let tracker = SyndicationTracker::new();
    assert_eq!(tracker.len(), 0);
    assert!(!tracker.is_published("a"));
    assert_eq!(tracker.record_text(), "");
}

#[test]
fn missing_or_empty_store_gives_an_empty_tracker() {
    let tracker = SyndicationTracker::load("");
    assert_eq!(tracker.len(), 0);
    assert!(!tracker.is_published(""));
}

#[test]
fn restoring_without_a_store_starts_empty() {
    let fresh = SyndicationTracker::restore(None);
    assert_eq!(fresh.len(), 0);
    let kept = SyndicationTracker::restore(Some("a\nb\n"));
    assert_eq!(kept.len(), 2);
    assert!(kept.is_published("a"));
    assert!(kept.is_published("b"));
}

#[test]
fn marking_adds_each_identifier_once() {
    let mut tracker = SyndicationTracker::new();
    tracker.mark_published(&texts(&["a", "b", "a"]));
    assert_eq!(tracker.len(), 2);
    assert!(tracker.is_published("a"));
    assert!(tracker.is_published("b"));
    assert!(!tracker.is_published("c"));
    tracker.mark_published(&texts(&["b", "c"]));
    assert_eq!(tracker.len(), 3);
    assert_eq!(tracker.record_text(), "a\nb\nc\n");
    tracker.mark_published(&Vec::new());
    assert_eq!(tracker.len(), 3);
}

#[test]
fn record_text_is_read_back() {
    let mut tracker = SyndicationTracker::new();
    tracker.mark_published(&texts(&["node-1", "node 2", "ünï", ""]));
    let text = tracker.record_text();
    assert_eq!(text, "node-1\nnode 2\nünï\n\n");
    let reloaded = SyndicationTracker::load(&text);
    assert_eq!(reloaded.len(), 4);
    assert!(reloaded.is_published("node-1"));
    assert!(reloaded.is_published("node 2"));
    assert!(reloaded.is_published("ünï"));
    assert!(reloaded.is_published(""));
    assert_eq!(reloaded.record_text(), text);
}

#[test]
fn line_feeds_and_backslashes_survive_the_record() {
    let mut tracker = SyndicationTracker::new();
    tracker.mark_published(&texts(&["two\nlines", "back\\slash", "\\n", "tail\\"]));
    let text = tracker.record_text();
    assert_eq!(text, "two\\nlines\nback\\\\slash\n\\\\n\ntail\\\\\n");
    let reloaded = SyndicationTracker::load(&text);
    assert_eq!(reloaded.len(), 4);
    assert!(reloaded.is_published("two\nlines"));
    assert!(reloaded.is_published("back\\slash"));
    assert!(reloaded.is_published("\\n"));
    assert!(reloaded.is_published("tail\\"));
    assert!(!reloaded.is_published("two"));
    assert_eq!(reloaded.record_text(), text);
}

#[test]
fn loading_tolerates_a_hand_edited_store() {
    let tracker = SyndicationTracker::load("a\nb\na\nlast");
    assert_eq!(tracker.len(), 3);
    assert!(tracker.is_published("a"));
    assert!(tracker.is_published("b"));
    assert!(tracker.is_published("last"));
    assert_eq!(tracker.record_text(), "a\nb\nlast\n");

    let odd = SyndicationTracker::load("x\\qy\nend\\");
    assert!(odd.is_published("xqy"));
    assert!(odd.is_published("end\\"));
    assert_eq!(odd.len(), 2);

    let broken = SyndicationTracker::load("cut\\\nnext\n");
    assert!(broken.is_published("cut\\"));
    assert!(broken.is_published("next"));
    assert_eq!(broken.len(), 2);
}

#[test]
fn batch_leaves_out_what_is_published() {
    let mut tracker = SyndicationTracker::new();
    tracker.mark_published(&texts(&["b"]));
    let items = vec![item("a", "A"), item("b", "B"), item("c", "C")];
    let batch = Batch::unpublished(&items, &tracker);
    assert_eq!(batch.ids(), texts(&["a", "c"]));
    assert!(batch.contains("a"));
    assert!(!batch.contains("b"));
    assert_eq!(batch.position("c"), Some(1));
    assert_eq!(batch.position("b"), None);
    assert_eq!(batch.get("c").unwrap().text, "C");
    assert!(batch.get("b").is_none());

    tracker.mark_published(&batch.ids());
    let next = Batch::unpublished(&items, &tracker);
    assert!(next.is_empty());
    assert_eq!(next.len(), 0);
}

#[test]
fn batch_holds_each_identifier_once() {
    let mut batch = Batch::new();
    assert!(batch.is_empty());
    assert!(batch.insert(item("a", "first")));
    assert!(!batch.insert(item("a", "second")));
    assert!(batch.insert(item("b", "third")));
    assert_eq!(batch.len(), 2);
    assert_eq!(batch.item(0).text, "first");
    assert_eq!(batch.item(1).id, "b");
    assert_eq!(batch.ids(), texts(&["a", "b"]));
}

#[test]
fn sink_errors_describe_themselves() {
    assert_eq!(SinkError::Io("disk full".to_string()).message(), "IO error: disk full");
    assert_eq!(
        SinkError::CommandFailed("jj git fetch failed: offline".to_string()).message(),
        "Command execution failed: jj git fetch failed: offline"
    );
    assert_eq!(SinkError::Config("bad path".to_string()).message(), "Configuration error: bad path");
    assert_eq!(
        SinkError::Serialization("no title".to_string()).message(),
        "Serialization error: no title"
    );
    let copy = SinkError::Config("x".to_string()).duplicate();
    assert_eq!(copy, SinkError::Config("x".to_string()));
}
