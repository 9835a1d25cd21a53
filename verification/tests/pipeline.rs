use syndicate_json_canvas::canvas::{Canvas, CanvasEdge, CanvasNode, NodeColor, NodeKind};
use syndicate_json_canvas::jj_sink::JjRepositorySink;
use syndicate_json_canvas::orchestrator::{process_canvas, process_graph, CycleOutcome};
use syndicate_json_canvas::select::{default_process_node, to_syndication_format};
use syndicate_json_canvas::sink::{Batch, SinkError, SyndicationSink};
use syndicate_json_canvas::tracker::SyndicationTracker;

struct RecordingSink {
    batches: Vec<Vec<String>>,
    dry_runs: Vec<bool>,
    fail_with: Option<SinkError>,
}

impl RecordingSink {
    fn new() -> Self {
        RecordingSink { batches: Vec::new(), dry_runs: Vec::new(), fail_with: None }
    }

    fn failing(error: SinkError) -> Self {
        RecordingSink { batches: Vec::new(), dry_runs: Vec::new(), fail_with: Some(error) }
    }
}

impl SyndicationSink for RecordingSink {
    fn publish(&mut self, items: &Batch, dry_run: bool) -> Result<(), SinkError> {
        self.batches.push(items.ids());
        self.dry_runs.push(dry_run);
        match &self.fail_with {
            Some(error) => Err(error.clone()),
            None => Ok(()),
        }
    }

    fn name(&self) -> &str {
        "recording"
    }
}

fn red_text(id: &str, text: &str) -> CanvasNode {
    CanvasNode::new_text(id.to_string(), text.to_string(), Some(NodeColor::Red))
}

fn edge(id: &str, from: &str, to: &str) -> CanvasEdge {
    CanvasEdge::new(id.to_string(), from.to_string(), to.to_string())
}

fn ids(values: &[&str]) -> Vec<String> {
    values.iter().map(|v| v.to_string()).collect()
}

#[test]
fn single_marked_node_is_published_once() {
    let canvas = Canvas::new(vec![red_text("n1", "A first note")], vec![]);
    let mut sink = RecordingSink::new();
    let mut tracker = SyndicationTracker::new();

    let first = process_graph(&canvas, &mut sink, &mut tracker, false);
    assert_eq!(first, CycleOutcome::Published(ids(&["n1"])));
    assert_eq!(sink.batches, vec![ids(&["n1"])]);
    assert!(tracker.is_published("n1"));

    let second = process_graph(&canvas, &mut sink, &mut tracker, false);
    assert_eq!(second, CycleOutcome::NoNewItems(1));
    assert_eq!(sink.batches.len(), 1);
    assert_eq!(tracker.len(), 1);
}

#[test]
fn edge_between_selected_nodes_gives_both_cross_references() {
    let canvas = Canvas::new(
        vec![red_text("a", "Alpha note"), red_text("b", "Beta note")],
        vec![edge("e1", "a", "b")],
    );
    let items = to_syndication_format(&canvas, default_process_node);
    let batch = Batch::unpublished(&items, &SyndicationTracker::new());
    assert_eq!(batch.ids(), ids(&["a", "b"]));
    let slugs = JjRepositorySink::generate_slugs(&batch);
    assert_eq!(slugs, ids(&["alpha-note", "beta-note"]));

    let file_a = JjRepositorySink::render_file_contents(batch.item(0), "2024-05-06", &slugs, &batch);
    let file_b = JjRepositorySink::render_file_contents(batch.item(1), "2024-05-06", &slugs, &batch);
    assert_eq!(
        file_a,
        "---\ntitle: \"Alpha note\"\ndate: 2024-05-06\nfurther_thinking:\n  - link_text: \"Beta note\"\n    href: \"/t/beta-note-b.md\"\n---\n\nAlpha note"
    );
    assert_eq!(
        file_b,
        "---\ntitle: \"Beta note\"\ndate: 2024-05-06\ncontext_for_this:\n  - link_text: \"Alpha note\"\n    href: \"/t/alpha-note-a.md\"\n---\n\nBeta note"
    );
}

#[test]
fn marked_node_with_empty_text_is_in_no_batch() {
    let canvas = Canvas::new(vec![red_text("n1", "")], vec![]);
    assert!(to_syndication_format(&canvas, default_process_node).is_empty());
    let mut sink = RecordingSink::new();
    let mut tracker = SyndicationTracker::new();
    assert_eq!(process_graph(&canvas, &mut sink, &mut tracker, false), CycleOutcome::NoNewItems(0));
    assert!(sink.batches.is_empty());
}

#[test]
fn marked_node_of_another_kind_is_excluded() {
    let mut file_node = CanvasNode::other("f1".to_string(), NodeKind::File, Some(NodeColor::Red));
    file_node.text = "looks like text".to_string();
    let canvas = Canvas::new(
        vec![
            file_node,
            CanvasNode::other("l1".to_string(), NodeKind::Link, Some(NodeColor::Red)),
            CanvasNode::other("g1".to_string(), NodeKind::Group, Some(NodeColor::Red)),
        ],
        vec![],
    );
    assert!(to_syndication_format(&canvas, default_process_node).is_empty());
}

#[test]
fn node_without_the_marker_colour_is_excluded() {
    let canvas = Canvas::new(
        vec![
            CanvasNode::new_text("n1".to_string(), "plain".to_string(), None),
            CanvasNode::new_text("n2".to_string(), "green".to_string(), Some(NodeColor::Green)),
            CanvasNode::new_text(
                "n3".to_string(),
                "custom".to_string(),
                Some(NodeColor::Custom { r: 255, g: 0, b: 0, a: 255 }),
            ),
            red_text("n4", "marked"),
        ],
        vec![],
    );
    let items = to_syndication_format(&canvas, default_process_node);
    assert_eq!(items.len(), 1);
    assert_eq!(items[0].id, "n4");
}

#[test]
fn failed_publish_marks_nothing_and_is_retried() {
    let canvas = Canvas::new(
        vec![red_text("a", "Alpha"), red_text("b", "Beta")],
        vec![edge("e1", "a", "b")],
    );
    let failure = SinkError::CommandFailed("jj git push failed: no route".to_string());
    let mut sink = RecordingSink::failing(failure.clone());
    let mut tracker = SyndicationTracker::new();

    let first = process_graph(&canvas, &mut sink, &mut tracker, false);
    assert_eq!(first, CycleOutcome::PublishFailed(failure.clone()));
    assert_eq!(tracker.len(), 0);
    assert!(!tracker.is_published("a"));

    let second = process_graph(&canvas, &mut sink, &mut tracker, false);
    assert_eq!(second, CycleOutcome::PublishFailed(failure));
    assert_eq!(sink.batches, vec![ids(&["a", "b"]), ids(&["a", "b"])]);
}

#[test]
fn dry_run_never_marks() {
    let canvas = Canvas::new(vec![red_text("a", "Alpha")], vec![]);
    let mut sink = RecordingSink::new();
    let mut tracker = SyndicationTracker::new();
    let outcome = process_graph(&canvas, &mut sink, &mut tracker, true);
    assert_eq!(outcome, CycleOutcome::DryRun(ids(&["a"])));
    assert_eq!(sink.dry_runs, vec![true]);
    assert_eq!(tracker.len(), 0);
    let again = process_graph(&canvas, &mut sink, &mut tracker, true);
    assert_eq!(again, CycleOutcome::DryRun(ids(&["a"])));
}

#[test]
fn published_identifier_stays_out_even_if_the_text_changes() {
    let mut tracker = SyndicationTracker::new();
    tracker.mark_published(&ids(&["a"]));
    let canvas = Canvas::new(vec![red_text("a", "Edited text"), red_text("b", "New")], vec![]);
    let mut sink = RecordingSink::new();
    let outcome = process_graph(&canvas, &mut sink, &mut tracker, false);
    assert_eq!(outcome, CycleOutcome::Published(ids(&["b"])));
    assert_eq!(sink.batches, vec![ids(&["b"])]);
}

#[test]
fn second_node_with_the_same_identifier_is_passed_over() {
    let canvas = Canvas::new(vec![red_text("a", "First"), red_text("a", "Second")], vec![]);
    let items = to_syndication_format(&canvas, default_process_node);
    assert_eq!(items.len(), 2);
    let batch = Batch::unpublished(&items, &SyndicationTracker::new());
    assert_eq!(batch.len(), 1);
    assert_eq!(batch.item(0).text, "First");
}

#[test]
fn unparsable_text_ends_the_cycle_without_a_change() {
    let mut sink = RecordingSink::new();
    let mut tracker = SyndicationTracker::new();
    let outcome = process_canvas("{ not json", &mut sink, &mut tracker, false);
    assert!(matches!(outcome, CycleOutcome::ParseFailed(_)));
    assert!(sink.batches.is_empty());
    assert_eq!(tracker.len(), 0);
}

#[test]
fn canvas_text_runs_through_the_whole_cycle() {
    let content = "{\"nodes\":[{\"id\":\"n1\",\"x\":0,\"y\":0,\"width\":10,\"height\":10,\"color\":\"1\",\"text\":\"Hello there\",\"type\":\"text\"},{\"id\":\"n2\",\"x\":0,\"y\":0,\"width\":10,\"height\":10,\"color\":\"2\",\"text\":\"Orange\",\"type\":\"text\"}],\"edges\":[]}";
    let mut sink = RecordingSink::new();
    let mut tracker = SyndicationTracker::new();
    let outcome = process_canvas(content, &mut sink, &mut tracker, false);
    assert_eq!(outcome, CycleOutcome::Published(ids(&["n1"])));
    assert_eq!(sink.name(), "recording");
}
