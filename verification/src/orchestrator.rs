//! One syndication cycle, from the graph to the tracker, and what the
//! watch loop decides.

use crate::canvas::{
    canvas_edges, canvas_nodes, is_canvas_text, load_canvas, Canvas, CanvasView,
};
use crate::graph::{adjacency_records_every_edge, incoming, outgoing, AdjacencyView};
use crate::jj_sink::{
    all_link_lines, file_contents, link_at, link_block, link_lines, link_to, links, slugs_of,
    title_of, yaml_escaped, LinkView,
};
use crate::select::{
    default_selected, default_selection_in, neighbor_ids, to_default_syndication_format,
    SyndicationView,
};
use crate::sink::{
    entry_ids, fresh, fresh_is_sound, holds, nothing_left_after_publishing, place_of,
    published_stays_out, Batch, SinkError, SinkErrorView, SyndicationSink,
};
use crate::text::{filter_map_keeps, middle_occurs, occurs_in, occurs_in_larger, views};
use crate::tracker::{merged, merged_is_union, SyndicationTracker};
use vstd::prelude::*;
use vstd::string::StringExecFns;

verus! {

/// The extension of the file that a path names, where it has one that is
/// valid Unicode.
///
/// Wraps `Path::extension`. What counts as the file name of a path
/// depends on the platform, so nothing is claimed of the result.
#[verifier::external_body]
fn path_extension(path: &str) -> Option<String> {
    std::path::Path::new(path).extension().and_then(|e| e.to_str()).map(|e| e.to_string())
}

/// The view of an optional text.
pub open spec fn text_view(text: Option<String>) -> Option<Seq<char>> {
    match text {
        Some(t) => Some(t@),
        None => None,
    }
}

/// The view of a verdict on a path.
pub open spec fn verdict_view(verdict: Result<(), &'static str>) -> Result<(), Seq<char>> {
    match verdict {
        Ok(()) => Ok(()),
        Err(words) => Err(words@),
    }
}

/// The verdict on a path, given whether it names a file and which
/// extension it has: it has to name a file, and the extension has to be
/// `canvas`.
pub open spec fn path_verdict(is_file: bool, extension: Option<Seq<char>>) -> Result<
    (),
    Seq<char>,
> {
    if !is_file {
        Err("Provided path must be a file"@)
    } else if extension == Some("canvas"@) {
        Ok(())
    } else {
        Err("Expect the extension to be .canvas"@)
    }
}

/// Whether a path may be watched, given whether it names a file and which
/// extension it has.
pub fn check_canvas_path(is_file: bool, extension: &Option<String>) -> (r: Result<
    (),
    &'static str,
>)
    ensures
        verdict_view(r) == path_verdict(is_file, text_view(*extension)),
{
    if !is_file {
        return Err("Provided path must be a file");
    }
    match extension {
        Some(e) => {
            if *e == String::from_str("canvas") {
                Ok(())
            } else {
                Err("Expect the extension to be .canvas")
            }
        },
        None => Err("Expect the extension to be .canvas"),
    }
}

/// Whether `path` may be watched, given whether it names a file: what
/// [`check_canvas_path`] says of that and of the extension of `path`.
pub fn validate_canvas_path(path: &str, is_file: bool) -> (r: Result<(), &'static str>)
    ensures
        exists|extension: Option<Seq<char>>|
            verdict_view(r) == #[trigger] path_verdict(is_file, extension),
        !is_file ==> verdict_view(r) == Err::<(), Seq<char>>("Provided path must be a file"@),
{
    let extension = path_extension(path);
    check_canvas_path(is_file, &extension)
}

/// How a cycle ended.
#[derive(Debug, PartialEq, Eq)]
pub enum CycleOutcome {
    /// The graph text could not be parsed; holds the parser's words.
    /// Nothing was published or marked.
    ParseFailed(String),
    /// No selected item is unpublished; the destination was not called.
    /// Holds the number of selected items.
    NoNewItems(usize),
    /// The destination went through a dry run of the batch; nothing was
    /// marked. Holds the identifiers of the batch.
    DryRun(Vec<String>),
    /// The destination published the batch, and its identifiers, held
    /// here, are marked as published.
    Published(Vec<String>),
    /// The destination failed; nothing was marked, so the next cycle
    /// takes up the same items again.
    PublishFailed(SinkError),
}

/// Mathematical model of a [`CycleOutcome`].
pub enum OutcomeView {
    ParseFailed(Seq<char>),
    NoNewItems(nat),
    DryRun(Seq<Seq<char>>),
    Published(Seq<Seq<char>>),
    PublishFailed(SinkErrorView),
}

impl View for CycleOutcome {
    type V = OutcomeView;

    open spec fn view(&self) -> OutcomeView {
        match self {
            CycleOutcome::ParseFailed(words) => OutcomeView::ParseFailed(words@),
            CycleOutcome::NoNewItems(selected) => OutcomeView::NoNewItems(*selected as nat),
            CycleOutcome::DryRun(ids) => OutcomeView::DryRun(views(ids@)),
            CycleOutcome::Published(ids) => OutcomeView::Published(views(ids@)),
            CycleOutcome::PublishFailed(error) => OutcomeView::PublishFailed(error@),
        }
    }
}

/// The batch of a cycle over `canvas` under the default policy, given
/// what is published.
pub open spec fn cycle_batch(canvas: CanvasView, published: Set<Seq<char>>) -> Seq<
    SyndicationView,
> {
    fresh(default_selected(canvas), published)
}

/// The outcome of a cycle whose batch the destination answered with
/// `answer`.
pub open spec fn concluded(
    batch: Seq<SyndicationView>,
    answer: Result<(), SinkError>,
    dry_run: bool,
) -> OutcomeView {
    match answer {
        Err(error) => OutcomeView::PublishFailed(error@),
        Ok(()) => if dry_run {
            OutcomeView::DryRun(entry_ids(batch))
        } else {
            OutcomeView::Published(entry_ids(batch))
        },
    }
}

/// Whether `outcome` is a fitting end of a cycle over `canvas`: with
/// nothing left to publish it says so, counts the selected items, and
/// the destination was left alone; otherwise it is what follows from
/// some answer of the destination to the batch.
pub open spec fn cycle_ends_with(
    canvas: CanvasView,
    published: Set<Seq<char>>,
    dry_run: bool,
    outcome: OutcomeView,
    sink_left_alone: bool,
) -> bool {
    if cycle_batch(canvas, published).len() == 0 {
        outcome == OutcomeView::NoNewItems(default_selected(canvas).len()) && sink_left_alone
    } else {
        exists|answer: Result<(), SinkError>|
            outcome == #[trigger] concluded(cycle_batch(canvas, published), answer, dry_run)
    }
}

/// The record of the tracker after a cycle with the given outcome: only
/// a publication adds to it.
pub open spec fn record_after(record: Seq<Seq<char>>, outcome: OutcomeView) -> Seq<Seq<char>> {
    match outcome {
        OutcomeView::Published(ids) => merged(record, ids),
        _ => record,
    }
}

/// Ends a cycle: marks the identifiers of `batch` as published if the
/// destination answered with success and the cycle is no dry run, and
/// marks nothing otherwise.
pub fn conclude(
    batch: &Batch,
    answer: Result<(), SinkError>,
    tracker: &mut SyndicationTracker,
    dry_run: bool,
) -> (r: CycleOutcome)
    requires
        batch.wf(),
        old(tracker).wf(),
    ensures
        final(tracker).wf(),
        r@ == concluded(batch.entries(), answer, dry_run),
        final(tracker).record() == record_after(old(tracker).record(), r@),
{
    match answer {
        Err(error) => CycleOutcome::PublishFailed(error),
        Ok(()) => {
            let ids = batch.ids();
            if dry_run {
                CycleOutcome::DryRun(ids)
            } else {
                tracker.mark_published(&ids);
                CycleOutcome::Published(ids)
            }
        },
    }
}

/// Runs one cycle over a parsed graph: selects under the default policy,
/// leaves out what is published, hands the rest as one batch to `sink`
/// and marks it as published if the sink succeeds and the cycle is no
/// dry run. With nothing left to publish the sink is not called.
pub fn process_graph<S: SyndicationSink>(
    canvas: &Canvas,
    sink: &mut S,
    tracker: &mut SyndicationTracker,
    dry_run: bool,
) -> (r: CycleOutcome)
    requires
        old(tracker).wf(),
    ensures
        final(tracker).wf(),
        final(tracker).record() == record_after(old(tracker).record(), r@),
        cycle_ends_with(
            canvas@,
            old(tracker).published(),
            dry_run,
            r@,
            *final(sink) == *old(sink),
        ),
        r is Published ==> cycle_batch(canvas@, final(tracker).published()).len() == 0,
{
    let all_items = to_default_syndication_format(canvas);
    let batch = Batch::unpublished(&all_items, tracker);
    if batch.is_empty() {
        return CycleOutcome::NoNewItems(all_items.len());
    }
    let answer = sink.publish(&batch, dry_run);
    let outcome = conclude(&batch, answer, tracker, dry_run);
    proof {
        assert(outcome@ == concluded(
            cycle_batch(canvas@, old(tracker).published()),
            answer,
            dry_run,
        ));
        if outcome is Published {
            merged_is_union(old(tracker).record(), entry_ids(batch.entries()));
            nothing_left_after_publishing(default_selected(canvas@), old(tracker).published());
        }
    }
    outcome
}

/// Whatever the graph holds, an identifier that is published is in no
/// batch of a cycle.
pub proof fn published_node_stays_out(canvas: CanvasView, published: Set<Seq<char>>, id: Seq<char>)
    requires
        published.contains(id),
    ensures
        !holds(cycle_batch(canvas, published), id),
{
    published_stays_out(default_selected(canvas), published, id);
}

/// Once the batch of a cycle is published, a second cycle over the same
/// graph has nothing left to publish.
pub proof fn second_cycle_is_empty(canvas: CanvasView, published: Set<Seq<char>>)
    ensures
        cycle_batch(
            canvas,
            published.union(entry_ids(cycle_batch(canvas, published)).to_set()),
        ).len() == 0,
{
    nothing_left_after_publishing(default_selected(canvas), published);
}

/// Runs one cycle over the text of a graph file: parses it and goes on
/// as [`process_graph`] does, over a canvas that holds the nodes and the
/// edges that the parser reads from the text. A text that does not parse
/// ends the cycle with nothing changed.
pub fn process_canvas<S: SyndicationSink>(
    content: &str,
    sink: &mut S,
    tracker: &mut SyndicationTracker,
    dry_run: bool,
) -> (r: CycleOutcome)
    requires
        old(tracker).wf(),
    ensures
        final(tracker).wf(),
        final(tracker).record() == record_after(old(tracker).record(), r@),
        r is ParseFailed <==> !is_canvas_text(content@),
        r is ParseFailed ==> *final(sink) == *old(sink),
        r is NoNewItems ==> *final(sink) == *old(sink),
        dry_run ==> !(r is Published),
        !dry_run ==> !(r is DryRun),
        is_canvas_text(content@) ==> ({
            let sink_left_alone = *final(sink) == *old(sink);
            exists|canvas: CanvasView|
                canvas.nodes.to_multiset() == canvas_nodes(content@)
                    && canvas.edges.to_multiset() == canvas_edges(content@)
                    && #[trigger] cycle_ends_with(
                    canvas,
                    old(tracker).published(),
                    dry_run,
                    r@,
                    sink_left_alone,
                ) && (r is Published ==> cycle_batch(canvas, final(tracker).published()).len()
                    == 0)
        }),
{
    match load_canvas(content) {
        Err(words) => CycleOutcome::ParseFailed(words),
        Ok(canvas) => {
            let outcome = process_graph(&canvas, sink, tracker, dry_run);
            proof {
                assert(cycle_ends_with(
                    canvas@,
                    old(tracker).published(),
                    dry_run,
                    outcome@,
                    *final(sink) == *old(sink),
                ));
            }
            outcome
        },
    }
}

/// The lines of a link stand in every list that holds the link.
pub proof fn link_occurs_in_block(heading: Seq<char>, list: Seq<LinkView>, at: int)
    requires
        0 <= at < list.len(),
    ensures
        occurs_in(link_lines(list[at]), link_block(heading, list)),
    decreases list.len(),
{
    let head = list.drop_last();
    if at == list.len() - 1 {
        middle_occurs(heading + all_link_lines(head), link_lines(list[at]), Seq::empty());
        assert(heading + all_link_lines(head) + link_lines(list[at]) + Seq::<char>::empty()
            == heading + (all_link_lines(head) + link_lines(list.last())));
    } else {
        link_occurs_in_block(heading, head, at);
        occurs_in_larger(
            link_lines(list[at]),
            link_block(heading, head),
            Seq::empty(),
            link_lines(list.last()),
        );
        assert(Seq::<char>::empty() + link_block(heading, head) + link_lines(list.last())
            == heading + (all_link_lines(head) + link_lines(list.last())));
    }
}

/// An item of a cycle's batch bears the neighbour lists of its node: the
/// in-list and the out-list that the edges of the canvas give to its
/// identifier.
pub proof fn batch_items_bear_adjacency(canvas: CanvasView, published: Set<Seq<char>>, at: int)
    requires
        0 <= at < cycle_batch(canvas, published).len(),
    ensures
        cycle_batch(canvas, published)[at].in_neighbor_ids == neighbor_ids(
            incoming(canvas.edges, cycle_batch(canvas, published)[at].id),
        ),
        cycle_batch(canvas, published)[at].out_neighbor_ids == neighbor_ids(
            outgoing(canvas.edges, cycle_batch(canvas, published)[at].id),
        ),
{
    let items = default_selected(canvas);
    let item = cycle_batch(canvas, published)[at];
    fresh_is_sound(items, published);
    assert(items.contains(item));
    canvas.nodes.lemma_filter_map_contains(default_selection_in(canvas.edges), item);
}

/// Where an edge leads from one item of a cycle's batch to another, each
/// file refers to the other: the file of the item that the edge arrives
/// at lists the item that it leaves under `context_for_this`, and the
/// file of the item that it leaves lists the other under
/// `further_thinking`, whatever the date.
pub proof fn cross_references_follow_edges(
    canvas: CanvasView,
    published: Set<Seq<char>>,
    k: int,
    date: Seq<char>,
)
    requires
        0 <= k < canvas.edges.len(),
        holds(cycle_batch(canvas, published), canvas.edges[k].from_node),
        holds(cycle_batch(canvas, published), canvas.edges[k].to_node),
    ensures
        ({
            let batch = cycle_batch(canvas, published);
            let slugs = slugs_of(batch);
            let from = place_of(batch, canvas.edges[k].from_node);
            let to = place_of(batch, canvas.edges[k].to_node);
            let context = links(batch[to].in_neighbor_ids, slugs, batch);
            let further = links(batch[from].out_neighbor_ids, slugs, batch);
            &&& context.contains(link_at(slugs, batch, from))
            &&& further.contains(link_at(slugs, batch, to))
            &&& occurs_in(
                link_lines(link_at(slugs, batch, from)),
                link_block("context_for_this:\n"@, context),
            )
            &&& occurs_in(
                link_lines(link_at(slugs, batch, to)),
                link_block("further_thinking:\n"@, further),
            )
            &&& occurs_in(
                link_block("context_for_this:\n"@, context),
                file_contents(batch[to], date, slugs, batch),
            )
            &&& occurs_in(
                link_block("further_thinking:\n"@, further),
                file_contents(batch[from], date, slugs, batch),
            )
        }),
{
    let batch = cycle_batch(canvas, published);
    let slugs = slugs_of(batch);
    let edge = canvas.edges[k];
    let from = place_of(batch, edge.from_node);
    let to = place_of(batch, edge.to_node);
    batch_items_bear_adjacency(canvas, published, from);
    batch_items_bear_adjacency(canvas, published, to);
    adjacency_records_every_edge(canvas.edges, k);
    let arriving = incoming(canvas.edges, edge.to_node);
    let leaving = outgoing(canvas.edges, edge.from_node);
    let i = choose|i: int|
        0 <= i < arriving.len() && arriving[i] == (AdjacencyView {
            node_id: edge.from_node,
            edge_id: edge.id,
        });
    let j = choose|j: int|
        0 <= j < leaving.len() && leaving[j] == (AdjacencyView {
            node_id: edge.to_node,
            edge_id: edge.id,
        });
    assert(batch[to].in_neighbor_ids[i] == edge.from_node);
    assert(batch[from].out_neighbor_ids[j] == edge.to_node);
    filter_map_keeps(batch[to].in_neighbor_ids, link_to(slugs, batch), i);
    filter_map_keeps(batch[from].out_neighbor_ids, link_to(slugs, batch), j);
    let context = links(batch[to].in_neighbor_ids, slugs, batch);
    let further = links(batch[from].out_neighbor_ids, slugs, batch);
    let c = choose|c: int| 0 <= c < context.len() && context[c] == link_at(slugs, batch, from);
    let f = choose|f: int| 0 <= f < further.len() && further[f] == link_at(slugs, batch, to);
    link_occurs_in_block("context_for_this:\n"@, context, c);
    link_occurs_in_block("further_thinking:\n"@, further, f);
    let head_to = "---\ntitle: \""@ + yaml_escaped(title_of(batch[to].text)) + "\"\ndate: "@ + date
        + "\n"@;
    middle_occurs(
        head_to,
        link_block("context_for_this:\n"@, context),
        link_block("further_thinking:\n"@, links(batch[to].out_neighbor_ids, slugs, batch))
            + "---\n\n"@ + batch[to].text,
    );
    assert(file_contents(batch[to], date, slugs, batch) == head_to + link_block(
        "context_for_this:\n"@,
        context,
    ) + (link_block("further_thinking:\n"@, links(batch[to].out_neighbor_ids, slugs, batch))
        + "---\n\n"@ + batch[to].text));
    let head_from = "---\ntitle: \""@ + yaml_escaped(title_of(batch[from].text)) + "\"\ndate: "@
        + date + "\n"@ + link_block(
        "context_for_this:\n"@,
        links(batch[from].in_neighbor_ids, slugs, batch),
    );
    middle_occurs(
        head_from,
        link_block("further_thinking:\n"@, further),
        "---\n\n"@ + batch[from].text,
    );
    assert(file_contents(batch[from], date, slugs, batch) == head_from + link_block(
        "further_thinking:\n"@,
        further,
    ) + ("---\n\n"@ + batch[from].text));
}

/// What the watch loop is told.
#[derive(Clone, Copy, Debug, PartialEq, Eq, Structural)]
pub enum Trigger {
    /// The loop has just started.
    Startup,
    /// The file changed and has been quiet since.
    Changed,
    /// The file is still changing.
    StillChanging,
    /// The watcher reported an error.
    WatchError,
}

/// What the watch loop does about a trigger.
#[derive(Clone, Copy, Debug, PartialEq, Eq, Structural)]
pub enum Reaction {
    /// Run one cycle, to its end, before the next trigger is looked at.
    RunCycle,
    /// Log the error and go on waiting.
    LogError,
    /// Go on waiting.
    Wait,
}

/// The reaction that a trigger calls for: a cycle at startup and after
/// each settled change, a log line for a watcher error, nothing else.
pub open spec fn reaction(trigger: Trigger) -> Reaction {
    match trigger {
        Trigger::Startup => Reaction::RunCycle,
        Trigger::Changed => Reaction::RunCycle,
        Trigger::StillChanging => Reaction::Wait,
        Trigger::WatchError => Reaction::LogError,
    }
}

/// Decides what the watch loop does about `trigger`.
pub fn react(trigger: Trigger) -> (r: Reaction)
    ensures
        r == reaction(trigger),
{
    match trigger {
        Trigger::Startup => Reaction::RunCycle,
        Trigger::Changed => Reaction::RunCycle,
        Trigger::StillChanging => Reaction::Wait,
        Trigger::WatchError => Reaction::LogError,
    }
}

} // verus!
