//! The steps by which the `jj` destination publishes a batch, and the
//! record of how far a publication has come.

use crate::jj_sink::{
    all_link_lines, file_contents, filename_of, link_at, link_lines, link_to, links, slug_of,
    slugs_of, title_of, yaml_escaped, JjRepositorySink, LinkView,
};
use crate::select::SyndicationView;
use crate::sink::{holds, place_of, Batch, SinkError, SinkErrorView};
use crate::text::{decimal, decimal_text, join, join_words, leading, views};
use vstd::prelude::*;
use vstd::string::{StrSliceExecFns, StringExecFns};

verus! {

/// How many characters of a text its preview may hold.
pub const PREVIEW_CHARS: usize = 50;

/// One thing to do for a publication.
#[derive(Clone, Debug, PartialEq, Eq)]
pub enum PublishStep {
    /// Run `jj` in the repository with these arguments.
    Command(Vec<String>),
    /// Write `contents` to the file `filename` in the destination folder.
    WriteFile { filename: String, contents: String },
}

/// Mathematical model of a [`PublishStep`].
pub enum StepView {
    Command(Seq<Seq<char>>),
    WriteFile { filename: Seq<char>, contents: Seq<char> },
}

impl View for PublishStep {
    type V = StepView;

    open spec fn view(&self) -> StepView {
        match self {
            PublishStep::Command(args) => StepView::Command(views(args@)),
            PublishStep::WriteFile { filename, contents } => StepView::WriteFile {
                filename: filename@,
                contents: contents@,
            },
        }
    }
}

/// Where a publication stands: the step that comes next.
#[derive(Clone, Copy, Debug, PartialEq, Eq, Structural)]
pub enum Stage {
    /// Fetch the remote state.
    Fetch,
    /// Create the new change after the bookmark.
    NewChange,
    /// Write the file of the item at this place of the batch.
    WriteFile(usize),
    /// Move the bookmark to the new change.
    MoveBookmark,
    /// Push the bookmark to the remote.
    Push,
    /// Nothing is left to do.
    Finished,
}

/// The stage at which the publication of `count` items starts: an empty
/// batch needs no step.
pub open spec fn first_stage(count: nat) -> Stage {
    if count == 0 {
        Stage::Finished
    } else {
        Stage::Fetch
    }
}

/// The stage that follows `stage` once its step has succeeded.
pub open spec fn stage_after(stage: Stage, count: nat) -> Stage {
    match stage {
        Stage::Fetch => Stage::NewChange,
        Stage::NewChange => if count > 0 {
            Stage::WriteFile(0)
        } else {
            Stage::MoveBookmark
        },
        Stage::WriteFile(place) => if place + 1 < count {
            Stage::WriteFile((place + 1) as usize)
        } else {
            Stage::MoveBookmark
        },
        Stage::MoveBookmark => Stage::Push,
        Stage::Push => Stage::Finished,
        Stage::Finished => Stage::Finished,
    }
}

/// The stages of the publication of `count` items, in the order in which
/// they are gone through: fetch, new change, one file for each item in
/// the order of the batch, bookmark, push.
pub open spec fn schedule(count: nat) -> Seq<Stage> {
    if count == 0 {
        Seq::empty()
    } else {
        seq![Stage::Fetch, Stage::NewChange] + Seq::new(
            count,
            |place: int| Stage::WriteFile(place as usize),
        ) + seq![Stage::MoveBookmark, Stage::Push]
    }
}

/// A publication goes through its schedule: it starts at the first stage
/// of the schedule, each success leads to the next one, and the last
/// success ends it.
pub proof fn stages_follow_schedule(count: nat, k: int)
    requires
        0 <= k < schedule(count).len(),
        count <= usize::MAX,
    ensures
        schedule(count)[0] == first_stage(count),
        stage_after(schedule(count)[k], count) == if k + 1 < schedule(count).len() {
            schedule(count)[k + 1]
        } else {
            Stage::Finished
        },
{
}

/// The stage that a publication stands at after `successes` steps that
/// all succeeded, started at `stage`.
pub open spec fn stage_after_successes(stage: Stage, count: nat, successes: nat) -> Stage
    decreases successes,
{
    if successes == 0 {
        stage
    } else {
        stage_after(stage_after_successes(stage, count, (successes - 1) as nat), count)
    }
}

/// A publication whose steps all succeed takes the stages of its
/// schedule one by one and has ended when the last one is done.
pub proof fn successes_end_the_run(count: nat, successes: nat)
    requires
        count <= usize::MAX,
        successes <= schedule(count).len(),
    ensures
        stage_after_successes(first_stage(count), count, successes) == if successes < schedule(
            count,
        ).len() {
            schedule(count)[successes as int]
        } else {
            Stage::Finished
        },
    decreases successes,
{
    if successes > 0 {
        successes_end_the_run(count, (successes - 1) as nat);
        stages_follow_schedule(count, successes - 1);
    } else if count > 0 {
        stages_follow_schedule(count, 0);
    }
}

/// The preview of a text in a commit message: its first fifty
/// characters, or all of it where it has no more.
pub open spec fn preview_of(text: Seq<char>) -> Seq<char> {
    leading(text, PREVIEW_CHARS as nat)
}

/// The message of the change that publishes `batch`, given the slug of
/// each of its items: for a single item its slug in double quotes and,
/// after an empty line, the preview of its text; for any other number of
/// items, that number.
pub open spec fn commit_message(batch: Seq<SyndicationView>, slugs: Seq<Seq<char>>) -> Seq<char> {
    if batch.len() == 1 {
        "Adding microblog \""@ + slugs[0] + "\"\n\n"@ + preview_of(batch[0].text)
    } else {
        "Update microblogs ("@ + decimal(batch.len()) + " posts)"@
    }
}

/// What is to be done at `stage` of the publication of `batch` on the
/// day `date`, for a destination with the given bookmark and remote.
pub open spec fn step_at(
    stage: Stage,
    bookmark: Seq<char>,
    remote: Seq<char>,
    batch: Seq<SyndicationView>,
    slugs: Seq<Seq<char>>,
    date: Seq<char>,
) -> Option<StepView> {
    match stage {
        Stage::Fetch => Some(StepView::Command(seq!["git"@, "fetch"@])),
        Stage::NewChange => Some(
            StepView::Command(
                seq!["new"@, "--insert-after"@, bookmark, "-m"@, commit_message(batch, slugs)],
            ),
        ),
        Stage::WriteFile(place) => if place < batch.len() && place < slugs.len() {
            Some(
                StepView::WriteFile {
                    filename: filename_of(slugs[place as int], batch[place as int].id),
                    contents: file_contents(batch[place as int], date, slugs, batch),
                },
            )
        } else {
            None
        },
        Stage::MoveBookmark => Some(StepView::Command(seq!["bookmark"@, "move"@, bookmark])),
        Stage::Push => Some(
            StepView::Command(
                seq!["git"@, "push"@, "--remote"@, remote, "--bookmark"@, bookmark],
            ),
        ),
        Stage::Finished => None,
    }
}

/// The opening of the front matter of a file: the title of the item and
/// the date.
pub open spec fn front_matter_head(item: SyndicationView, date: Seq<char>) -> Seq<char> {
    "---\ntitle: \""@ + yaml_escaped(title_of(item.text)) + "\"\ndate: "@ + date + "\n"@
}

/// The link that a file shows for the item `target`.
pub open spec fn link_for(target: SyndicationView) -> LinkView {
    LinkView {
        link_text: title_of(target.text),
        href: "/t/"@ + filename_of(slug_of(target.text), target.id),
    }
}

/// Two items of which the first refers to the second, published
/// together: the file of the first lists the second under
/// `further_thinking` and has no other list, the file of the second
/// lists the first under `context_for_this` and has no other list, and
/// each is written under the name made of its slug and its identifier.
pub proof fn two_linked_items(
    first: SyndicationView,
    second: SyndicationView,
    bookmark: Seq<char>,
    remote: Seq<char>,
    date: Seq<char>,
)
    requires
        first.id != second.id,
        first.in_neighbor_ids == Seq::<Seq<char>>::empty(),
        first.out_neighbor_ids == seq![second.id],
        second.in_neighbor_ids == seq![first.id],
        second.out_neighbor_ids == Seq::<Seq<char>>::empty(),
    ensures
        ({
            let batch = seq![first, second];
            let slugs = slugs_of(batch);
            &&& step_at(Stage::WriteFile(0), bookmark, remote, batch, slugs, date) == Some(
                StepView::WriteFile {
                    filename: filename_of(slug_of(first.text), first.id),
                    contents: front_matter_head(first, date) + "further_thinking:\n"@
                        + link_lines(link_for(second)) + "---\n\n"@ + first.text,
                },
            )
            &&& step_at(Stage::WriteFile(1), bookmark, remote, batch, slugs, date) == Some(
                StepView::WriteFile {
                    filename: filename_of(slug_of(second.text), second.id),
                    contents: front_matter_head(second, date) + "context_for_this:\n"@
                        + link_lines(link_for(first)) + "---\n\n"@ + second.text,
                },
            )
        }),
{
    let batch = seq![first, second];
    let slugs = slugs_of(batch);
    let to = link_to(slugs, batch);
    let none = Seq::<Seq<char>>::empty();
    assert(batch[0].id == first.id && batch[1].id == second.id);
    assert(holds(batch, first.id) && place_of(batch, first.id) == 0);
    assert(holds(batch, second.id) && place_of(batch, second.id) == 1);
    assert(link_at(slugs, batch, 0) == link_for(first));
    assert(link_at(slugs, batch, 1) == link_for(second));
    Seq::lemma_filter_map_singleton(first.id, to);
    Seq::lemma_filter_map_singleton(second.id, to);
    assert(links(none, slugs, batch) == Seq::<LinkView>::empty());
    assert(links(seq![second.id], slugs, batch) == seq![link_for(second)]);
    assert(links(seq![first.id], slugs, batch) == seq![link_for(first)]);
    assert(all_link_lines(seq![link_for(second)]) == link_lines(link_for(second))) by {
        assert(seq![link_for(second)].drop_last() == Seq::<LinkView>::empty());
        assert(all_link_lines(Seq::<LinkView>::empty()) == Seq::<char>::empty());
        assert(Seq::<char>::empty() + link_lines(link_for(second)) == link_lines(
            link_for(second),
        ));
    }
    assert(all_link_lines(seq![link_for(first)]) == link_lines(link_for(first))) by {
        assert(seq![link_for(first)].drop_last() == Seq::<LinkView>::empty());
        assert(all_link_lines(Seq::<LinkView>::empty()) == Seq::<char>::empty());
        assert(Seq::<char>::empty() + link_lines(link_for(first)) == link_lines(link_for(first)));
    }
    assert(file_contents(first, date, slugs, batch) == front_matter_head(first, date)
        + "further_thinking:\n"@ + link_lines(link_for(second)) + "---\n\n"@ + first.text) by {
        let head = front_matter_head(first, date);
        assert(head + Seq::<char>::empty() == head);
        assert(head + ("further_thinking:\n"@ + link_lines(link_for(second))) == head
            + "further_thinking:\n"@ + link_lines(link_for(second)));
    }
    assert(file_contents(second, date, slugs, batch) == front_matter_head(second, date)
        + "context_for_this:\n"@ + link_lines(link_for(first)) + "---\n\n"@ + second.text) by {
        let head = front_matter_head(second, date);
        let block = "context_for_this:\n"@ + link_lines(link_for(first));
        assert(head + block == head + "context_for_this:\n"@ + link_lines(link_for(first)));
        assert(head + block + Seq::<char>::empty() == head + block);
    }
}

/// How the attempt at a step ended.
#[derive(Clone, Debug, PartialEq, Eq)]
pub enum StepReport {
    /// The step was carried out.
    Succeeded,
    /// The command could not be started; holds the reason.
    NotStarted(String),
    /// The command ran and reported failure; holds what it wrote to its
    /// error stream.
    Failed(String),
    /// The file or its folder could not be written; holds the reason.
    NotWritten(String),
}

/// Mathematical model of a [`StepReport`].
pub enum ReportView {
    Succeeded,
    NotStarted(Seq<char>),
    Failed(Seq<char>),
    NotWritten(Seq<char>),
}

impl View for StepReport {
    type V = ReportView;

    open spec fn view(&self) -> ReportView {
        match self {
            StepReport::Succeeded => ReportView::Succeeded,
            StepReport::NotStarted(reason) => ReportView::NotStarted(reason@),
            StepReport::Failed(errors) => ReportView::Failed(errors@),
            StepReport::NotWritten(reason) => ReportView::NotWritten(reason@),
        }
    }
}

/// The arguments of a step as one line: those of a command with single
/// spaces between them, nothing for a file.
pub open spec fn command_line(step: StepView) -> Seq<char> {
    match step {
        StepView::Command(args) => join(args, seq![' ']),
        StepView::WriteFile { .. } => Seq::empty(),
    }
}

/// Whether a step and a report can belong to a stage: a file is written
/// at the stages that write files and nowhere else, only a command can
/// fail to start or report failure, and only a file can stay unwritten.
pub open spec fn report_fits(stage: Stage, step: StepView, report: ReportView) -> bool {
    &&& step is WriteFile <==> stage is WriteFile
    &&& report is NotStarted || report is Failed ==> step is Command
    &&& report is NotWritten ==> step is WriteFile
}

/// The report that counts for a run: in a dry run nothing is attempted,
/// so whatever is reported counts as success.
pub open spec fn counted(report: ReportView, dry_run: bool) -> ReportView {
    if dry_run {
        ReportView::Succeeded
    } else {
        report
    }
}

/// The error that a report stands for, if it reports a failure of `step`.
pub open spec fn failure_of(step: StepView, report: ReportView) -> Option<SinkErrorView> {
    match report {
        ReportView::Succeeded => None,
        ReportView::NotStarted(reason) => Some(
            SinkErrorView::CommandFailed("Failed to execute jj: "@ + reason),
        ),
        ReportView::Failed(errors) => Some(
            SinkErrorView::CommandFailed("jj "@ + command_line(step) + " failed: "@ + errors),
        ),
        ReportView::NotWritten(reason) => Some(SinkErrorView::Io(reason)),
    }
}

/// How the attempt at a command ended.
#[derive(Clone, Debug, PartialEq, Eq)]
pub enum CommandReport {
    /// The command ran and reported success.
    Succeeded,
    /// The command could not be started; holds the reason.
    NotStarted(String),
    /// The command ran and reported failure; holds what it wrote to its
    /// error stream.
    Failed(String),
}

/// How the attempt at writing a file ended.
#[derive(Clone, Debug, PartialEq, Eq)]
pub enum WriteReport {
    /// The file is written.
    Written,
    /// The file or its folder could not be written; holds the reason.
    NotWritten(String),
}

/// The report of a step that a command's report makes.
pub open spec fn command_outcome(report: CommandReport) -> ReportView {
    match report {
        CommandReport::Succeeded => ReportView::Succeeded,
        CommandReport::NotStarted(reason) => ReportView::NotStarted(reason@),
        CommandReport::Failed(errors) => ReportView::Failed(errors@),
    }
}

/// The report of a step that a file's report makes.
pub open spec fn write_outcome(report: WriteReport) -> ReportView {
    match report {
        WriteReport::Written => ReportView::Succeeded,
        WriteReport::NotWritten(reason) => ReportView::NotWritten(reason@),
    }
}

/// Whether `report` is an answer that the caller's means can give to
/// `step`: `run_command` to a command, `write_file` to a file.
pub open spec fn answers<C, W>(
    run_command: C,
    write_file: W,
    step: PublishStep,
    report: ReportView,
) -> bool where C: Fn(&Vec<String>) -> CommandReport, W: Fn(&String, &String) -> WriteReport {
    match step {
        PublishStep::Command(args) => exists|answer: CommandReport| #[trigger]
            run_command.ensures((&args,), answer) && command_outcome(answer) == report,
        PublishStep::WriteFile { filename, contents } => exists|answer: WriteReport| #[trigger]
            write_file.ensures((&filename, &contents), answer) && write_outcome(answer) == report,
    }
}

/// Whether `step` is what `stage` of the publication of `batch` asks
/// for, on some day.
pub open spec fn asked_at(
    stage: Stage,
    bookmark: Seq<char>,
    remote: Seq<char>,
    batch: Seq<SyndicationView>,
    step: StepView,
) -> bool {
    exists|date: Seq<char>|
        Some(step) == #[trigger] step_at(stage, bookmark, remote, batch, slugs_of(batch), date)
}

/// Whether `steps` with their `reports` are the course of a publication
/// of `batch` that ended with `result`: they are the steps of the
/// stages in order, from the first on, each answered by the caller's
/// means; every report but the last is a success; and either the last
/// step of the last stage succeeded too and the result is good, or the
/// last report is a failure and the result is the error it stands for.
pub open spec fn published_with<C, W>(
    bookmark: Seq<char>,
    remote: Seq<char>,
    batch: Seq<SyndicationView>,
    run_command: C,
    write_file: W,
    steps: Seq<PublishStep>,
    reports: Seq<ReportView>,
    result: Result<(), SinkErrorView>,
) -> bool where C: Fn(&Vec<String>) -> CommandReport, W: Fn(&String, &String) -> WriteReport {
    &&& steps.len() == reports.len()
    &&& forall|i: int|
        0 <= i < steps.len() ==> asked_at(
            stage_after_successes(first_stage(batch.len()), batch.len(), i as nat),
            bookmark,
            remote,
            batch,
            (#[trigger] steps[i])@,
        ) && answers(run_command, write_file, steps[i], reports[i])
    &&& forall|i: int| 0 <= i < steps.len() - 1 ==> (#[trigger] reports[i]) is Succeeded
    &&& match result {
        Ok(()) => {
            &&& steps.len() > 0 ==> reports.last() is Succeeded
            &&& stage_after_successes(first_stage(batch.len()), batch.len(), steps.len())
                == Stage::Finished
        },
        Err(error) => {
            &&& steps.len() > 0
            &&& failure_of(steps.last()@, reports.last()) == Some(error)
        },
    }
}

/// How many steps a publication has before it once it stands at `stage`.
pub open spec fn steps_left(stage: Stage, count: nat) -> nat {
    match stage {
        Stage::Fetch => 4 + count,
        Stage::NewChange => 3 + count,
        Stage::WriteFile(place) => if place < count {
            (2 + count - place) as nat
        } else {
            3
        },
        Stage::MoveBookmark => 2,
        Stage::Push => 1,
        Stage::Finished => 0,
    }
}

/// What the caller is told to do next.
#[derive(Debug, PartialEq, Eq)]
pub enum Directive {
    /// Carry the step out and report how it ended.
    Perform(PublishStep),
    /// Show the step without carrying it out, and report success.
    Announce(PublishStep),
    /// Stop: the publication has ended this way.
    Finish(Result<(), SinkError>),
}

/// The view of a result of publishing.
pub open spec fn outcome_view(outcome: Result<(), SinkError>) -> Result<(), SinkErrorView> {
    match outcome {
        Ok(()) => Ok(()),
        Err(error) => Err(error@),
    }
}

/// How far the publication of one batch has come.
#[derive(Debug)]
pub struct PublishRun {
    slugs: Vec<String>,
    stage: Stage,
    dry_run: bool,
    failure: Option<SinkError>,
}

impl PublishRun {
    /// Whether this run is one of the batch `items` and consistent.
    pub closed spec fn fits(&self, items: &Batch) -> bool {
        &&& views(self.slugs@) == slugs_of(items.entries())
        &&& (self.stage matches Stage::WriteFile(place) ==> place < items.entries().len())
        &&& (self.stage != Stage::Finished ==> items.entries().len() > 0)
        &&& (self.failure is Some ==> self.stage == Stage::Finished && !self.dry_run)
    }

    /// The stage that the run stands at.
    pub closed spec fn stage_now(&self) -> Stage {
        self.stage
    }

    /// Whether the run only shows what it would do.
    pub closed spec fn is_dry(&self) -> bool {
        self.dry_run
    }

    /// The failure that ended the run, if one did.
    pub closed spec fn failed_with(&self) -> Option<SinkErrorView> {
        match self.failure {
            Some(error) => Some(error@),
            None => None,
        }
    }

    /// How the run has ended, if it has: with the failure that stopped
    /// it, or well after its last stage.
    pub open spec fn ended(&self) -> Option<Result<(), SinkErrorView>> {
        if self.stage_now() != Stage::Finished {
            None
        } else {
            match self.failed_with() {
                Some(error) => Some(Err(error)),
                None => Some(Ok(())),
            }
        }
    }

    /// The stage that the run stands at.
    pub fn stage(&self) -> (r: Stage)
        ensures
            r == self.stage_now(),
    {
        self.stage
    }

    /// A dry run does not fail.
    pub proof fn dry_run_does_not_fail(&self, items: &Batch)
        requires
            self.fits(items),
            self.is_dry(),
        ensures
            self.failed_with() is None,
            self.ended() is Some ==> self.ended() == Some(Ok::<(), SinkErrorView>(())),
    {
    }

    /// Whether [`PublishRun::record`] takes `step` with `report` now: once
    /// the run has ended it takes anything, before that only what
    /// [`report_fits`] allows at its stage.
    pub fn accepts(&self, step: &PublishStep, report: &StepReport) -> (r: bool)
        ensures
            r == (self.stage_now() != Stage::Finished ==> report_fits(
                self.stage_now(),
                step@,
                report@,
            )),
    {
        let at_file = match self.stage {
            Stage::Finished => {
                return true;
            },
            Stage::WriteFile(_) => true,
            _ => false,
        };
        match step {
            PublishStep::Command(_) => !at_file && match report {
                StepReport::NotWritten(_) => false,
                _ => true,
            },
            PublishStep::WriteFile { .. } => at_file && match report {
                StepReport::NotStarted(_) => false,
                StepReport::Failed(_) => false,
                _ => true,
            },
        }
    }

    /// Notes how the attempt at `step` ended. Success leads to the next
    /// stage; any failure ends the run with the error it stands for, and
    /// no further step is asked for. In a dry run every report counts as
    /// success.
    pub fn record(&mut self, items: &Batch, step: &PublishStep, report: StepReport)
        requires
            items.wf(),
            old(self).fits(items),
            old(self).stage_now() != Stage::Finished ==> report_fits(
                old(self).stage_now(),
                step@,
                report@,
            ),
        ensures
            final(self).fits(items),
            final(self).is_dry() == old(self).is_dry(),
            old(self).stage_now() == Stage::Finished ==> final(self).stage_now()
                == Stage::Finished && final(self).failed_with() == old(self).failed_with(),
            old(self).stage_now() != Stage::Finished ==> match failure_of(
                step@,
                counted(report@, old(self).is_dry()),
            ) {
                None => final(self).stage_now() == stage_after(
                    old(self).stage_now(),
                    items.entries().len(),
                ) && final(self).failed_with() is None,
                Some(error) => {
                    &&& final(self).stage_now() == Stage::Finished
                    &&& final(self).failed_with() == Some(error)
                },
            },
    {
        let count = items.len();
        match self.stage {
            Stage::Finished => {
                return ;
            },
            _ => {},
        }
        let report = if self.dry_run {
            StepReport::Succeeded
        } else {
            report
        };
        match report {
            StepReport::Succeeded => {
                let next = match self.stage {
                    Stage::Fetch => Stage::NewChange,
                    Stage::NewChange => Stage::WriteFile(0),
                    Stage::WriteFile(place) => if place + 1 < count {
                        Stage::WriteFile(place + 1)
                    } else {
                        Stage::MoveBookmark
                    },
                    Stage::MoveBookmark => Stage::Push,
                    Stage::Push => Stage::Finished,
                    Stage::Finished => Stage::Finished,
                };
                self.stage = next;
            },
            StepReport::NotStarted(reason) => {
                let detail = String::from_str("Failed to execute jj: ").concat(reason.as_str());
                self.stage = Stage::Finished;
                self.failure = Some(SinkError::CommandFailed(detail));
            },
            StepReport::Failed(errors) => {
                let mut detail = String::from_str("jj ");
                match step {
                    PublishStep::Command(args) => {
                        let line = join_words(args, " ");
                        proof {
                            reveal_strlit(" ");
                            assert(" "@ == seq![' ']);
                        }
                        detail.append(line.as_str());
                    },
                    PublishStep::WriteFile { .. } => {
                        assert(detail@ + Seq::<char>::empty() == detail@);
                    },
                }
                detail.append(" failed: ");
                detail.append(errors.as_str());
                self.stage = Stage::Finished;
                self.failure = Some(SinkError::CommandFailed(detail));
            },
            StepReport::NotWritten(reason) => {
                self.stage = Stage::Finished;
                self.failure = Some(SinkError::Io(reason));
            },
        }
    }
}

/// Appends a copy of `text` to `args`.
fn push_text(args: &mut Vec<String>, text: &str)
    ensures
        views(final(args)@) == views(old(args)@).push(text@),
{
    args.push(String::from_str(text));
    assert(views(args@) =~= views(old(args)@).push(text@));
}

impl JjRepositorySink {
    /// The preview of `text` for a commit message.
    pub fn preview(text: &str) -> (r: String)
        ensures
            r@ == preview_of(text@),
            r@.len() <= PREVIEW_CHARS,
    {
        if text.unicode_len() > PREVIEW_CHARS {
            String::from_str(text.substring_char(0, PREVIEW_CHARS))
        } else {
            String::from_str(text)
        }
    }

    /// The message of the change that publishes `items`, given the slug
    /// of each item.
    pub fn commit_message(items: &Batch, slugs: &Vec<String>) -> (r: String)
        requires
            items.wf(),
            slugs@.len() == items.entries().len(),
        ensures
            r@ == commit_message(items.entries(), views(slugs@)),
    {
        if items.len() == 1 {
            let mut out = String::from_str("Adding microblog \"");
            out.append(slugs[0].as_str());
            out.append("\"\n\n");
            out.append(Self::preview(items.item(0).text.as_str()).as_str());
            out
        } else {
            let mut out = String::from_str("Update microblogs (");
            out.append(decimal_text(items.len()).as_str());
            out.append(" posts)");
            out
        }
    }

    /// Starts the publication of `items`: computes the slug of every
    /// item and stands at the first stage. With `dry_run` every step will
    /// be announced and none performed.
    pub fn begin(&self, items: &Batch, dry_run: bool) -> (r: PublishRun)
        requires
            items.wf(),
        ensures
            r.fits(items),
            r.stage_now() == first_stage(items.entries().len()),
            r.is_dry() == dry_run,
            r.failed_with() is None,
    {
        let slugs = Self::generate_slugs(items);
        let stage = if items.is_empty() {
            Stage::Finished
        } else {
            Stage::Fetch
        };
        PublishRun { slugs, stage, dry_run, failure: None }
    }

    /// The step of the stage that `run` stands at, for a file written on
    /// the day `date`; none once the run has ended.
    pub fn step_on(&self, run: &PublishRun, items: &Batch, date: &str) -> (r: Option<PublishStep>)
        requires
            items.wf(),
            run.fits(items),
        ensures
            step_view(r) == step_at(
                run.stage_now(),
                self.bookmark(),
                self.remote(),
                items.entries(),
                slugs_of(items.entries()),
                date@,
            ),
            r is Some <==> run.stage_now() != Stage::Finished,
    {
        match run.stage {
            Stage::Fetch => {
                let mut args: Vec<String> = Vec::new();
                push_text(&mut args, "git");
                push_text(&mut args, "fetch");
                assert(views(args@) =~= seq!["git"@, "fetch"@]);
                Some(PublishStep::Command(args))
            },
            Stage::NewChange => {
                let mut args: Vec<String> = Vec::new();
                push_text(&mut args, "new");
                push_text(&mut args, "--insert-after");
                push_text(&mut args, self.bookmark_name());
                push_text(&mut args, "-m");
                push_text(&mut args, Self::commit_message(items, &run.slugs).as_str());
                assert(views(args@) =~= seq![
                    "new"@,
                    "--insert-after"@,
                    self.bookmark(),
                    "-m"@,
                    commit_message(items.entries(), slugs_of(items.entries())),
                ]);
                Some(PublishStep::Command(args))
            },
            Stage::WriteFile(place) => {
                let item = items.item(place);
                let filename = Self::generate_filename(
                    run.slugs[place].as_str(),
                    item.id.as_str(),
                );
                let contents = Self::render_file_contents(item, date, &run.slugs, items);
                Some(PublishStep::WriteFile { filename, contents })
            },
            Stage::MoveBookmark => {
                let mut args: Vec<String> = Vec::new();
                push_text(&mut args, "bookmark");
                push_text(&mut args, "move");
                push_text(&mut args, self.bookmark_name());
                assert(views(args@) =~= seq!["bookmark"@, "move"@, self.bookmark()]);
                Some(PublishStep::Command(args))
            },
            Stage::Push => {
                let mut args: Vec<String> = Vec::new();
                push_text(&mut args, "git");
                push_text(&mut args, "push");
                push_text(&mut args, "--remote");
                push_text(&mut args, self.remote_name());
                push_text(&mut args, "--bookmark");
                push_text(&mut args, self.bookmark_name());
                assert(views(args@) =~= seq![
                    "git"@,
                    "push"@,
                    "--remote"@,
                    self.remote(),
                    "--bookmark"@,
                    self.bookmark(),
                ]);
                Some(PublishStep::Command(args))
            },
            Stage::Finished => None,
        }
    }

    /// Publishes `items`: goes through the stages in order and has each
    /// step carried out by the caller's means, `run_command` for a `jj`
    /// command and `write_file` for a file. The first failure stops it:
    /// no further step is attempted, nothing is undone, and the error is
    /// returned. In a dry run each step is handed to `announce` and none
    /// is carried out, and the result is always good.
    pub fn publish<C, W, A>(
        &self,
        items: &Batch,
        dry_run: bool,
        run_command: C,
        write_file: W,
        announce: A,
    ) -> (r: Result<(), SinkError>) where
        C: Fn(&Vec<String>) -> CommandReport,
        W: Fn(&String, &String) -> WriteReport,
        A: Fn(&PublishStep) -> (),

        requires
            items.wf(),
            forall|args: &Vec<String>| run_command.requires((args,)),
            forall|filename: &String, contents: &String|
                write_file.requires((filename, contents)),
            forall|step: &PublishStep| announce.requires((step,)),
        ensures
            dry_run ==> r is Ok,
            !dry_run ==> exists|steps: Seq<PublishStep>, reports: Seq<ReportView>| #[trigger]
                published_with(
                    self.bookmark(),
                    self.remote(),
                    items.entries(),
                    run_command,
                    write_file,
                    steps,
                    reports,
                    outcome_view(r),
                ),
    {
        let mut run = self.begin(items, dry_run);
        let length = items.len();
        let ghost count = length as nat;
        let ghost mut steps: Seq<PublishStep> = Seq::empty();
        let ghost mut reports: Seq<ReportView> = Seq::empty();
        loop
            invariant
                items.wf(),
                run.fits(items),
                run.is_dry() == dry_run,
                count == items.entries().len(),
                count <= usize::MAX,
                forall|args: &Vec<String>| run_command.requires((args,)),
                forall|filename: &String, contents: &String|
                    write_file.requires((filename, contents)),
                forall|step: &PublishStep| announce.requires((step,)),
                steps.len() == reports.len(),
                !dry_run ==> forall|i: int|
                    0 <= i < steps.len() ==> asked_at(
                        stage_after_successes(first_stage(count), count, i as nat),
                        self.bookmark(),
                        self.remote(),
                        items.entries(),
                        (#[trigger] steps[i])@,
                    ) && answers(run_command, write_file, steps[i], reports[i]),
                !dry_run ==> forall|i: int|
                    0 <= i < steps.len() - 1 ==> (#[trigger] reports[i]) is Succeeded,
                !dry_run && run.failed_with() is None ==> run.stage_now()
                    == stage_after_successes(first_stage(count), count, steps.len()) && (
                steps.len() > 0 ==> reports.last() is Succeeded),
                !dry_run && run.failed_with() is Some ==> steps.len() > 0 && failure_of(
                    steps.last()@,
                    reports.last(),
                ) == run.failed_with(),
            decreases steps_left(run.stage_now(), count),
        {
            match self.directive(&run, items) {
                Directive::Finish(outcome) => {
                    proof {
                        if !dry_run {
                            assert(published_with(
                                self.bookmark(),
                                self.remote(),
                                items.entries(),
                                run_command,
                                write_file,
                                steps,
                                reports,
                                outcome_view(outcome),
                            ));
                        }
                    }
                    return outcome;
                },
                Directive::Announce(step) => {
                    announce(&step);
                    run.record(items, &step, StepReport::Succeeded);
                },
                Directive::Perform(step) => {
                    let report = match &step {
                        PublishStep::Command(args) => match run_command(args) {
                            CommandReport::Succeeded => StepReport::Succeeded,
                            CommandReport::NotStarted(reason) => StepReport::NotStarted(reason),
                            CommandReport::Failed(errors) => StepReport::Failed(errors),
                        },
                        PublishStep::WriteFile { filename, contents } => match write_file(
                            filename,
                            contents,
                        ) {
                            WriteReport::Written => StepReport::Succeeded,
                            WriteReport::NotWritten(reason) => StepReport::NotWritten(reason),
                        },
                    };
                    proof {
                        assert(answers(run_command, write_file, step, report@));
                        assert(asked_at(
                            run.stage_now(),
                            self.bookmark(),
                            self.remote(),
                            items.entries(),
                            step@,
                        ));
                        steps = steps.push(step);
                        reports = reports.push(report@);
                    }
                    run.record(items, &step, report);
                },
            }
        }
    }

    /// What to do next for `run`: the step of its stage, to be performed,
    /// or only announced in a dry run; or how the run has ended. The file
    /// of a write step bears the date that the clock shows now.
    pub fn directive(&self, run: &PublishRun, items: &Batch) -> (r: Directive)
        requires
            items.wf(),
            run.fits(items),
        ensures
            match r {
                Directive::Finish(outcome) => run.ended() == Some(outcome_view(outcome)) && (
                run.is_dry() ==> outcome is Ok),
                Directive::Perform(step) => !run.is_dry() && run.ended() is None && exists|
                    date: Seq<char>,
                |
                    Some(step@) == #[trigger] step_at(
                        run.stage_now(),
                        self.bookmark(),
                        self.remote(),
                        items.entries(),
                        slugs_of(items.entries()),
                        date,
                    ),
                Directive::Announce(step) => run.is_dry() && run.ended() is None && exists|
                    date: Seq<char>,
                |
                    Some(step@) == #[trigger] step_at(
                        run.stage_now(),
                        self.bookmark(),
                        self.remote(),
                        items.entries(),
                        slugs_of(items.entries()),
                        date,
                    ),
            },
    {
        let next = match run.stage {
            Stage::WriteFile(place) => {
                let item = items.item(place);
                let filename = Self::generate_filename(
                    run.slugs[place].as_str(),
                    item.id.as_str(),
                );
                let contents = Self::generate_file_contents(item, &run.slugs, items);
                let step = PublishStep::WriteFile { filename, contents };
                proof {
                    let date = choose|date: Seq<char>|
                        contents@ == #[trigger] file_contents(
                            item@,
                            date,
                            views(run.slugs@),
                            items.entries(),
                        );
                    assert(Some(step@) == step_at(
                        run.stage_now(),
                        self.bookmark(),
                        self.remote(),
                        items.entries(),
                        slugs_of(items.entries()),
                        date,
                    ));
                }
                Some(step)
            },
            _ => self.step_on(run, items, ""),
        };
        match next {
            Some(step) => {
                if run.dry_run {
                    Directive::Announce(step)
                } else {
                    Directive::Perform(step)
                }
            },
            None => match &run.failure {
                Some(error) => Directive::Finish(Err(error.duplicate())),
                None => Directive::Finish(Ok(())),
            },
        }
    }
}

/// The view of an optional step.
pub open spec fn step_view(step: Option<PublishStep>) -> Option<StepView> {
    match step {
        Some(s) => Some(s@),
        None => None,
    }
}

} // verus!
