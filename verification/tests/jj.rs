use syndicate_json_canvas::jj_sink::{JjRepositorySink, PathFacts};
use std::cell::RefCell;

use syndicate_json_canvas::publish::{
    CommandReport, Directive, PublishStep, Stage, StepReport, WriteReport,
};
use syndicate_json_canvas::select::SyndicationFormat;
use syndicate_json_canvas::sink::{Batch, SinkError};

fn texts(values: &[&str]) -> Vec<String> {
    values.iter().map(|v| v.to_string()).collect()
}

fn item(id: &str, text: &str, inn: &[&str], out: &[&str]) -> SyndicationFormat {
    SyndicationFormat {
        id: id.to_string(),
        text: text.to_string(),
        in_neighbor_ids: texts(inn),
        out_neighbor_ids: texts(out),
    }
}

fn sink() -> JjRepositorySink {
    JjRepositorySink::new("/srv/blog", "main", "origin", "microblog", PathFacts { exists: true, is_dir: true })
        .unwrap()
}

fn two_items() -> Batch {
    let mut batch = Batch::new();
    batch.insert(item("a", "Alpha note", &[], &["b"]));
    batch.insert(item("b", "Beta note", &["a"], &[]));
    batch
}

fn command(args: &[&str]) -> PublishStep {
    PublishStep::Command(texts(args))
}

#[test]
fn sink_keeps_its_configuration() {
    let sink = sink();
    assert_eq!(sink.repo_path(), "/srv/blog");
    assert_eq!(sink.bookmark_name(), "main");
    assert_eq!(sink.remote_name(), "origin");
    assert_eq!(sink.folder_path(), "microblog");
    assert_eq!(sink.name(), "jj");
    assert!(!sink.name().contains(' '));
}

#[test]
fn sink_wants_an_existing_directory() {
    let missing = JjRepositorySink::new("/nowhere", "main", "origin", "m", PathFacts { exists: false, is_dir: false });
    assert_eq!(
        missing,
        Err(SinkError::Config("Repository path does not exist: /nowhere".to_string()))
    );
    let also_missing = JjRepositorySink::new("/nowhere", "main", "origin", "m", PathFacts { exists: false, is_dir: true });
    assert_eq!(
        also_missing,
        Err(SinkError::Config("Repository path does not exist: /nowhere".to_string()))
    );
    let file = JjRepositorySink::new("/etc/hosts", "main", "origin", "m", PathFacts { exists: true, is_dir: false });
    assert_eq!(
        file,
        Err(SinkError::Config("Repository path is not a directory: /etc/hosts".to_string()))
    );
}

#[test]
fn commit_message_of_a_single_item_names_slug_and_preview() {
    let mut batch = Batch::new();
    batch.insert(item("n1", "Hello, World!", &[], &[]));
    let slugs = JjRepositorySink::generate_slugs(&batch);
    assert_eq!(
        JjRepositorySink::commit_message(&batch, &slugs),
        "Adding microblog \"hello-world\"\n\nHello, World!"
    );
}

#[test]
fn commit_message_of_several_items_counts_them() {
    let batch = two_items();
    let slugs = JjRepositorySink::generate_slugs(&batch);
    assert_eq!(JjRepositorySink::commit_message(&batch, &slugs), "Update microblogs (2 posts)");
    let empty = Batch::new();
    assert_eq!(JjRepositorySink::commit_message(&empty, &Vec::new()), "Update microblogs (0 posts)");
    let mut twelve = Batch::new();
    for i in 0..12 {
        twelve.insert(item(&format!("n{}", i), "t", &[], &[]));
    }
    let slugs = JjRepositorySink::generate_slugs(&twelve);
    assert_eq!(JjRepositorySink::commit_message(&twelve, &slugs), "Update microblogs (12 posts)");
}

#[test]
fn preview_holds_at_most_fifty_characters_of_text() {
    let exactly: String = "x".repeat(50);
    assert_eq!(JjRepositorySink::preview(&exactly), exactly);
    let longer: String = "y".repeat(51);
    assert_eq!(JjRepositorySink::preview(&longer), "y".repeat(50));
    assert_eq!(JjRepositorySink::preview("short"), "short");
    assert_eq!(JjRepositorySink::preview(""), "");
    let accents: String = "é".repeat(50);
    assert_eq!(JjRepositorySink::preview(&accents), accents);
    let many: String = "é".repeat(60);
    assert_eq!(JjRepositorySink::preview(&many), "é".repeat(50));
    assert_eq!(JjRepositorySink::preview(&many).chars().count(), 50);
}

#[test]
fn steps_come_in_the_order_of_the_protocol() {
    let sink = sink();
    let batch = two_items();
    let mut run = sink.begin(&batch, false);
    let mut stages = Vec::new();
    let mut steps = Vec::new();
    loop {
        match sink.step_on(&run, &batch, "2024-02-03") {
            Some(step) => {
                stages.push(run.stage());
                run.record(&batch, &step, StepReport::Succeeded);
                steps.push(step);
            }
            None => break,
        }
    }
    assert_eq!(
        stages,
        vec![
            Stage::Fetch,
            Stage::NewChange,
            Stage::WriteFile(0),
            Stage::WriteFile(1),
            Stage::MoveBookmark,
            Stage::Push
        ]
    );
    assert_eq!(run.stage(), Stage::Finished);
    assert_eq!(
        steps,
        vec![
            command(&["git", "fetch"]),
            command(&["new", "--insert-after", "main", "-m", "Update microblogs (2 posts)"]),
            PublishStep::WriteFile {
                filename: "alpha-note-a.md".to_string(),
                contents: "---\ntitle: \"Alpha note\"\ndate: 2024-02-03\nfurther_thinking:\n  - link_text: \"Beta note\"\n    href: \"/t/beta-note-b.md\"\n---\n\nAlpha note".to_string(),
            },
            PublishStep::WriteFile {
                filename: "beta-note-b.md".to_string(),
                contents: "---\ntitle: \"Beta note\"\ndate: 2024-02-03\ncontext_for_this:\n  - link_text: \"Alpha note\"\n    href: \"/t/alpha-note-a.md\"\n---\n\nBeta note".to_string(),
            },
            command(&["bookmark", "move", "main"]),
            command(&["git", "push", "--remote", "origin", "--bookmark", "main"]),
        ]
    );
    assert_eq!(sink.directive(&run, &batch), Directive::Finish(Ok(())));
}

#[test]
fn empty_batch_needs_no_step() {
    let sink = sink();
    let batch = Batch::new();
    let run = sink.begin(&batch, false);
    assert_eq!(run.stage(), Stage::Finished);
    assert_eq!(sink.step_on(&run, &batch, "2024-02-03"), None);
    assert_eq!(sink.directive(&run, &batch), Directive::Finish(Ok(())));
}

#[test]
fn failed_push_ends_the_run_with_a_command_failure() {
    let sink = sink();
    let batch = two_items();
    let mut run = sink.begin(&batch, false);
    let mut performed = 0;
    loop {
        match sink.directive(&run, &batch) {
            Directive::Perform(step) => {
                let report = if run.stage() == Stage::Push {
                    StepReport::Failed("remote rejected".to_string())
                } else {
                    StepReport::Succeeded
                };
                run.record(&batch, &step, report);
                performed += 1;
            }
            Directive::Announce(_) => panic!("nothing is announced outside a dry run"),
            Directive::Finish(outcome) => {
                assert_eq!(
                    outcome,
                    Err(SinkError::CommandFailed(
                        "jj git push --remote origin --bookmark main failed: remote rejected".to_string()
                    ))
                );
                break;
            }
        }
    }
    assert_eq!(performed, 6);
    assert_eq!(run.stage(), Stage::Finished);
}

#[test]
fn failure_stops_the_remaining_steps() {
    let sink = sink();
    let batch = two_items();
    let mut run = sink.begin(&batch, false);
    let fetch = sink.step_on(&run, &batch, "2024-02-03").unwrap();
    run.record(&batch, &fetch, StepReport::NotStarted("No such file or directory".to_string()));
    assert_eq!(run.stage(), Stage::Finished);
    assert_eq!(sink.step_on(&run, &batch, "2024-02-03"), None);
    assert_eq!(
        sink.directive(&run, &batch),
        Directive::Finish(Err(SinkError::CommandFailed(
            "Failed to execute jj: No such file or directory".to_string()
        )))
    );
    run.record(&batch, &fetch, StepReport::Succeeded);
    assert_eq!(run.stage(), Stage::Finished);
    assert!(matches!(sink.directive(&run, &batch), Directive::Finish(Err(_))));
}

#[test]
fn unwritten_file_ends_the_run_with_an_io_error() {
    let sink = sink();
    let batch = two_items();
    let mut run = sink.begin(&batch, false);
    for _ in 0..2 {
        let step = sink.step_on(&run, &batch, "2024-02-03").unwrap();
        run.record(&batch, &step, StepReport::Succeeded);
    }
    assert_eq!(run.stage(), Stage::WriteFile(0));
    let write = sink.step_on(&run, &batch, "2024-02-03").unwrap();
    run.record(&batch, &write, StepReport::NotWritten("permission denied".to_string()));
    assert_eq!(
        sink.directive(&run, &batch),
        Directive::Finish(Err(SinkError::Io("permission denied".to_string())))
    );
}

#[test]
fn dry_run_announces_every_step_and_ends_well() {
    let sink = sink();
    let batch = two_items();
    let mut run = sink.begin(&batch, true);
    let mut announced = 0;
    loop {
        match sink.directive(&run, &batch) {
            Directive::Announce(step) => {
                run.record(&batch, &step, StepReport::Succeeded);
                announced += 1;
            }
            Directive::Perform(_) => panic!("a dry run performs nothing"),
            Directive::Finish(outcome) => {
                assert_eq!(outcome, Ok(()));
                break;
            }
        }
    }
    assert_eq!(announced, 6);
}

#[test]
fn dry_run_counts_every_report_as_success() {
    let sink = sink();
    let batch = two_items();
    let mut run = sink.begin(&batch, true);
    let fetch = sink.step_on(&run, &batch, "2024-02-03").unwrap();
    run.record(&batch, &fetch, StepReport::Failed("not attempted".to_string()));
    assert_eq!(run.stage(), Stage::NewChange);
    assert!(matches!(sink.directive(&run, &batch), Directive::Announce(_)));
}

#[test]
fn run_takes_only_reports_that_fit_the_step() {
    let sink = sink();
    let batch = two_items();
    let mut run = sink.begin(&batch, false);
    let fetch = sink.step_on(&run, &batch, "2024-02-03").unwrap();
    assert!(run.accepts(&fetch, &StepReport::Succeeded));
    assert!(run.accepts(&fetch, &StepReport::Failed("x".to_string())));
    assert!(run.accepts(&fetch, &StepReport::NotStarted("x".to_string())));
    assert!(!run.accepts(&fetch, &StepReport::NotWritten("x".to_string())));
    run.record(&batch, &fetch, StepReport::Succeeded);
    let new_change = sink.step_on(&run, &batch, "2024-02-03").unwrap();
    run.record(&batch, &new_change, StepReport::Succeeded);
    let write = sink.step_on(&run, &batch, "2024-02-03").unwrap();
    assert!(run.accepts(&write, &StepReport::Succeeded));
    assert!(run.accepts(&write, &StepReport::NotWritten("x".to_string())));
    assert!(!run.accepts(&write, &StepReport::Failed("x".to_string())));
    assert!(!run.accepts(&write, &StepReport::NotStarted("x".to_string())));
    assert!(!run.accepts(&fetch, &StepReport::Succeeded));
    run.record(&batch, &write, StepReport::NotWritten("x".to_string()));
    assert!(run.accepts(&fetch, &StepReport::NotWritten("x".to_string())));
}

#[test]
fn single_item_run_names_the_item_in_the_change() {
    let sink = sink();
    let mut batch = Batch::new();
    batch.insert(item("n1", "A note that is rather long, longer than fifty characters in all", &[], &[]));
    let mut run = sink.begin(&batch, false);
    let fetch = sink.step_on(&run, &batch, "2024-02-03").unwrap();
    run.record(&batch, &fetch, StepReport::Succeeded);
    assert_eq!(
        sink.step_on(&run, &batch, "2024-02-03"),
        Some(command(&[
            "new",
            "--insert-after",
            "main",
            "-m",
            "Adding microblog \"a-note-that-is-rather-long-longer-than\"\n\nA note that is rather long, longer than fifty char",
        ]))
    );
}

#[test]
fn publish_carries_out_every_step_in_order() {
    let sink = sink();
    let batch = two_items();
    let log: RefCell<Vec<String>> = RefCell::new(Vec::new());
    let files: RefCell<Vec<(String, String)>> = RefCell::new(Vec::new());
    let outcome = sink.publish(
        &batch,
        false,
        |args: &Vec<String>| {
            log.borrow_mut().push(format!("jj {}", args.join(" ")));
            CommandReport::Succeeded
        },
        |filename: &String, contents: &String| {
            log.borrow_mut().push(format!("write {}", filename));
            files.borrow_mut().push((filename.clone(), contents.clone()));
            WriteReport::Written
        },
        |_step: &PublishStep| panic!("nothing is announced outside a dry run"),
    );
    assert_eq!(outcome, Ok(()));
    assert_eq!(
        log.into_inner(),
        vec![
            "jj git fetch".to_string(),
            "jj new --insert-after main -m Update microblogs (2 posts)".to_string(),
            "write alpha-note-a.md".to_string(),
            "write beta-note-b.md".to_string(),
            "jj bookmark move main".to_string(),
            "jj git push --remote origin --bookmark main".to_string(),
        ]
    );
    let files = files.into_inner();
    assert!(files[0].1.contains(
        "\nfurther_thinking:\n  - link_text: \"Beta note\"\n    href: \"/t/beta-note-b.md\"\n---\n"
    ));
    assert!(!files[0].1.contains("context_for_this"));
    assert!(files[1].1.contains(
        "\ncontext_for_this:\n  - link_text: \"Alpha note\"\n    href: \"/t/alpha-note-a.md\"\n---\n"
    ));
    assert!(!files[1].1.contains("further_thinking"));
}

#[test]
fn publish_stops_at_the_first_failure() {
    let sink = sink();
    let batch = two_items();
    let commands = RefCell::new(0);
    let writes = RefCell::new(0);
    let outcome = sink.publish(
        &batch,
        false,
        |args: &Vec<String>| {
            *commands.borrow_mut() += 1;
            if args[0] == "git" && args[1] == "push" {
                CommandReport::Failed("remote rejected".to_string())
            } else {
                CommandReport::Succeeded
            }
        },
        |_filename: &String, _contents: &String| {
            *writes.borrow_mut() += 1;
            WriteReport::Written
        },
        |_step: &PublishStep| (),
    );
    assert_eq!(
        outcome,
        Err(SinkError::CommandFailed(
            "jj git push --remote origin --bookmark main failed: remote rejected".to_string()
        ))
    );
    assert_eq!(commands.into_inner(), 4);
    assert_eq!(writes.into_inner(), 2);

    let attempts = RefCell::new(0);
    let early = sink.publish(
        &batch,
        false,
        |_args: &Vec<String>| {
            *attempts.borrow_mut() += 1;
            CommandReport::NotStarted("No such file or directory".to_string())
        },
        |_filename: &String, _contents: &String| panic!("no file is written after a failure"),
        |_step: &PublishStep| (),
    );
    assert_eq!(
        early,
        Err(SinkError::CommandFailed("Failed to execute jj: No such file or directory".to_string()))
    );
    assert_eq!(attempts.into_inner(), 1);

    let unwritten = sink.publish(
        &batch,
        false,
        |_args: &Vec<String>| CommandReport::Succeeded,
        |_filename: &String, _contents: &String| WriteReport::NotWritten("disk full".to_string()),
        |_step: &PublishStep| (),
    );
    assert_eq!(unwritten, Err(SinkError::Io("disk full".to_string())));
}

#[test]
fn publish_in_a_dry_run_only_announces() {
    let sink = sink();
    let batch = two_items();
    let announced = RefCell::new(Vec::new());
    let outcome = sink.publish(
        &batch,
        true,
        |_args: &Vec<String>| panic!("a dry run runs no command"),
        |_filename: &String, _contents: &String| panic!("a dry run writes no file"),
        |step: &PublishStep| {
            announced.borrow_mut().push(matches!(step, PublishStep::WriteFile { .. }));
        },
    );
    assert_eq!(outcome, Ok(()));
    assert_eq!(announced.into_inner(), vec![false, false, true, true, false, false]);
}

#[test]
fn publish_of_nothing_does_nothing() {
    let sink = sink();
    let outcome = sink.publish(
        &Batch::new(),
        false,
        |_args: &Vec<String>| panic!("an empty batch runs no command"),
        |_filename: &String, _contents: &String| panic!("an empty batch writes no file"),
        |_step: &PublishStep| panic!("an empty batch announces nothing"),
    );
    assert_eq!(outcome, Ok(()));
}
