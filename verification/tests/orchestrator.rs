use syndicate_json_canvas::orchestrator::{
    check_canvas_path, react, validate_canvas_path, Reaction, Trigger,
};

#[test]
fn path_has_to_name_a_file() {
    assert_eq!(validate_canvas_path("notes.canvas", false), Err("Provided path must be a file"));
    assert_eq!(validate_canvas_path("notes.txt", false), Err("Provided path must be a file"));
    assert_eq!(check_canvas_path(false, &Some("canvas".to_string())), Err("Provided path must be a file"));
}

#[test]
fn path_has_to_end_in_canvas() {
    assert_eq!(validate_canvas_path("notes.canvas", true), Ok(()));
    assert_eq!(validate_canvas_path("dir/sub.d/notes.canvas", true), Ok(()));
    assert_eq!(validate_canvas_path("notes.txt", true), Err("Expect the extension to be .canvas"));
    assert_eq!(validate_canvas_path("notes", true), Err("Expect the extension to be .canvas"));
    assert_eq!(validate_canvas_path(".canvas", true), Err("Expect the extension to be .canvas"));
    assert_eq!(validate_canvas_path("notes.Canvas", true), Err("Expect the extension to be .canvas"));
    assert_eq!(validate_canvas_path("dir.canvas/notes", true), Err("Expect the extension to be .canvas"));
    assert_eq!(validate_canvas_path("a.b.canvas", true), Ok(()));
}

#[test]
fn verdict_follows_the_extension() {
    assert_eq!(check_canvas_path(true, &Some("canvas".to_string())), Ok(()));
    assert_eq!(check_canvas_path(true, &Some("json".to_string())), Err("Expect the extension to be .canvas"));
    assert_eq!(check_canvas_path(true, &Some(String::new())), Err("Expect the extension to be .canvas"));
    assert_eq!(check_canvas_path(true, &None), Err("Expect the extension to be .canvas"));
}

#[test]
fn loop_runs_a_cycle_at_startup_and_after_each_settled_change() {
    assert_eq!(react(Trigger::Startup), Reaction::RunCycle);
    assert_eq!(react(Trigger::Changed), Reaction::RunCycle);
    assert_eq!(react(Trigger::StillChanging), Reaction::Wait);
    assert_eq!(react(Trigger::WatchError), Reaction::LogError);
}
