use mor_rust_code_gui_manager::quest_log::{
    parse_mor_plan_text, parse_task_line, plan_path, resolve_workspace_root, workspace_root_for, strip_ordered_prefix, Chapter, Task,
};

fn task(d: &str, done: bool) -> Task {
    Task { description: d.to_string(), is_completed: done }
}

#[test]
fn ordered_prefixes() {
    assert_eq!(strip_ordered_prefix("1. Finish"), "Finish");
    assert_eq!(strip_ordered_prefix("12.   Two"), "Two");
    assert_eq!(strip_ordered_prefix("v1.2 release"), "v1.2 release");
    assert_eq!(strip_ordered_prefix("no dot"), "no dot");
    assert_eq!(strip_ordered_prefix(". leading"), ". leading");
    assert_eq!(strip_ordered_prefix("..."), "...");
}

#[test]
fn task_lines() {
    assert_eq!(parse_task_line("- [ ] write tests"), Some(task("write tests", false)));
    assert_eq!(parse_task_line("- [x] done"), Some(task("done", true)));
    assert_eq!(parse_task_line("- [X] DONE "), Some(task("DONE", true)));
    assert_eq!(parse_task_line("[ ] bare"), Some(task("bare", false)));
    assert_eq!(parse_task_line("[x] bare done"), Some(task("bare done", true)));
    assert_eq!(parse_task_line("3. - [x] numbered box"), Some(task("numbered box", true)));
    assert_eq!(parse_task_line("1. Finish Heatmap cleanup"), Some(task("Finish Heatmap cleanup", false)));
    assert_eq!(parse_task_line("plain text"), None);
    assert_eq!(parse_task_line("1."), None);
    assert_eq!(parse_task_line(""), None);
}

#[test]
fn plan_chapters() {
    let plan = "# Phase 1\n- [x] scaffold\n- [ ] watcher\n\n#### detail\n- [ ] deep\n## Phase 2\r\n1. heatmap\ntext\n";
    let chapters = parse_mor_plan_text(plan);
    assert_eq!(
        chapters,
        vec![
            Chapter {
                title: "Phase 1".into(),
                tasks: vec![task("scaffold", true), task("watcher", false), task("deep", false)],
            },
            Chapter { title: "Phase 2".into(), tasks: vec![task("heatmap", false)] },
        ]
    );
}

#[test]
fn tasks_before_any_heading() {
    let chapters = parse_mor_plan_text("[ ] first\n### Later\n");
    assert_eq!(
        chapters,
        vec![
            Chapter { title: "Tasks".into(), tasks: vec![task("first", false)] },
            Chapter { title: "Later".into(), tasks: vec![] },
        ]
    );
    assert!(parse_mor_plan_text("").is_empty());
    assert!(parse_mor_plan_text("just prose\n").is_empty());
}

#[test]
fn plan_file_location() {
    assert_eq!(plan_path("/home/me/proj"), "/home/me/proj/MOR_PLAN.md");
    assert_eq!(plan_path("proj/"), "proj/MOR_PLAN.md");
}

#[test]
fn workspace_roots() {
    assert_eq!(workspace_root_for("/proj/MOR_PLAN.md", true), "/proj");
    assert_eq!(workspace_root_for("notes.md", true), "");
    assert_eq!(workspace_root_for("/", true), ".");
    assert_eq!(workspace_root_for("/proj", false), "/proj");
    let missing = "/definitely/not/a/real/folder/for/this/test";
    assert_eq!(resolve_workspace_root(missing), missing);
}

#[test]
fn dots_alone_are_no_task() {
    assert_eq!(parse_task_line("..."), None);
    assert_eq!(parse_task_line(". note"), None);
    assert_eq!(parse_task_line("3. Write docs"), Some(task("Write docs", false)));
    assert_eq!(parse_task_line("3. [x] Done"), Some(task("Done", true)));
}
