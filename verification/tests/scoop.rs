use scoopgui::gui::{GuiState, UiEvent};
use scoopgui::model::DataUpdate;
use scoopgui::scoop::{format_exit_code, CommandRun, RunEnd, ScoopCommand};

fn output_of(u: &DataUpdate) -> String {
    match u {
        DataUpdate::CommandOutput(s) => s.clone(),
        other => panic!("not command output: {:?}", other),
    }
}

#[test]
fn command_line_joins_arguments() {
    let args = ScoopCommand::install_args("7zip");
    assert_eq!(ScoopCommand::command_line(&args), "scoop install 7zip");
    let args = ScoopCommand::bucket_list_args();
    assert_eq!(ScoopCommand::command_line(&args), "scoop bucket list");
    assert_eq!(ScoopCommand::command_line(&Vec::new()), "scoop ");
    let args = vec!["search".to_string(), "visual studio".to_string()];
    assert_eq!(ScoopCommand::command_line(&args), format!("scoop {}", args.join(" ")));
}

#[test]
fn argument_lists() {
    assert_eq!(ScoopCommand::list_args(), vec!["list"]);
    assert_eq!(ScoopCommand::search_args("git"), vec!["search", "git"]);
    assert_eq!(ScoopCommand::bucket_list_args(), vec!["bucket", "list"]);
    assert_eq!(ScoopCommand::install_args("git"), vec!["install", "git"]);
    assert_eq!(ScoopCommand::uninstall_args("git"), vec!["uninstall", "git"]);
    assert_eq!(ScoopCommand::update_args("git"), vec!["update", "git"]);
    assert_eq!(ScoopCommand::add_bucket_args("extras"), vec!["bucket", "add", "extras"]);
    assert_eq!(ScoopCommand::remove_bucket_args("extras"), vec!["bucket", "rm", "extras"]);
}

#[test]
fn exit_code_formats_like_debug() {
    for code in [None, Some(0), Some(1), Some(9), Some(10), Some(-1), Some(255), Some(-1073741510), Some(i32::MAX), Some(i32::MIN)] {
        assert_eq!(format_exit_code(code), format!("{:?}", code));
    }
}

#[test]
fn run_collects_stdout_and_succeeds() {
    let mut run = CommandRun::new();
    let first = run.on_stdout_line("Name Version".to_string());
    assert_eq!(output_of(&first), "Name Version");
    run.on_stdout_line("".to_string());
    run.on_stdout_line("git 2.41.0".to_string());
    let (msg, result) = run.finish(true, Some(0));
    assert_eq!(output_of(&msg), "命令执行成功");
    assert_eq!(result, Ok("Name Version\n\ngit 2.41.0\n".to_string()));
}

#[test]
fn run_failure_names_the_exit_code() {
    let mut run = CommandRun::new();
    run.on_stdout_line("partial".to_string());
    let (msg, result) = run.finish(false, Some(2));
    assert_eq!(output_of(&msg), "命令执行失败，退出码: Some(2)");
    assert_eq!(result, Err("命令执行失败，退出码: Some(2)".to_string()));
    let (_, result) = CommandRun::new().finish(false, None);
    assert_eq!(result, Err("命令执行失败，退出码: None".to_string()));
}

#[test]
fn run_messages() {
    assert_eq!(output_of(&ScoopCommand::announce("scoop list")), "> scoop list");
    assert_eq!(output_of(&ScoopCommand::stderr_message("oops")), "ERR: oops");
}

#[test]
fn run_ends() {
    let (shown, result) = ScoopCommand::conclude(RunEnd::SpawnFailed("program not found".to_string()));
    assert!(shown.is_none());
    assert_eq!(result, Err("program not found".to_string()));
    let (shown, result) = ScoopCommand::conclude(RunEnd::WaitFailed("interrupted".to_string()));
    assert!(shown.is_none());
    assert_eq!(result, Err("interrupted".to_string()));
    let (shown, result) = ScoopCommand::conclude(RunEnd::StdoutJoinFailed("task panicked".to_string()));
    assert_eq!(output_of(&shown.unwrap()), "ERR: stdout task join failed: task panicked");
    assert_eq!(result, Err("stdout task join failed: task panicked".to_string()));
    let (shown, result) = ScoopCommand::conclude(RunEnd::StderrJoinFailed("cancelled".to_string()));
    assert_eq!(output_of(&shown.unwrap()), "ERR: stderr task join failed: cancelled");
    assert_eq!(result, Err("stderr task join failed: cancelled".to_string()));
    let mut run = CommandRun::new();
    run.on_stdout_line("x".to_string());
    let (shown, result) = ScoopCommand::conclude(RunEnd::Exited { run, success: true, code: Some(0) });
    assert_eq!(output_of(&shown.unwrap()), "命令执行成功");
    assert_eq!(result, Ok("x\n".to_string()));
    let (shown, result) =
        ScoopCommand::conclude(RunEnd::Exited { run: CommandRun::new(), success: false, code: Some(3) });
    assert_eq!(output_of(&shown.unwrap()), "命令执行失败，退出码: Some(3)");
    assert_eq!(result, Err("命令执行失败，退出码: Some(3)".to_string()));
}

#[test]
fn collected_output_reads_back_as_the_lines() {
    let received = ["Installed apps:", "", "Name Version Source", "---- ------- ------", "git 2.41.0 main"];
    let mut run = CommandRun::new();
    for l in received {
        run.on_stdout_line(l.to_string());
    }
    let (_, result) = run.finish(true, Some(0));
    let out = result.unwrap();
    let back: Vec<&str> = out.lines().collect();
    assert_eq!(back, received.to_vec());
    let ps = ScoopCommand::parse_installed(&out);
    assert_eq!(ps.len(), 1);
    assert_eq!(ps[0].name, "git");
}

#[test]
fn output_pane_shows_what_the_run_collected() {
    let mut gui = GuiState::new();
    let mut run = CommandRun::new();
    for l in ["a", "b c", ""] {
        let u = run.on_stdout_line(l.to_string());
        gui.apply(u);
    }
    let (_, result) = run.finish(true, None);
    assert_eq!(gui.command_output, result.unwrap());
    assert_eq!(gui.status_message, "就绪");
    // A toolbar event does not touch the pane.
    gui.handle(UiEvent::CheckUpdates);
    assert_eq!(gui.command_output, "a\nb c\n\n");
}
