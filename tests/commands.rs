use paperd::stop::{stop_step, Probe, StopAction, STOP_POLLS};
use paperd::console::is_whitespace_char;
use paperd::runner::eula_line_agrees;
use paperd::console::{players_text, status_name_column, status_poll_step, PollStep};
use paperd::util::{failure, ExitError, ExitValue, Failure};
use paperd::daemon::Status;
use paperd::cmd::run_after_text;
use paperd::runner::{
    default_heap, default_heap_mb, eula_agreed_by_args, heap_arg_valid, jvm_args, runner_exit_code,
    should_restart, RESTART_EXIT_CODE, STOP_EXIT_CODE,
};
use paperd::status::{format_time, print_players};
use paperd::timings::mc_colors;

#[test]
fn time_gets_a_colon_in_the_middle() {
    assert_eq!(format_time("0630"), "06:30");
    assert_eq!(format_time("12345"), "12:345");
    assert_eq!(format_time(""), ":");
}

#[test]
fn players_wrap_at_the_width() {
    let players: Vec<String> = vec!["Alice".into(), "Bob".into(), "Carol".into()];
    let lines = print_players(&players, "  Players", 26);
    assert_eq!(
        lines,
        vec!["  Players | (3) Alice, ".to_string(), "          | Bob, Carol".to_string()]
    );
    let none = print_players(&Vec::new(), "P", 60);
    assert_eq!(none, vec!["P | (0) ".to_string()]);
}

#[test]
fn timings_without_colors() {
    assert_eq!(mc_colors("§aHello §lWorld§"), "Hello World");
    assert_eq!(mc_colors("plain"), "plain");
}

#[test]
fn heap_arguments() {
    assert!(heap_arg_valid("500m"));
    assert!(heap_arg_valid("10G"));
    assert!(heap_arg_valid("1024"));
    assert!(!heap_arg_valid(""));
    assert!(!heap_arg_valid("lots"));
    assert_eq!(default_heap(), "500m");
    assert_eq!(default_heap_mb(8_000_000, 6_000_000), 4000);
    assert_eq!(default_heap_mb(1, 100_000_000), 10000);
}

#[test]
fn default_jvm_flags() {
    let args = jvm_args("2G");
    assert_eq!(args.len(), 13);
    assert_eq!(args[0], "-Xms2G");
    assert_eq!(args[1], "-Xmx2G");
    assert_eq!(args[12], "-Dusing.aikars.flags=mcflags.emc.gs");
}

#[test]
fn eula_by_argument() {
    assert!(eula_agreed_by_args(&vec!["-Xmx1G".into(), "-Dcom.mojang.eula.agree=TRUE".into()]));
    assert!(!eula_agreed_by_args(&vec!["-Dcom.mojang.eula.agree=false".into()]));
    assert!(!eula_agreed_by_args(&Vec::new()));
}

#[test]
fn restart_rules() {
    assert!(should_restart(RESTART_EXIT_CODE, false));
    assert!(!should_restart(0, false));
    assert!(should_restart(1, true));
    assert!(!should_restart(STOP_EXIT_CODE, true));
    assert_eq!(runner_exit_code(STOP_EXIT_CODE), 0);
    assert_eq!(runner_exit_code(3), 3);
}

#[test]
fn help_text_names_the_command() {
    let t = run_after_text("start");
    assert!(t.contains("$ paperd start -d 10G"));
    assert!(t.contains("$ paperd start -- -Xmx5G -Xms5G"));
    assert!(t.starts_with("EXAMPLES:"));
    assert!(t.ends_with("}"));
}

#[test]
fn eula_file_lines() {
    assert!(eula_line_agrees("eula=true"));
    assert!(eula_line_agrees("  eula=true \t"));
    assert!(eula_line_agrees("\u{3000}eula=true\n"));
    assert!(!eula_line_agrees("eula=false"));
    assert!(!eula_line_agrees("#eula=true"));
    assert!(!eula_line_agrees(""));
}

#[test]
fn status_bar_pieces() {
    assert_eq!(players_text(2, 20), "2 / 20");
    assert_eq!(players_text(-1, 0), "-1 / 0");
    assert_eq!(status_name_column(80, 6, 6, 9), 52);
    assert_eq!(status_poll_step(true, false), PollStep::Update);
    assert_eq!(status_poll_step(false, false), PollStep::Retry);
    assert_eq!(status_poll_step(true, true), PollStep::Stop);
}

#[test]
fn failures_convert_to_exit_values() {
    let ok: Result<i32, Failure> = Ok(3);
    assert_eq!(ok.conv(), Ok(3));
    let bad: Result<i32, Failure> = Err(failure("nope"));
    assert_eq!(bad.conv(), Err(ExitValue::Code(1)));
}

#[test]
fn daemon_status_values() {
    assert_ne!(Status::CONTINUE, Status::QUIT(4));
    assert_eq!(Status::QUIT(4), Status::QUIT(4));
}

#[test]
fn stop_waits_then_decides() {
    assert_eq!(stop_step(0, Probe::Alive, false), StopAction::Wait);
    assert_eq!(stop_step(STOP_POLLS - 1, Probe::Alive, true), StopAction::Wait);
    assert_eq!(stop_step(STOP_POLLS, Probe::Alive, false), StopAction::NotExited);
    assert_eq!(stop_step(STOP_POLLS, Probe::Alive, true), StopAction::ForceKill);
    assert_eq!(stop_step(3, Probe::Gone, false), StopAction::Exited);
    assert_eq!(stop_step(3, Probe::Failed, true), StopAction::UnknownError);
}

#[test]
fn whitespace_agrees_with_std() {
    for c in (0u32..=0x10FFFF).filter_map(char::from_u32) {
        assert_eq!(is_whitespace_char(c), c.is_whitespace(), "{:?}", c);
    }
}
