use rush::colors::{styled, Style, ANSI_BOLD, ANSI_COLOR_CYAN, GREEN, RED, RESET};
use rush::executor::{
    change_dir_report, decimal, launch_verdict, missing_directory_report, wait_report,
    Disposition, Notice, Report, SignalPolicy, Spawned, Verdict,
};
use rush::line::{ends_in_marker, feed, ReadStep};
use rush::prompt::generate_prompt;

#[test]
fn failed_launch_is_a_failure() {
    for background in [true, false] {
        assert_eq!(
            launch_verdict(Spawned::Failed, background),
            Verdict::Done {
                report: Report {
                    success: false,
                    notice: Some(Notice {
                        style: Style::Error,
                        text: "Command not found!".to_string()
                    })
                }
            }
        );
    }
}

#[test]
fn background_launch_succeeds_at_once() {
    assert_eq!(
        launch_verdict(Spawned::Started { pid: 4242 }, true),
        Verdict::Done {
            report: Report {
                success: true,
                notice: Some(Notice { style: Style::Success, text: "4242 started!".to_string() })
            }
        }
    );
}

#[test]
fn foreground_launch_is_waited_for() {
    assert_eq!(launch_verdict(Spawned::Started { pid: 7 }, false), Verdict::Wait);
}

#[test]
fn wait_report_goes_by_exit_code() {
    assert_eq!(wait_report(Some(0)), Report { success: true, notice: None });
    assert_eq!(wait_report(Some(1)), Report { success: false, notice: None });
    assert_eq!(wait_report(Some(-1)), Report { success: false, notice: None });
    assert_eq!(wait_report(Some(127)), Report { success: false, notice: None });
    assert_eq!(wait_report(None), Report { success: false, notice: None });
}

#[test]
fn change_dir_report_success() {
    assert_eq!(change_dir_report(None), Report { success: true, notice: None });
}

#[test]
fn change_dir_report_failure_carries_system_text() {
    assert_eq!(
        change_dir_report(Some("No such file or directory (os error 2)")),
        Report {
            success: false,
            notice: Some(Notice {
                style: Style::Error,
                text: "Failed to change the dirctory!\nNo such file or directory (os error 2)"
                    .to_string()
            })
        }
    );
}

#[test]
fn missing_directory_is_a_failure() {
    assert_eq!(
        missing_directory_report(),
        Report {
            success: false,
            notice: Some(Notice {
                style: Style::Error,
                text: "Failed to change the dirctory!\nno directory given".to_string()
            })
        }
    );
}

#[test]
fn decimal_matches_std() {
    for n in [0u32, 1, 9, 10, 11, 99, 100, 101, 4242, 65535, 1_000_000, 4_294_967_295] {
        assert_eq!(decimal(n), n.to_string());
    }
}

#[test]
fn signal_policies() {
    assert_eq!(
        SignalPolicy::shell(),
        SignalPolicy { interrupt: Disposition::Ignore, quit: Disposition::Ignore }
    );
    assert_eq!(
        SignalPolicy::child(),
        SignalPolicy { interrupt: Disposition::Default, quit: Disposition::Default }
    );
}

#[test]
fn styled_wraps_text() {
    assert_eq!(styled(Style::Success, "ok"), "\x1b[1m\x1b[32mok\x1b[0m");
    assert_eq!(styled(Style::Error, "bad"), "\x1b[1m\x1b[31mbad\x1b[0m");
    assert_eq!(styled(Style::Error, ""), "\x1b[1m\x1b[31m\x1b[0m");
}

#[test]
fn notice_renders_in_its_style() {
    let notice = Notice { style: Style::Success, text: "12 started!".to_string() };
    assert_eq!(notice.render(), format!("{}{}12 started!{}", ANSI_BOLD, GREEN, RESET));
    let notice = Notice { style: Style::Error, text: "Command not found!".to_string() };
    assert_eq!(notice.render(), format!("{}{}Command not found!{}", ANSI_BOLD, RED, RESET));
}

#[test]
fn prompt_after_success() {
    assert_eq!(
        generate_prompt("/home/user", true),
        "\x1b[1mRUSHING IN \x1b[36m/home/user\x1b[0m\n\x1b[1m\x1b[32m\u{2ba1}\x1b[0m "
    );
}

#[test]
fn prompt_after_failure() {
    assert_eq!(
        generate_prompt("/", false),
        format!(
            "{}RUSHING IN {}{}{}\n{}{}\u{2ba1}{} ",
            ANSI_BOLD, ANSI_COLOR_CYAN, "/", RESET, ANSI_BOLD, RED, RESET
        )
    );
}

#[test]
fn marker_is_seen_only_at_the_end() {
    assert!(ends_in_marker("echo a \\"));
    assert!(ends_in_marker("\\"));
    assert!(!ends_in_marker(""));
    assert!(!ends_in_marker("echo \\ a"));
    assert!(!ends_in_marker("echo a\\ "));
}

#[test]
fn line_without_marker_is_complete() {
    assert_eq!(feed("", "echo a"), ReadStep::Complete { line: "echo a".to_string() });
    assert_eq!(feed("", ""), ReadStep::Complete { line: String::new() });
}

#[test]
fn line_with_marker_is_joined_with_the_next() {
    let step = feed("", "echo a \\");
    assert_eq!(step, ReadStep::More { partial: "echo a ".to_string() });
    assert_eq!(feed("echo a ", "b"), ReadStep::Complete { line: "echo a b".to_string() });
}

#[test]
fn joining_repeats() {
    let reads = ["echo \\", "a \\", "b \\", "c", "never read"];
    let mut partial = String::new();
    let mut used = 0;
    let line = loop {
        let step = feed(&partial, reads[used]);
        used += 1;
        match step {
            ReadStep::More { partial: p } => partial = p,
            ReadStep::Complete { line } => break line,
        }
    };
    assert_eq!(line, "echo a b c");
    assert_eq!(used, 4);
}

#[test]
fn marker_uncovered_by_an_empty_line_counts() {
    assert_eq!(feed("", "a\\\\"), ReadStep::More { partial: "a\\".to_string() });
    assert_eq!(feed("a\\", ""), ReadStep::More { partial: "a".to_string() });
    assert_eq!(feed("a", ""), ReadStep::Complete { line: "a".to_string() });
}
