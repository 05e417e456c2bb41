//! What the executor decides: how a launch, a wait and a change of directory
//! are reported, and how signals are disposed of.
//!
//! Launching and waiting are done by the program that uses this library. It
//! hands in what came of them as plain values and gets back whether the
//! command counts as a success and what is to be shown to the user.

use vstd::prelude::*;
use vstd::string::*;
use crate::colors::{Style, styled, styled_text};

verus! {

/// What is done with a signal.
#[derive(Debug, Clone, Copy, PartialEq, Eq)]
pub enum Disposition {
    /// The signal is ignored.
    Ignore,
    /// The platform's own handling.
    Default,
}

/// How the interactive signals are disposed of in one process.
#[derive(Debug, Clone, Copy, PartialEq, Eq)]
pub struct SignalPolicy {
    /// The interrupt signal.
    pub interrupt: Disposition,
    /// The quit signal.
    pub quit: Disposition,
}

impl SignalPolicy {
    /// The policy of the shell itself, set once when it starts: it is not to
    /// be interrupted from the keyboard.
    pub fn shell() -> (policy: SignalPolicy)
        ensures
            policy == (SignalPolicy {
                interrupt: Disposition::Ignore,
                quit: Disposition::Ignore,
            }),
    {
        SignalPolicy { interrupt: Disposition::Ignore, quit: Disposition::Ignore }
    }

    /// The policy of every child, set before the program takes its place:
    /// the program can be interrupted as usual.
    pub fn child() -> (policy: SignalPolicy)
        ensures
            policy == (SignalPolicy {
                interrupt: Disposition::Default,
                quit: Disposition::Default,
            }),
    {
        SignalPolicy { interrupt: Disposition::Default, quit: Disposition::Default }
    }
}

/// A message for the user.
#[derive(Debug, Clone, PartialEq, Eq)]
pub struct Notice {
    /// How it is shown.
    pub style: Style,
    /// What it says.
    pub text: String,
}

/// A notice as plain values.
pub ghost struct NoticeModel {
    pub style: Style,
    pub text: Seq<char>,
}

impl View for Notice {
    type V = NoticeModel;

    open spec fn view(&self) -> NoticeModel {
        NoticeModel { style: self.style, text: self.text@ }
    }
}

impl Notice {
    /// The notice as it is printed, with its escape sequences.
    pub fn render(&self) -> (out: String)
        ensures
            out@ == styled_text(self.style, self.text@),
    {
        styled(self.style, self.text.as_str())
    }
}

/// How a command ended: whether it counts as a success, and what the user is
/// told, if anything.
#[derive(Debug, Clone, PartialEq, Eq)]
pub struct Report {
    pub success: bool,
    pub notice: Option<Notice>,
}

/// A report as plain values.
pub ghost struct ReportModel {
    pub success: bool,
    pub notice: Option<NoticeModel>,
}

impl View for Report {
    type V = ReportModel;

    open spec fn view(&self) -> ReportModel {
        ReportModel {
            success: self.success,
            notice: match self.notice {
                Some(n) => Some(n@),
                None => None,
            },
        }
    }
}

/// What came of the attempt to launch a program.
#[derive(Debug, Clone, Copy, PartialEq, Eq)]
pub enum Spawned {
    /// No process was started.
    Failed,
    /// A process was started, with this identifier.
    Started { pid: u32 },
}

/// What follows a launch.
#[derive(Debug, Clone, PartialEq, Eq)]
pub enum Verdict {
    /// Wait for the child, then report with `wait_report`.
    Wait,
    /// The command is done with.
    Done { report: Report },
}

/// A verdict as plain values.
pub ghost enum VerdictModel {
    Wait,
    Done { report: ReportModel },
}

impl View for Verdict {
    type V = VerdictModel;

    open spec fn view(&self) -> VerdictModel {
        match *self {
            Verdict::Wait => VerdictModel::Wait,
            Verdict::Done { report } => VerdictModel::Done { report: report@ },
        }
    }
}

/// The ten digits, each at the index of its value.
pub open spec fn digits() -> Seq<char> {
    seq!['0', '1', '2', '3', '4', '5', '6', '7', '8', '9']
}

/// `n` in decimal notation, without leading zeros.
pub open spec fn decimal_of(n: nat) -> Seq<char>
    decreases n,
{
    if n < 10 {
        seq![digits()[n as int]]
    } else {
        decimal_of(n / 10).push(digits()[(n % 10) as int])
    }
}

/// What is said when a program could not be launched.
pub open spec fn launch_failed_text() -> Seq<char> {
    "Command not found!"@
}

/// What is said when process `pid` was started in the background.
pub open spec fn started_text(pid: u32) -> Seq<char> {
    decimal_of(pid as nat) + " started!"@
}

/// What is said when the directory could not be changed, for the reason
/// `error` that the system gave.
pub open spec fn change_failed_text(error: Seq<char>) -> Seq<char> {
    "Failed to change the dirctory!\n"@ + error
}

/// What is said when `cd` names no directory.
pub open spec fn missing_directory_text() -> Seq<char> {
    change_failed_text("no directory given"@)
}

/// A failure that is reported with `text`.
pub open spec fn failure(text: Seq<char>) -> ReportModel {
    ReportModel { success: false, notice: Some(NoticeModel { style: Style::Error, text }) }
}

/// What follows a launch: a failed launch is a failure, a background
/// process is a success at once, and a foreground process is waited for.
pub open spec fn verdict_of(spawned: Spawned, background: bool) -> VerdictModel {
    match spawned {
        Spawned::Failed => VerdictModel::Done { report: failure(launch_failed_text()) },
        Spawned::Started { pid } => if background {
            VerdictModel::Done {
                report: ReportModel {
                    success: true,
                    notice: Some(NoticeModel { style: Style::Success, text: started_text(pid) }),
                },
            }
        } else {
            VerdictModel::Wait
        },
    }
}

/// Writes `n` in decimal notation.
pub fn decimal(n: u32) -> (out: String)
    ensures
        out@ == decimal_of(n as nat),
    decreases n,
{
    let d: usize = (n % 10) as usize;
    proof {
        reveal_strlit("0123456789");
        assert("0123456789"@ =~= digits());
    }
    let last = "0123456789".substring_char(d, d + 1);
    assert(last@ =~= seq![digits()[d as int]]);
    if n < 10 {
        String::from_str(last)
    } else {
        let out = decimal(n / 10).concat(last);
        assert(out@ =~= decimal_of((n / 10) as nat).push(digits()[d as int]));
        out
    }
}

/// A failure with the message `text`.
fn failed(text: String) -> (report: Report)
    ensures
        report@ == failure(text@),
{
    Report { success: false, notice: Some(Notice { style: Style::Error, text }) }
}

/// Decides what follows the attempt to launch a command.
pub fn launch_verdict(spawned: Spawned, background: bool) -> (verdict: Verdict)
    ensures
        verdict@ == verdict_of(spawned, background),
{
    match spawned {
        Spawned::Failed => Verdict::Done {
            report: failed(String::from_str("Command not found!")),
        },
        Spawned::Started { pid } => {
            if background {
                let text = decimal(pid).concat(" started!");
                Verdict::Done {
                    report: Report {
                        success: true,
                        notice: Some(Notice { style: Style::Success, text }),
                    },
                }
            } else {
                Verdict::Wait
            }
        },
    }
}

/// Reports on a child that was waited for: it succeeded if it ended with the
/// exit code 0. `code` is `None` where it ended without an exit code.
pub fn wait_report(code: Option<i32>) -> (report: Report)
    ensures
        report.success == (code == Some(0i32)),
        report.notice is None,
{
    let success = match code {
        Some(c) => c == 0,
        None => false,
    };
    Report { success, notice: None }
}

/// Reports on a change of directory: `error` is what the system said where it
/// refused, and `None` where the directory was changed.
pub fn change_dir_report(error: Option<&str>) -> (report: Report)
    ensures
        report@ == match error {
            Some(e) => failure(change_failed_text(e@)),
            None => (ReportModel { success: true, notice: None }),
        },
{
    match error {
        Some(e) => failed(String::from_str("Failed to change the dirctory!\n").concat(e)),
        None => Report { success: true, notice: None },
    }
}

/// Reports on a `cd` that names no directory: a failure.
pub fn missing_directory_report() -> (report: Report)
    ensures
        report@ == failure(missing_directory_text()),
{
    change_dir_report(Some("no directory given"))
}

} // verus!
