//! What the user is told of a test that is over.

use crate::console::{self, format_bytes, say, Message, Style};
use crate::engine::TestReport;
use crate::text;
use vstd::prelude::*;

verus! {

/// How long the data took, and how much of it there was in a second, as they
/// are shown.
#[derive(Debug)]
pub struct Throughput {
    pub seconds: String,
    pub mib_per_sec: String,
}

impl Throughput {
    /// The line on data of a size.
    pub open spec fn line(self, label: Seq<char>, size: u64) -> Seq<char> {
        label + console::size_text(size) + " in "@ + self.seconds@ + "s ("@ + self.mib_per_sec@
            + " MiB/s)"@
    }
}

/// The line on how fast data went, if that is known.
pub open spec fn throughput_lines(
    label: Seq<char>,
    size: u64,
    throughput: Option<Throughput>,
) -> Seq<(Style, Seq<char>)> {
    match throughput {
        Some(t) => seq![(Style::Plain, t.line(label, size))],
        None => Seq::empty(),
    }
}

/// What was tested.
pub open spec fn headlines(report: TestReport) -> Seq<(Style, Seq<char>)> {
    seq![
        (Style::Plain, "Target: "@ + report.target@),
        (
            Style::Plain,
            "Passes: "@ + text::decimal(report.passes_completed as nat) + "/"@ + text::decimal(
                report.passes_total as nat,
            ),
        ),
        (
            Style::Plain,
            "Files:  "@ + text::decimal(report.files_passed as nat) + " passed, "@ + text::decimal(
                report.files_failed as nat,
            ) + " failed, "@ + text::decimal(report.files_total as nat) + " total"@,
        ),
    ]
}

/// The line on a capacity that is not there.
pub open spec fn shortfall_lines(report: TestReport) -> Seq<(Style, Seq<char>)> {
    if report.capacity_ok {
        Seq::empty()
    } else {
        seq![
            (
                Style::Fail,
                "Capacity shortfall: wrote "@ + console::size_text(report.actual_total) + " of "@
                    + console::size_text(report.expected_total),
            ),
        ]
    }
}

/// The lines on the files that failed.
pub open spec fn failed_lines(names: Seq<String>) -> Seq<(Style, Seq<char>)> {
    names.map_values(|name: String| (Style::Fail, "  failed: "@ + name@))
}

/// How the test ended.
pub open spec fn verdict_lines(report: TestReport) -> Seq<(Style, Seq<char>)> {
    if report.files_failed > 0 {
        seq![(Style::Fail, "Test failed."@)] + failed_lines(report.failed_files@)
    } else if report.pending_verify {
        seq![(Style::Warn, "Test data written. Verification is still pending."@)]
    } else if report.success {
        seq![(Style::Good, "All checks passed."@)]
    } else {
        seq![(Style::Fail, "Test did not complete successfully."@)]
    }
}

/// The whole report.
pub open spec fn report_lines(
    report: TestReport,
    write: Option<Throughput>,
    read: Option<Throughput>,
) -> Seq<(Style, Seq<char>)> {
    headlines(report) + throughput_lines("Write:  "@, report.actual_total, write)
        + throughput_lines("Read:   "@, report.actual_total, read) + shortfall_lines(report)
        + verdict_lines(report)
}

fn say_throughput(
    messages: &mut Vec<Message>,
    label: &str,
    size: u64,
    throughput: &Option<Throughput>,
)
    ensures
        console::contents(final(messages)@) == console::contents(old(messages)@)
            + throughput_lines(label@, size, *throughput),
{
    if let Some(t) = throughput {
        let line = label.to_owned().concat(format_bytes(size).as_str()).concat(" in ").concat(
            t.seconds.as_str(),
        ).concat("s (").concat(t.mib_per_sec.as_str()).concat(" MiB/s)");
        say(messages, Style::Plain, line);
    }
    assert(console::contents(messages@) =~= console::contents(old(messages)@) + throughput_lines(
        label@,
        size,
        *throughput,
    ));
}

fn say_headlines(messages: &mut Vec<Message>, report: &TestReport)
    ensures
        console::contents(final(messages)@) == console::contents(old(messages)@) + headlines(
            *report,
        ),
{
    say(messages, Style::Plain, "Target: ".to_owned().concat(report.target.as_str()));
    let mut passes = "Passes: ".to_owned();
    text::push_decimal(&mut passes, report.passes_completed as u64);
    passes.append("/");
    text::push_decimal(&mut passes, report.passes_total as u64);
    say(messages, Style::Plain, passes);
    let mut files = "Files:  ".to_owned();
    text::push_decimal(&mut files, report.files_passed as u64);
    files.append(" passed, ");
    text::push_decimal(&mut files, report.files_failed as u64);
    files.append(" failed, ");
    text::push_decimal(&mut files, report.files_total as u64);
    files.append(" total");
    say(messages, Style::Plain, files);
    assert(console::contents(messages@) =~= console::contents(old(messages)@) + headlines(
        *report,
    ));
}

fn say_verdict(messages: &mut Vec<Message>, report: &TestReport)
    ensures
        console::contents(final(messages)@) == console::contents(old(messages)@) + verdict_lines(
            *report,
        ),
{
    let ghost before = console::contents(messages@);
    if report.files_failed > 0 {
        say(messages, Style::Fail, "Test failed.".to_owned());
        let ghost head = console::contents(messages@);
        let mut i: usize = 0;
        assert(head =~= head + failed_lines(report.failed_files@.take(0)));
        while i < report.failed_files.len()
            invariant
                i <= report.failed_files@.len(),
                console::contents(messages@) == head + failed_lines(
                    report.failed_files@.take(i as int),
                ),
            decreases report.failed_files@.len() - i,
        {
            let name = report.failed_files[i].as_str();
            say(messages, Style::Fail, "  failed: ".to_owned().concat(name));
            i += 1;
            assert(console::contents(messages@) =~= head + failed_lines(
                report.failed_files@.take(i as int),
            ));
        }
        assert(report.failed_files@.take(i as int) =~= report.failed_files@);
        assert(console::contents(messages@) =~= before + verdict_lines(*report));
    } else {
        if report.pending_verify {
            say(
                messages,
                Style::Warn,
                "Test data written. Verification is still pending.".to_owned(),
            );
        } else if report.success {
            say(messages, Style::Good, "All checks passed.".to_owned());
        } else {
            say(messages, Style::Fail, "Test did not complete successfully.".to_owned());
        }
        assert(console::contents(messages@) =~= before + verdict_lines(*report));
    }
}

/// The report on a test, with how fast the data went where that is known.
pub fn emit_report(
    report: &TestReport,
    write: &Option<Throughput>,
    read: &Option<Throughput>,
) -> (messages: Vec<Message>)
    ensures
        console::contents(messages@) == report_lines(*report, *write, *read),
{
    let mut messages: Vec<Message> = Vec::new();
    say_headlines(&mut messages, report);
    say_throughput(&mut messages, "Write:  ", report.actual_total, write);
    say_throughput(&mut messages, "Read:   ", report.actual_total, read);
    if !report.capacity_ok {
        let line = "Capacity shortfall: wrote ".to_owned().concat(
            format_bytes(report.actual_total).as_str(),
        ).concat(" of ").concat(format_bytes(report.expected_total).as_str());
        say(&mut messages, Style::Fail, line);
    }
    say_verdict(&mut messages, report);
    assert(console::contents(messages@) =~= report_lines(*report, *write, *read));
    messages
}

/// The report on a test in a dialogue, behind an empty line.
pub fn print_report(report: &TestReport) -> (messages: Vec<Message>)
    ensures
        console::contents(messages@) == seq![(Style::Plain, ""@)] + report_lines(
            *report,
            None,
            None,
        ),
{
    let mut messages: Vec<Message> = Vec::new();
    say(&mut messages, Style::Plain, "".to_owned());
    let mut lines = emit_report(report, &None, &None);
    let ghost head = messages@;
    let ghost rest = lines@;
    messages.append(&mut lines);
    assert(messages@ =~= head + rest);
    assert(console::contents(messages@) =~= console::contents(head) + console::contents(rest));
    assert(console::contents(head) =~= seq![(Style::Plain, ""@)]);
    messages
}

/// How far the data of a file has come, while it is written or read.
pub open spec fn progress_text(done: u64, size: u64, mib_per_sec: Seq<char>) -> Seq<char> {
    "  "@ + console::size_text(done) + " / "@ + console::size_text(size) + "  "@ + mib_per_sec
        + " MiB/s"@
}

/// A line on how far the data of a file has come.
pub fn progress_line(done: u64, size: u64, mib_per_sec: &str) -> (line: String)
    ensures
        line@ == progress_text(done, size, mib_per_sec@),
{
    "  ".to_owned().concat(format_bytes(done).as_str()).concat(" / ").concat(
        format_bytes(size).as_str(),
    ).concat("  ").concat(mib_per_sec).concat(" MiB/s")
}

/// A test is said to have passed exactly if it succeeded, with no file failed and
/// nothing left to verify.
pub proof fn success_is_told_truly(report: TestReport)
    ensures
        verdict_lines(report)[0] == (Style::Good, "All checks passed."@) <==> report.success
            && report.files_failed == 0 && !report.pending_verify,
        (exists|i: int|
            0 <= i < verdict_lines(report).len() && (#[trigger] verdict_lines(report)[i]).0
                == Style::Good) <==> report.success && report.files_failed == 0
            && !report.pending_verify,
        verdict_lines(report)[0].0 == Style::Fail <==> report.files_failed > 0 || (!report.success
            && !report.pending_verify),
        verdict_lines(report)[0].0 == Style::Warn <==> report.files_failed == 0
            && report.pending_verify,
{
    if report.success && report.files_failed == 0 && !report.pending_verify {
        assert(verdict_lines(report)[0].0 == Style::Good);
    }
}

/// Every failed file is told by its name, in order, and behind that the test
/// failed.
pub proof fn failed_files_are_told(report: TestReport, i: int)
    requires
        report.files_failed > 0,
        0 <= i < report.failed_files@.len(),
    ensures
        verdict_lines(report).len() == report.failed_files@.len() + 1,
        verdict_lines(report)[0] == (Style::Fail, "Test failed."@),
        verdict_lines(report)[i + 1] == (
            Style::Fail,
            "  failed: "@ + report.failed_files@[i]@,
        ),
{
}

/// A missing capacity is told exactly if it is missing, with what was written and
/// what was expected.
pub proof fn shortfalls_are_told(report: TestReport)
    ensures
        shortfall_lines(report).len() == if report.capacity_ok {
            0nat
        } else {
            1
        },
        !report.capacity_ok ==> shortfall_lines(report)[0] == (
            Style::Fail,
            "Capacity shortfall: wrote "@ + console::size_text(report.actual_total) + " of "@
                + console::size_text(report.expected_total),
        ),
{
}

/// A report tells its target, its passes and its files first, then how fast the
/// data went as far as that is known, then a missing capacity, and how the test
/// ended last.
pub proof fn reports_tell_everything(
    report: TestReport,
    write: Option<Throughput>,
    read: Option<Throughput>,
)
    ensures
        ({
            let lines = report_lines(report, write, read);
            let speeds: int = (if write is Some {
                1int
            } else {
                0
            }) + (if read is Some {
                1int
            } else {
                0
            });
            let missing: int = if report.capacity_ok {
                0
            } else {
                1
            };
            &&& lines.len() == 3 + speeds + missing + verdict_lines(report).len()
            &&& lines[0] == (Style::Plain, "Target: "@ + report.target@)
            &&& lines[1].1 == "Passes: "@ + text::decimal(report.passes_completed as nat) + "/"@
                + text::decimal(report.passes_total as nat)
            &&& lines[2].1 == "Files:  "@ + text::decimal(report.files_passed as nat)
                + " passed, "@ + text::decimal(report.files_failed as nat) + " failed, "@
                + text::decimal(report.files_total as nat) + " total"@
            &&& write matches Some(t) ==> lines[3].1 == "Write:  "@ + console::size_text(
                report.actual_total,
            ) + " in "@ + t.seconds@ + "s ("@ + t.mib_per_sec@ + " MiB/s)"@
            &&& read matches Some(t) ==> lines[2 + speeds].1 == "Read:   "@ + console::size_text(
                report.actual_total,
            ) + " in "@ + t.seconds@ + "s ("@ + t.mib_per_sec@ + " MiB/s)"@
            &&& !report.capacity_ok ==> lines[3 + speeds].0 == Style::Fail
            &&& lines.skip(3 + speeds + missing) == verdict_lines(report)
        }),
{
    let lines = report_lines(report, write, read);
    let front = headlines(report) + throughput_lines("Write:  "@, report.actual_total, write)
        + throughput_lines("Read:   "@, report.actual_total, read) + shortfall_lines(report);
    assert(lines.skip(front.len() as int) =~= verdict_lines(report));
}

/// Progress tells how much is done of how much, and how fast.
pub proof fn progress_tells_how_much(done: u64, size: u64, speed: Seq<char>)
    ensures
        progress_text(done, size, speed) == "  "@ + console::size_text(done) + " / "@
            + console::size_text(size) + "  "@ + speed + " MiB/s"@,
{
}

} // verus!
