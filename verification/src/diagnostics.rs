use vstd::prelude::*;

use crate::error::ValidationError;
use crate::event::{optional_text_copy, SpeedMultiplier};
use crate::hotkey::HotkeyBinding;
use crate::recording::{duration_micros, metrics_of, Recording, RecordingMetrics};
use crate::event::InputEvent;
use crate::session::{prepare_fold, prepare_playback_plan, release_actions, PlaybackPreparationReport};
use crate::text::{decimal_string, decimal_text, push_str};

verus! {

/// The severity of a single doctor or diagnostics check.
#[derive(Debug, Clone, Copy, PartialEq, Eq, Structural)]
pub enum DiagnosticStatus {
    Pass,
    Warn,
    Fail,
}

/// A single health check emitted by the doctor workflow.
#[derive(Debug, Clone, PartialEq, Eq)]
pub struct DiagnosticCheck {
    pub name: String,
    pub status: DiagnosticStatus,
    pub summary: String,
}

/// The content of a check: its name, status and summary.
pub open spec fn check_view(check: DiagnosticCheck) -> (Seq<char>, DiagnosticStatus, Seq<char>) {
    (check.name@, check.status, check.summary@)
}

/// The contents of a list of checks, in order.
pub open spec fn checks_view(checks: Seq<DiagnosticCheck>) -> Seq<(Seq<char>, DiagnosticStatus, Seq<char>)> {
    checks.map_values(|check: DiagnosticCheck| check_view(check))
}

impl DiagnosticCheck {
    /// Creates a passing diagnostic check.
    pub fn pass(name: String, summary: String) -> (check: Self)
        ensures
            check_view(check) == (name@, DiagnosticStatus::Pass, summary@),
    {
        DiagnosticCheck { name, status: DiagnosticStatus::Pass, summary }
    }

    /// Creates a warning diagnostic check.
    pub fn warn(name: String, summary: String) -> (check: Self)
        ensures
            check_view(check) == (name@, DiagnosticStatus::Warn, summary@),
    {
        DiagnosticCheck { name, status: DiagnosticStatus::Warn, summary }
    }

    /// Creates a failing diagnostic check.
    pub fn fail(name: String, summary: String) -> (check: Self)
        ensures
            check_view(check) == (name@, DiagnosticStatus::Fail, summary@),
    {
        DiagnosticCheck { name, status: DiagnosticStatus::Fail, summary }
    }
}

/// The number of checks with a given status.
pub open spec fn status_count(checks: Seq<DiagnosticCheck>, status: DiagnosticStatus) -> nat
    decreases checks.len(),
{
    if checks.len() == 0 {
        0
    } else {
        status_count(checks.drop_last(), status) + if checks.last().status == status {
            1nat
        } else {
            0nat
        }
    }
}

/// The three status counts add up to the number of checks.
pub proof fn lemma_status_counts_sum(checks: Seq<DiagnosticCheck>)
    ensures
        status_count(checks, DiagnosticStatus::Pass) + status_count(checks, DiagnosticStatus::Warn)
            + status_count(checks, DiagnosticStatus::Fail) == checks.len(),
    decreases checks.len(),
{
    if checks.len() > 0 {
        lemma_status_counts_sum(checks.drop_last());
    }
}

/// A compact aggregate over a set of diagnostic checks.
#[derive(Debug, Clone, Copy, PartialEq, Eq, Structural)]
pub struct DiagnosticSummary {
    pub pass_count: usize,
    pub warn_count: usize,
    pub fail_count: usize,
}

/// `summary` counts the checks of each status in `checks`.
pub open spec fn summarizes(summary: DiagnosticSummary, checks: Seq<DiagnosticCheck>) -> bool {
    &&& summary.pass_count == status_count(checks, DiagnosticStatus::Pass)
    &&& summary.warn_count == status_count(checks, DiagnosticStatus::Warn)
    &&& summary.fail_count == status_count(checks, DiagnosticStatus::Fail)
}

/// The highest severity among the counts: any failure, else any warning, else a pass.
pub open spec fn severity(summary: DiagnosticSummary) -> DiagnosticStatus {
    if summary.fail_count > 0 {
        DiagnosticStatus::Fail
    } else if summary.warn_count > 0 {
        DiagnosticStatus::Warn
    } else {
        DiagnosticStatus::Pass
    }
}

impl Default for DiagnosticSummary {
    fn default() -> (summary: Self)
        ensures
            summary == (DiagnosticSummary { pass_count: 0, warn_count: 0, fail_count: 0 }),
    {
        DiagnosticSummary { pass_count: 0, warn_count: 0, fail_count: 0 }
    }
}

impl DiagnosticSummary {
    /// Builds a summary from a list of checks.
    pub fn from_checks(checks: &[DiagnosticCheck]) -> (summary: Self)
        ensures
            summarizes(summary, checks@),
    {
        let mut summary = DiagnosticSummary { pass_count: 0, warn_count: 0, fail_count: 0 };
        let mut index: usize = 0;
        while index < checks.len()
            invariant
                index <= checks.len(),
                summarizes(summary, checks@.subrange(0, index as int)),
            decreases checks.len() - index,
        {
            let ghost prefix = checks@.subrange(0, index + 1);
            proof {
                assert(prefix.drop_last() =~= checks@.subrange(0, index as int));
                lemma_status_counts_sum(checks@.subrange(0, index as int));
            }
            match checks[index].status {
                DiagnosticStatus::Pass => summary.pass_count = summary.pass_count + 1,
                DiagnosticStatus::Warn => summary.warn_count = summary.warn_count + 1,
                DiagnosticStatus::Fail => summary.fail_count = summary.fail_count + 1,
            }
            index += 1;
        }
        assert(checks@.subrange(0, checks.len() as int) =~= checks@);
        summary
    }

    /// Returns the highest-severity status represented by this summary.
    pub fn overall_status(self) -> (status: DiagnosticStatus)
        ensures
            status == severity(self),
    {
        if self.fail_count > 0 {
            DiagnosticStatus::Fail
        } else if self.warn_count > 0 {
            DiagnosticStatus::Warn
        } else {
            DiagnosticStatus::Pass
        }
    }

    /// Reports whether any failing checks are present.
    pub fn has_failures(self) -> (failing: bool)
        ensures
            failing == (self.fail_count > 0),
    {
        self.fail_count > 0
    }
}

/// A shared environment report emitted by platform backends.
#[derive(Debug, Clone, PartialEq, Eq)]
pub struct EnvironmentDoctorReport {
    pub target_os: String,
    pub target_arch: String,
    pub recording_backends: Vec<String>,
    pub playback_backend: String,
    pub hotkey_backend: String,
    pub hotkey_probe: HotkeyBinding,
    pub summary: DiagnosticSummary,
    pub checks: Vec<DiagnosticCheck>,
}

impl EnvironmentDoctorReport {
    /// Creates a structured environment doctor report whose summary counts the checks.
    pub fn new(
        target_os: String,
        target_arch: String,
        recording_backends: Vec<String>,
        playback_backend: String,
        hotkey_backend: String,
        hotkey_probe: HotkeyBinding,
        checks: Vec<DiagnosticCheck>,
    ) -> (report: Self)
        ensures
            report.target_os == target_os,
            report.target_arch == target_arch,
            report.recording_backends == recording_backends,
            report.playback_backend == playback_backend,
            report.hotkey_backend == hotkey_backend,
            report.hotkey_probe == hotkey_probe,
            report.checks == checks,
            summarizes(report.summary, checks@),
    {
        let summary = DiagnosticSummary::from_checks(checks.as_slice());
        EnvironmentDoctorReport {
            target_os,
            target_arch,
            recording_backends,
            playback_backend,
            hotkey_backend,
            hotkey_probe,
            summary,
            checks,
        }
    }
}

/// A structured control-loop readiness report shared across frontends.
#[derive(Debug, Clone, PartialEq, Eq)]
pub struct ControlDoctorReport {
    pub start_record_hotkey: Option<HotkeyBinding>,
    pub start_play_hotkey: Option<HotkeyBinding>,
    pub stop_hotkey: HotkeyBinding,
    pub summary: DiagnosticSummary,
    pub checks: Vec<DiagnosticCheck>,
}

impl ControlDoctorReport {
    /// Creates a structured control-loop readiness report whose summary counts the checks.
    pub fn new(
        start_record_hotkey: Option<HotkeyBinding>,
        start_play_hotkey: Option<HotkeyBinding>,
        stop_hotkey: HotkeyBinding,
        checks: Vec<DiagnosticCheck>,
    ) -> (report: Self)
        ensures
            report.start_record_hotkey == start_record_hotkey,
            report.start_play_hotkey == start_play_hotkey,
            report.stop_hotkey == stop_hotkey,
            report.checks == checks,
            summarizes(report.summary, checks@),
    {
        let summary = DiagnosticSummary::from_checks(checks.as_slice());
        ControlDoctorReport { start_record_hotkey, start_play_hotkey, stop_hotkey, summary, checks }
    }
}

/// A structured recording inspection report for doctor-style checks.
///
/// The average event rate, a floating-point figure, is left to the caller.
#[derive(Debug, Clone, PartialEq, Eq)]
pub struct RecordingDoctorReport {
    pub title: Option<String>,
    pub schema_version: u32,
    pub event_count: usize,
    pub duration_micros: u64,
    pub metrics: RecordingMetrics,
    pub summary: DiagnosticSummary,
    pub checks: Vec<DiagnosticCheck>,
}

/// The checks of a recording doctor report for a recording with the given schema
/// version, event count and duration.
pub open spec fn recording_checks(schema_version: u32, event_count: nat, duration: u64) -> Seq<
    (Seq<char>, DiagnosticStatus, Seq<char>),
> {
    seq![
        (
            "schema_version"@,
            DiagnosticStatus::Pass,
            "schema version "@ + decimal_text(schema_version as nat) + " matches this build"@,
        ),
        (
            "event_ordering"@,
            DiagnosticStatus::Pass,
            "validated canonical event ordering across "@ + decimal_text(event_count) + " events"@,
        ),
        if event_count == 0 {
            (
                "recording_content"@,
                DiagnosticStatus::Warn,
                "recording is valid but contains no events to replay"@,
            )
        } else {
            (
                "recording_content"@,
                DiagnosticStatus::Pass,
                "recording spans "@ + decimal_text(duration as nat) + " us across "@ + decimal_text(
                    event_count,
                ) + " events"@,
            )
        },
    ]
}

/// Joins three pieces of text.
fn join3(first: &str, second: &str, third: &str) -> (text: String)
    ensures
        text@ == first@ + second@ + third@,
{
    let mut text = String::new();
    push_str(&mut text, first);
    push_str(&mut text, second);
    push_str(&mut text, third);
    assert(text@ =~= first@ + second@ + third@);
    text
}

/// Joins five pieces of text.
fn join5(first: &str, second: &str, third: &str, fourth: &str, fifth: &str) -> (text: String)
    ensures
        text@ == first@ + second@ + third@ + fourth@ + fifth@,
{
    let mut text = join3(first, second, third);
    push_str(&mut text, fourth);
    push_str(&mut text, fifth);
    assert(text@ =~= first@ + second@ + third@ + fourth@ + fifth@);
    text
}

/// Builds a recording doctor report from a validated canonical recording.
pub fn diagnose_recording(recording: &Recording) -> (report: RecordingDoctorReport)
    ensures
        report.title == recording@.0.title,
        report.schema_version == recording@.0.schema_version.number(),
        report.event_count == recording@.1.len(),
        report.duration_micros == duration_micros(recording@.1),
        metrics_of(recording@.1, report.metrics),
        checks_view(report.checks@) == recording_checks(
            report.schema_version,
            report.event_count as nat,
            report.duration_micros,
        ),
        summarizes(report.summary, report.checks@),
{
    let metrics = recording.metrics();
    let schema_version = recording.metadata().schema_version.get();
    let event_count = recording.event_count();
    let duration = recording.duration().as_micros();
    let count_text = decimal_string(event_count as u64);
    let mut checks: Vec<DiagnosticCheck> = Vec::new();
    let schema_text = decimal_string(schema_version as u64);
    checks.push(
        DiagnosticCheck::pass(
            "schema_version".to_owned(),
            join3("schema version ", schema_text.as_str(), " matches this build"),
        ),
    );
    checks.push(
        DiagnosticCheck::pass(
            "event_ordering".to_owned(),
            join3("validated canonical event ordering across ", count_text.as_str(), " events"),
        ),
    );
    if event_count == 0 {
        checks.push(
            DiagnosticCheck::warn(
                "recording_content".to_owned(),
                "recording is valid but contains no events to replay".to_owned(),
            ),
        );
    } else {
        let duration_text = decimal_string(duration);
        checks.push(
            DiagnosticCheck::pass(
                "recording_content".to_owned(),
                join5(
                    "recording spans ",
                    duration_text.as_str(),
                    " us across ",
                    count_text.as_str(),
                    " events",
                ),
            ),
        );
    }
    assert(checks_view(checks@) =~= recording_checks(schema_version, event_count as nat, duration));
    let summary = DiagnosticSummary::from_checks(checks.as_slice());
    RecordingDoctorReport {
        title: optional_text_copy(&recording.metadata().title),
        schema_version,
        event_count,
        duration_micros: duration,
        metrics,
        summary,
        checks,
    }
}

/// A structured playback readiness report for doctor-style checks.
#[derive(Debug, Clone, PartialEq, Eq)]
pub struct PlaybackDoctorReport {
    pub canonical_event_count: usize,
    pub prepared_event_count: usize,
    pub speed_multiplier: SpeedMultiplier,
    pub preparation_report: PlaybackPreparationReport,
    pub summary: DiagnosticSummary,
    pub checks: Vec<DiagnosticCheck>,
}

/// The number of unmatched releases that preparing `events` skips.
pub open spec fn prepared_skipped(events: Seq<InputEvent>) -> nat {
    prepare_fold(events, events.len() as int).skipped
}

/// The number of terminal releases that preparing `events` appends.
pub open spec fn prepared_appended(events: Seq<InputEvent>) -> nat {
    release_actions(prepare_fold(events, events.len() as int).state).len()
}

/// The number of events in the playback plan of `events`.
pub open spec fn prepared_count(events: Seq<InputEvent>) -> nat {
    prepare_fold(events, events.len() as int).kept.len() + prepared_appended(events)
}

/// The checks of a playback doctor report, given the text of the speed
/// multiplier and the counts of the recording and of its playback plan.
pub open spec fn playback_checks(
    speed_text: Seq<char>,
    event_count: nat,
    duration: u64,
    skipped: nat,
    appended: nat,
    prepared: nat,
) -> Seq<(Seq<char>, DiagnosticStatus, Seq<char>)> {
    seq![
        (
            "speed_multiplier"@,
            DiagnosticStatus::Pass,
            "playback speed is set to "@ + speed_text + "x"@,
        ),
        if event_count == 0 {
            (
                "canonical_recording"@,
                DiagnosticStatus::Warn,
                "recording is valid but contains no events to dispatch"@,
            )
        } else {
            (
                "canonical_recording"@,
                DiagnosticStatus::Pass,
                "canonical recording contains "@ + decimal_text(event_count) + " events over "@
                    + decimal_text(duration as nat) + " us"@,
            )
        },
        if skipped > 0 || appended > 0 {
            (
                "prepared_playback_plan"@,
                DiagnosticStatus::Warn,
                "prepared playback skipped "@ + decimal_text(skipped) + " unmatched releases and appended "@
                    + decimal_text(appended) + " terminal cleanup releases"@,
            )
        } else {
            (
                "prepared_playback_plan"@,
                DiagnosticStatus::Pass,
                "prepared playback matches the canonical recording with "@ + decimal_text(prepared)
                    + " dispatchable events"@,
            )
        },
    ]
}

/// Builds a playback readiness report from a validated canonical recording and a
/// speed multiplier, whose decimal text `speed_text` the caller supplies.
pub fn diagnose_playback(
    recording: &Recording,
    speed_multiplier: SpeedMultiplier,
    speed_text: &str,
) -> (result: Result<PlaybackDoctorReport, ValidationError>)
    ensures
        result matches Ok(report) && {
            let events = recording@.1;
            &&& report.canonical_event_count == events.len()
            &&& report.prepared_event_count == prepared_count(events)
            &&& report.speed_multiplier == speed_multiplier
            &&& report.preparation_report.skipped_unmatched_release_events == prepared_skipped(events)
            &&& report.preparation_report.appended_release_events == prepared_appended(events)
            &&& checks_view(report.checks@) == playback_checks(
                speed_text@,
                events.len(),
                duration_micros(events),
                prepared_skipped(events),
                prepared_appended(events),
                prepared_count(events),
            )
            &&& summarizes(report.summary, report.checks@)
        },
{
    let plan = match prepare_playback_plan(recording) {
        Ok(plan) => plan,
        Err(error) => return Err(error),
    };
    let preparation_report = plan.report();
    let prepared_event_count = plan.event_count();
    proof {
        let events = recording@.1;
        let model = prepare_fold(events, events.len() as int);
        let prepared = plan@.0.1;
        assert(prepared.subrange(0, model.kept.len() as int).len() == model.kept.len());
    }
    let event_count = recording.event_count();
    let duration = recording.duration().as_micros();
    let mut checks: Vec<DiagnosticCheck> = Vec::new();
    checks.push(
        DiagnosticCheck::pass(
            "speed_multiplier".to_owned(),
            join3("playback speed is set to ", speed_text, "x"),
        ),
    );
    if event_count == 0 {
        checks.push(
            DiagnosticCheck::warn(
                "canonical_recording".to_owned(),
                "recording is valid but contains no events to dispatch".to_owned(),
            ),
        );
    } else {
        let count_text = decimal_string(event_count as u64);
        let duration_text = decimal_string(duration);
        checks.push(
            DiagnosticCheck::pass(
                "canonical_recording".to_owned(),
                join5(
                    "canonical recording contains ",
                    count_text.as_str(),
                    " events over ",
                    duration_text.as_str(),
                    " us",
                ),
            ),
        );
    }
    if preparation_report.skipped_unmatched_release_events > 0
        || preparation_report.appended_release_events > 0 {
        let skipped_text = decimal_string(
            preparation_report.skipped_unmatched_release_events as u64,
        );
        let appended_text = decimal_string(preparation_report.appended_release_events as u64);
        checks.push(
            DiagnosticCheck::warn(
                "prepared_playback_plan".to_owned(),
                join5(
                    "prepared playback skipped ",
                    skipped_text.as_str(),
                    " unmatched releases and appended ",
                    appended_text.as_str(),
                    " terminal cleanup releases",
                ),
            ),
        );
    } else {
        let prepared_text = decimal_string(prepared_event_count as u64);
        checks.push(
            DiagnosticCheck::pass(
                "prepared_playback_plan".to_owned(),
                join3(
                    "prepared playback matches the canonical recording with ",
                    prepared_text.as_str(),
                    " dispatchable events",
                ),
            ),
        );
    }
    let ghost events = recording@.1;
    assert(checks_view(checks@) =~= playback_checks(
        speed_text@,
        events.len(),
        duration_micros(events),
        prepared_skipped(events),
        prepared_appended(events),
        prepared_count(events),
    ));
    let summary = DiagnosticSummary::from_checks(checks.as_slice());
    Ok(
        PlaybackDoctorReport {
            canonical_event_count: event_count,
            prepared_event_count,
            speed_multiplier,
            preparation_report,
            summary,
            checks,
        },
    )
}

} // verus!
