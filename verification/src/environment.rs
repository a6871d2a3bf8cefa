use vstd::prelude::*;

use crate::diagnostics::{checks_view, summarizes, DiagnosticCheck, DiagnosticStatus, EnvironmentDoctorReport};
use crate::elevation::ProcessElevationStatus;
use crate::hotkey::{binding_text, HotkeyBinding};
use crate::text::push_str;

verus! {

/// The hotkey identifier the environment doctor registers its probe under.
pub const DOCTOR_HOTKEY_PROBE_IDENTIFIER: i32 = 91;

/// The checks of the Windows environment report, given the probe hotkey's text,
/// the outcome of the temporary hotkey registration and of the elevation query,
/// each failure carried by its message.
pub open spec fn environment_checks(
    probe_text: Seq<char>,
    probe_result: Result<(), Seq<char>>,
    elevation_result: Result<ProcessElevationStatus, Seq<char>>,
) -> Seq<(Seq<char>, DiagnosticStatus, Seq<char>)> {
    seq![
        (
            "recording_backends"@,
            DiagnosticStatus::Pass,
            "Raw Input and low-level hook recording backends are compiled into this build"@,
        ),
        (
            "playback_backend"@,
            DiagnosticStatus::Pass,
            "SendInput playback backend is compiled into this build"@,
        ),
        (
            "hotkey_backend"@,
            DiagnosticStatus::Pass,
            "RegisterHotKey global hotkey backend is compiled into this build"@,
        ),
        match probe_result {
            Ok(()) => (
                "hotkey_probe"@,
                DiagnosticStatus::Pass,
                "temporary RegisterHotKey probe succeeded for "@ + probe_text,
            ),
            Err(message) => (
                "hotkey_probe"@,
                DiagnosticStatus::Fail,
                "temporary RegisterHotKey probe failed for "@ + probe_text + ": "@ + message,
            ),
        },
        match elevation_result {
            Ok(ProcessElevationStatus::Elevated) => (
                "process_elevation"@,
                DiagnosticStatus::Pass,
                "the current regxorder process is running elevated"@,
            ),
            Ok(ProcessElevationStatus::NotElevated) => (
                "process_elevation"@,
                DiagnosticStatus::Warn,
                "the current regxorder process is not elevated; playback into elevated targets may be blocked by UIPI"@,
            ),
            Err(message) => (
                "process_elevation"@,
                DiagnosticStatus::Fail,
                "failed to query current process elevation: "@ + message,
            ),
        },
    ]
}

/// The view of a result whose error is a message.
pub open spec fn message_result<T>(result: Result<T, String>) -> Result<T, Seq<char>> {
    match result {
        Ok(value) => Ok(value),
        Err(message) => Err(message@),
    }
}

/// Builds the structured environment report of the Windows backend from the
/// outcome of probing the hotkey `hotkey_probe` and of querying the process
/// elevation; a failure arrives as its rendered message.
pub fn build_environment_report(
    target_os: String,
    target_arch: String,
    hotkey_probe: HotkeyBinding,
    hotkey_probe_result: Result<(), String>,
    process_elevation_result: Result<ProcessElevationStatus, String>,
) -> (report: EnvironmentDoctorReport)
    ensures
        report.target_os == target_os,
        report.target_arch == target_arch,
        report.recording_backends@.len() == 2,
        report.recording_backends@[0]@ == "raw_input"@,
        report.recording_backends@[1]@ == "low_level_hooks"@,
        report.playback_backend@ == "send_input"@,
        report.hotkey_backend@ == "register_hotkey"@,
        report.hotkey_probe == hotkey_probe,
        report.checks@.len() == 5,
        checks_view(report.checks@) == environment_checks(
            binding_text(hotkey_probe@.0, hotkey_probe@.1),
            message_result(hotkey_probe_result),
            message_result(process_elevation_result),
        ),
        summarizes(report.summary, report.checks@),
{
    let probe_text = hotkey_probe.to_string();
    let mut checks: Vec<DiagnosticCheck> = Vec::new();
    checks.push(
        DiagnosticCheck::pass(
            "recording_backends".to_owned(),
            "Raw Input and low-level hook recording backends are compiled into this build".to_owned(),
        ),
    );
    checks.push(
        DiagnosticCheck::pass(
            "playback_backend".to_owned(),
            "SendInput playback backend is compiled into this build".to_owned(),
        ),
    );
    checks.push(
        DiagnosticCheck::pass(
            "hotkey_backend".to_owned(),
            "RegisterHotKey global hotkey backend is compiled into this build".to_owned(),
        ),
    );
    match &hotkey_probe_result {
        Ok(()) => {
            let mut summary = "temporary RegisterHotKey probe succeeded for ".to_owned();
            push_str(&mut summary, probe_text.as_str());
            checks.push(DiagnosticCheck::pass("hotkey_probe".to_owned(), summary));
        },
        Err(message) => {
            let mut summary = "temporary RegisterHotKey probe failed for ".to_owned();
            push_str(&mut summary, probe_text.as_str());
            push_str(&mut summary, ": ");
            push_str(&mut summary, message.as_str());
            checks.push(DiagnosticCheck::fail("hotkey_probe".to_owned(), summary));
        },
    }
    match &process_elevation_result {
        Ok(ProcessElevationStatus::Elevated) => {
            checks.push(
                DiagnosticCheck::pass(
                    "process_elevation".to_owned(),
                    "the current regxorder process is running elevated".to_owned(),
                ),
            );
        },
        Ok(ProcessElevationStatus::NotElevated) => {
            checks.push(
                DiagnosticCheck::warn(
                    "process_elevation".to_owned(),
                    "the current regxorder process is not elevated; playback into elevated targets may be blocked by UIPI".to_owned(),
                ),
            );
        },
        Err(message) => {
            let mut summary = "failed to query current process elevation: ".to_owned();
            push_str(&mut summary, message.as_str());
            checks.push(DiagnosticCheck::fail("process_elevation".to_owned(), summary));
        },
    }
    assert(checks_view(checks@) =~= environment_checks(
        binding_text(hotkey_probe@.0, hotkey_probe@.1),
        message_result(hotkey_probe_result),
        message_result(process_elevation_result),
    ));
    let mut recording_backends: Vec<String> = Vec::new();
    recording_backends.push("raw_input".to_owned());
    recording_backends.push("low_level_hooks".to_owned());
    EnvironmentDoctorReport::new(
        target_os,
        target_arch,
        recording_backends,
        "send_input".to_owned(),
        "register_hotkey".to_owned(),
        hotkey_probe,
        checks,
    )
}

} // verus!
