use vong::wizard::initial_view;
use vong::wizard::{
    compute_next_step_index, compute_prev_step_index, format_complete_line, format_step_done_line,
    is_complete, parse_progress, WizardProgress, WizardStep,
};

// The in-file wizard tests phrased their checks on the marker content line
// by line; these helpers answer the same questions through the library.
fn has_line(content: &str, line: &str) -> bool {
    content.lines().any(|l| l.trim() == line)
}

fn has_line_prefix(content: &str, prefix: &str) -> bool {
    content.lines().any(|l| l.trim().starts_with(prefix))
}

#[test]
fn next_step_local_whisper_goes_to_model() {
    assert_eq!(compute_next_step_index(2, "local-whisper"), 4);
}

#[test]
fn next_step_soniox_goes_to_api_key() {
    assert_eq!(compute_next_step_index(2, "soniox"), 3);
}

#[test]
fn next_step_openai_goes_to_api_key() {
    assert_eq!(compute_next_step_index(2, "openai-realtime"), 3);
}

#[test]
fn next_step_api_key_goes_to_language() {
    assert_eq!(compute_next_step_index(3, "soniox"), 5);
    assert_eq!(compute_next_step_index(3, "openai-realtime"), 5);
}

#[test]
fn next_step_model_goes_to_language() {
    assert_eq!(compute_next_step_index(4, "local-whisper"), 5);
}

#[test]
fn prev_step_language_cloud_goes_to_api_key() {
    assert_eq!(compute_prev_step_index(5, "soniox"), 3);
    assert_eq!(compute_prev_step_index(5, "openai-realtime"), 3);
}

#[test]
fn prev_step_language_local_goes_to_model() {
    assert_eq!(compute_prev_step_index(5, "local-whisper"), 4);
}

#[test]
fn parse_v2_complete_returns_complete() {
    let content = "v=2\nstep.welcome.done=100\nstep.audio.done=101\nstep.complete=200\n";
    assert!(has_line(content, "v=2"));
    assert!(has_line_prefix(content, "step.complete="));
    assert_eq!(parse_progress(content), WizardProgress::Complete);
}

#[test]
fn parse_v2_partial_resumes_at_correct_step() {
    let content = "v=2\nstep.welcome.done=100\nstep.audio.done=101\n";
    assert!(has_line(content, "v=2"));
    assert!(!has_line_prefix(content, "step.complete="));
    assert_eq!(parse_progress(content), WizardProgress::Resume(1));
}

#[test]
fn parse_legacy_no_v2_header_treated_as_complete() {
    let content = "1716192000\n";
    assert!(!has_line(content, "v=2"));
    assert_eq!(parse_progress(content), WizardProgress::Complete);
}

#[test]
fn parse_empty_file_treated_as_complete() {
    let content = "";
    assert!(!has_line(content, "v=2"));
    assert_eq!(parse_progress(content), WizardProgress::Complete);
}

#[test]
fn parse_api_key_skipped_counts_as_done() {
    let content = "v=2\nstep.welcome.done=1\nstep.audio.done=2\nstep.provider.done=3\nstep.api_key.skipped=4\n";
    assert!(has_line_prefix(content, "step.api_key."), "skipped should match the api_key. prefix");
    assert_eq!(parse_progress(content), WizardProgress::Resume(3));
}

#[test]
fn wizard_step_index_roundtrip() {
    for i in 0..=7usize {
        let step = WizardStep::from_index(i).expect("valid index 0..=7");
        assert_eq!(step.index(), i);
    }
    assert!(WizardStep::from_index(8).is_none(), "index 8 must be out of range");
}

#[test]
fn next_step_language_goes_to_crash_report() {
    assert_eq!(compute_next_step_index(5, "local-whisper"), 6);
    assert_eq!(compute_next_step_index(5, "soniox"), 6);
    assert_eq!(compute_next_step_index(5, "openai-realtime"), 6);
}

#[test]
fn next_step_crash_report_goes_to_done() {
    assert_eq!(compute_next_step_index(6, "local-whisper"), 7);
    assert_eq!(compute_next_step_index(6, "soniox"), 7);
    assert_eq!(compute_next_step_index(6, "openai-realtime"), 7);
}

#[test]
fn prev_step_crash_report_goes_to_language() {
    assert_eq!(compute_prev_step_index(6, "local-whisper"), 5);
    assert_eq!(compute_prev_step_index(6, "soniox"), 5);
}

#[test]
fn prev_step_done_goes_to_crash_report() {
    assert_eq!(compute_prev_step_index(7, "local-whisper"), 6);
    assert_eq!(compute_prev_step_index(7, "soniox"), 6);
}

#[test]
fn crash_report_step_key_and_index_consistent() {
    let step = WizardStep::CrashReport;
    assert_eq!(step.key(), "crash_report");
    assert_eq!(step.index(), 6);
    assert_eq!(WizardStep::from_index(6), Some(WizardStep::CrashReport));
}

#[test]
fn done_step_index_is_now_seven() {
    assert_eq!(WizardStep::Done.index(), 7);
    assert_eq!(WizardStep::from_index(7), Some(WizardStep::Done));
}

#[test]
fn parse_v2_with_crash_report_step_resumes_correctly() {
    let content = "v=2\nstep.welcome.done=1\nstep.audio.done=2\nstep.provider.done=3\nstep.model.done=4\nstep.language.done=5\nstep.crash_report.done=6\n";
    assert_eq!(parse_progress(content), WizardProgress::Resume(6), "crash_report step should map to ordered_keys index 6");
}

#[test]
fn progress_complete_when_v2_with_complete_line() {
    let content = "v=2\nstep.welcome.done=100\nstep.complete=999\n";
    assert_eq!(parse_progress(content), WizardProgress::Complete);
}

#[test]
fn progress_legacy_no_v2_header_treated_as_complete() {
    let content = "1716192000\n";
    assert_eq!(parse_progress(content), WizardProgress::Complete);
}

#[test]
fn progress_empty_file_treated_as_complete() {
    assert_eq!(parse_progress(""), WizardProgress::Complete);
}

#[test]
fn progress_resumes_at_audio_step_when_only_welcome_and_audio_done() {
    let content = "v=2\nstep.welcome.done=1\nstep.audio.done=2\n";
    assert_eq!(parse_progress(content), WizardProgress::Resume(1));
}

#[test]
fn progress_not_started_when_only_header_present() {
    let content = "v=2\n";
    assert_eq!(parse_progress(content), WizardProgress::NotStarted);
}

#[test]
fn progress_api_key_skipped_counts_as_step_done() {
    let content = "v=2\nstep.welcome.done=1\nstep.audio.done=2\nstep.provider.done=3\nstep.api_key.skipped=4\n";
    assert_eq!(parse_progress(content), WizardProgress::Resume(3));
}

#[test]
fn next_step_local_whisper_skips_api_key_goes_to_model() {
    assert_eq!(compute_next_step_index(2, "local-whisper"), 4);
    let path: Vec<usize> = {
        let mut steps = vec![];
        let mut cur = 0usize;
        loop {
            let nxt = compute_next_step_index(cur, "local-whisper");
            steps.push(nxt);
            if nxt >= 6 || nxt == cur {
                break;
            }
            cur = nxt;
        }
        steps
    };
    assert!(!path.contains(&3), "ApiKey step (3) should not appear in LocalWhisper path");
    assert!(path.contains(&4), "Model step (4) must appear in LocalWhisper path");
}

#[test]
fn next_step_soniox_requires_api_key_skips_model() {
    assert_eq!(compute_next_step_index(2, "soniox"), 3);
    assert_eq!(compute_next_step_index(3, "soniox"), 5);
}

#[test]
fn next_step_openai_requires_api_key_skips_model() {
    assert_eq!(compute_next_step_index(2, "openai-realtime"), 3);
    assert_eq!(compute_next_step_index(3, "openai-realtime"), 5);
}

#[test]
fn back_from_language_routes_by_provider() {
    assert_eq!(compute_prev_step_index(5, "soniox"), 3);
    assert_eq!(compute_prev_step_index(5, "openai-realtime"), 3);
    assert_eq!(compute_prev_step_index(5, "local-whisper"), 4);
}

#[test]
fn progress_all_steps_and_complete_line_is_complete() {
    let content = "v=2\nstep.welcome.done=1\nstep.audio.done=2\nstep.provider.done=3\nstep.api_key.done=4\nstep.model.done=5\nstep.language.done=6\nstep.complete=7\n";
    assert_eq!(parse_progress(content), WizardProgress::Complete);
}

#[test]
fn progress_resumes_at_provider_when_provider_is_last_step() {
    let content = "v=2\nstep.welcome.done=1\nstep.audio.done=2\nstep.provider.done=3\n";
    assert_eq!(parse_progress(content), WizardProgress::Resume(2));
}

#[test]
fn marker_lines_and_completion_roundtrip() {
    let mut content = String::from("v=2\n");
    content.push_str(&format_step_done_line(WizardStep::Welcome, "10"));
    assert_eq!(content, "v=2\nstep.welcome.done=10\n");
    assert_eq!(parse_progress(&content), WizardProgress::Resume(0));
    content.push_str(&format_complete_line("11"));
    assert_eq!(parse_progress(&content), WizardProgress::Complete);
    assert!(is_complete(Some(&content)));
    assert!(!is_complete(None));
}

#[test]
fn back_undoes_next_on_both_paths() {
    for provider in ["local-whisper", "soniox"] {
        let mut cur = 0usize;
        while cur < 7 {
            let nxt = compute_next_step_index(cur, provider);
            assert_eq!(compute_prev_step_index(nxt, provider), cur);
            cur = nxt;
        }
    }
}

#[test]
fn crlf_and_padding_lines_are_trimmed() {
    assert_eq!(parse_progress("  v=2 \r\n\tstep.audio.done=5\r\n"), WizardProgress::Resume(1));
}

#[test]
fn first_view_follows_recorded_progress() {
    assert_eq!(initial_view(WizardProgress::Complete), ("main", 0));
    assert_eq!(initial_view(WizardProgress::NotStarted), ("wizard", 0));
    assert_eq!(initial_view(WizardProgress::Resume(1)), ("wizard", 2));
    assert_eq!(initial_view(WizardProgress::Resume(6)), ("wizard", 7));
    assert_eq!(initial_view(WizardProgress::Resume(7)), ("wizard", 7));
}
