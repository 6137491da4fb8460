use aria_mobile_core::ai::{
    device_capability, to_insight, AiState, CallInsight,
    DeviceCapability, Download, DownloadState, InsightStatus, ModelAvailability, ModelKind,
    Platform, Segment, Speaker, Summary, Stage, Transcript,
};
use aria_mobile_core::table::TextMap;
use aria_mobile_core::types::{HttpFailure, MobileError, Moment};

fn entry(id: &str, kind: ModelKind, reason: Option<&str>) -> ModelAvailability {
    ModelAvailability {
        id: id.to_string(),
        display_name: format!("Model {}", id),
        kind,
        size_bytes: 42,
        available: reason.is_none(),
        reason: reason.map(|r| r.to_string()),
    }
}

fn state() -> AiState {
    AiState::new(true).ok().unwrap()
}

#[test]
fn catalogue_is_shown() {
    let installed = vec!["b".to_string()];
    let catalogue = vec![
        entry("a", ModelKind::Stt, Some("too little memory")),
        entry("b", ModelKind::Llm, None),
        entry("c", ModelKind::Vad, None),
    ];
    let shown = state().models(&installed, &catalogue);
    assert_eq!(shown.len(), 3);
    let kinds: Vec<&str> = shown.iter().map(|m| m.kind.as_str()).collect();
    assert_eq!(kinds, ["stt", "llm", "vad"]);
    let flags: Vec<bool> = shown.iter().map(|m| m.installed).collect();
    assert_eq!(flags, [false, true, false]);
    assert_eq!(shown[0].id, "a");
    assert_eq!(shown[0].display_name, "Model a");
    assert_eq!(shown[0].size_bytes, 42);
    assert!(!shown[0].available);
    assert_eq!(shown[0].unavailable_reason.as_deref(), Some("too little memory"));
    assert_eq!(shown[1].unavailable_reason, None);
}

#[test]
fn downloads_are_shown() {
    let states = vec![
        (DownloadState::Queued, "queued", None),
        (DownloadState::Running, "running", None),
        (DownloadState::Verifying, "verifying", None),
        (DownloadState::Completed, "completed", None),
        (DownloadState::Cancelled, "cancelled", None),
        (DownloadState::Failed("disk full".to_string()), "failed", Some("disk full")),
    ];
    for (progress, name, error) in states {
        let shown = state().download_progress(&Download {
            model_id: "m".to_string(),
            downloaded_bytes: 3,
            total_bytes: 10,
            state: progress,
        });
        assert_eq!(shown.model_id, "m");
        assert_eq!((shown.downloaded_bytes, shown.total_bytes), (3, 10));
        assert_eq!(shown.state, name);
        assert_eq!(shown.error.as_deref(), error);
    }
}

#[test]
fn failed_model_requests_are_refused() {
    assert_eq!(state().start_download(true), Ok(()));
    assert_eq!(state().start_download(false), Err(MobileError::InvalidState));
    assert_eq!(state().delete_model(true), Ok(()));
    assert_eq!(state().delete_model(false), Err(MobileError::InvalidState));
}

fn insight(status: InsightStatus) -> CallInsight {
    CallInsight {
        call_id: "c".to_string(),
        created_at: -5,
        duration_secs: 60,
        transcript: None,
        summary: None,
        status,
    }
}

#[test]
fn insight_without_results() {
    let shown = to_insight(&insight(InsightStatus::Pending));
    assert_eq!(shown.call_id, "c");
    assert_eq!((shown.created_at, shown.duration_secs), (-5, 60));
    assert!(shown.segments.is_empty() && shown.summary_points.is_empty());
    assert_eq!((shown.language, shown.summary_headline), (None, None));
    assert_eq!(shown.status, "pending");
}

#[test]
fn insight_with_results() {
    let mut i = insight(InsightStatus::Complete);
    i.transcript = Some(Transcript {
        segments: vec![
            Segment { speaker: Speaker::Local, start_ms: 0, end_ms: 5, text: "hi".to_string() },
            Segment { speaker: Speaker::Remote, start_ms: 6, end_ms: 9, text: "yo".to_string() },
        ],
        language: "en".to_string(),
    });
    i.summary = Some(Summary {
        headline: "Greeting".to_string(),
        key_points: vec!["p1".to_string(), "p2".to_string()],
    });
    let shown = to_insight(&i);
    assert_eq!(shown.segments.len(), 2);
    assert_eq!(shown.segments[0].speaker, "local");
    assert_eq!(shown.segments[1].speaker, "remote");
    assert_eq!((shown.segments[1].start_ms, shown.segments[1].end_ms), (6, 9));
    assert_eq!(shown.segments[1].text, "yo");
    assert_eq!(shown.language.as_deref(), Some("en"));
    assert_eq!(shown.summary_headline.as_deref(), Some("Greeting"));
    assert_eq!(shown.summary_points, ["p1", "p2"]);
    assert_eq!(shown.status, "complete");
}

#[test]
fn status_names() {
    for (status, name) in [
        (InsightStatus::Transcribing, "transcribing"),
        (InsightStatus::Summarizing, "summarizing"),
        (InsightStatus::TranscriptOnly, "transcript_only"),
        (InsightStatus::Failed, "failed"),
    ] {
        assert_eq!(to_insight(&insight(status)).status, name);
    }
}

#[test]
fn device_is_described_conservatively() {
    assert_eq!(
        device_capability(Platform::Ios, Some(6), true),
        DeviceCapability {
            platform: Platform::Ios,
            total_ram_mb: 4096,
            available_ram_mb: 2048,
            cpu_cores: 6,
            is_64bit: true,
            has_gpu_backend: true,
        }
    );
    let android = device_capability(Platform::Android, None, false);
    assert_eq!(android.cpu_cores, 4);
    assert!(!android.has_gpu_backend && !android.is_64bit);
    assert!(device_capability(Platform::MacOs, None, true).has_gpu_backend);
    assert_eq!(device_capability(Platform::Other, Some(usize::MAX), true).cpu_cores, 4);
}

#[test]
fn captures_by_call() {
    assert_eq!(AiState::new(false).err(), Some(MobileError::InvalidState));
    let mut s = state();
    assert_eq!(s.start_capture("a", None), Err(MobileError::InvalidState));
    assert_eq!(s.start_capture("a", Some(1)), Ok(1));
    assert_eq!(s.start_capture("a", Some(2)), Ok(2));
    assert_eq!(s.start_capture("b", Some(3)), Ok(3));
    assert_eq!(s.stop_capture("a"), Some(2));
    assert_eq!(s.stop_capture("a"), Some(2));
    assert_eq!(s.stop_capture("c"), None);
    assert_eq!(s.transcribe("a"), Ok(2));
    assert_eq!(s.transcribe("a"), Err(MobileError::InvalidState));
    assert_eq!(s.discard("b"), Some(3));
    assert_eq!(s.discard("b"), None);
}

fn work_through(fails: &[Stage]) -> (Vec<Stage>, Result<Stage, MobileError>) {
    let mut done = Vec::new();
    let mut stage = Stage::FindTranscriber;
    loop {
        if stage == Stage::Report {
            return (done, Ok(stage));
        }
        done.push(stage);
        match stage.next(!fails.contains(&stage)) {
            Ok(next) => stage = next,
            Err(e) => return (done, Err(e)),
        }
    }
}

#[test]
fn transcription_must_succeed_and_summary_may_fail() {
    let (done, end) = work_through(&[]);
    assert_eq!(done.len(), 6);
    assert_eq!(end, Ok(Stage::Report));
    for stage in [Stage::FindTranscriber, Stage::LoadTranscriber, Stage::Transcribe] {
        let (done, end) = work_through(&[stage]);
        assert_eq!(done.last(), Some(&stage));
        assert_eq!(end, Err(MobileError::InvalidState));
    }
    for stage in [Stage::FindSummarizer, Stage::LoadSummarizer, Stage::Summarize] {
        let (done, end) = work_through(&[stage]);
        assert_eq!(done.last(), Some(&stage));
        assert_eq!(end, Ok(Stage::Report));
    }
    assert_eq!(Stage::Report.next(false), Ok(Stage::Report));
}

#[test]
fn table_maps_texts() {
    let mut t: TextMap<u32> = TextMap::new();
    assert_eq!(t.len(), 0);
    t.insert("a".to_string(), 1);
    t.insert("b".to_string(), 2);
    t.insert("a".to_string(), 3);
    assert_eq!(t.len(), 2);
    assert_eq!(t.get("a"), Some(&3));
    assert!(t.contains("b") && !t.contains("c"));
    assert_eq!(t.remove("b"), Some(2));
    assert_eq!(t.remove("b"), None);
    assert_eq!(t.value_at(0), &3);
    assert_eq!(t.keys(), ["a"]);
    t.clear();
    assert_eq!(t.get("a"), None);
}

#[test]
fn errors_say_what_happened() {
    let messages = [
        (MobileError::NetworkError, "Network error"),
        (MobileError::AuthenticationError, "Authentication error"),
        (MobileError::RegistrationFailed, "Registration failed"),
        (MobileError::CallFailed, "Call failed"),
        (MobileError::MediaError, "Media error"),
        (MobileError::InvalidState, "Invalid state"),
        (MobileError::GatewayError, "Gateway error"),
        (MobileError::Timeout, "Timeout"),
    ];
    for (error, message) in messages {
        assert_eq!(error.message(), message);
    }
    assert_eq!(MobileError::from(HttpFailure { timed_out: true }), MobileError::Timeout);
    assert_eq!(MobileError::from(HttpFailure { timed_out: false }), MobileError::NetworkError);
}

#[test]
fn deadlines_reach_far() {
    assert_eq!(Moment { nanos: 5 }.after_secs(2).nanos, 2_000_000_005);
    assert_eq!(
        Moment { nanos: u64::MAX }.after_secs(u64::MAX).nanos,
        u64::MAX as u128 * 1_000_000_001
    );
}
