//! On-device AI: which captures there are, what happens to them, and how the
//! results look to the app.
//!
//! The speech and language models run outside this library. Audio, models and
//! capture sessions are named here by identifiers only.

use vstd::prelude::*;
use vstd::string::*;

use crate::table::TextMap;
use crate::text;
use crate::types;
use crate::types::MobileError;

verus! {

// ── Models ──────────────────────────────────────────────────────────────────

/// What a model does.
#[derive(Debug, Clone, Copy, PartialEq, Eq, Structural)]
pub enum ModelKind {
    /// Speech to text.
    Stt,
    /// Summaries.
    Llm,
    /// Voice activity detection.
    Vad,
}

/// A model of the catalogue, judged for this device.
#[derive(Debug)]
pub struct ModelAvailability {
    pub id: String,
    pub display_name: String,
    pub kind: ModelKind,
    pub size_bytes: u64,
    pub available: bool,
    pub reason: Option<String>,
}

/// A model as the app sees it.
#[derive(Debug)]
pub struct AiModel {
    pub id: String,
    pub display_name: String,
    pub kind: String,
    pub size_bytes: u64,
    pub available: bool,
    pub unavailable_reason: Option<String>,
    pub installed: bool,
}

/// Name of a model kind.
pub open spec fn kind_name(kind: ModelKind) -> Seq<char> {
    match kind {
        ModelKind::Stt => "stt"@,
        ModelKind::Llm => "llm"@,
        ModelKind::Vad => "vad"@,
    }
}

/// `id` is among the installed models.
pub open spec fn is_installed(installed: Seq<String>, id: Seq<char>) -> bool {
    exists|i: int| 0 <= i < installed.len() && (#[trigger] installed[i])@ == id
}

/// `model` shows `entry` of the catalogue.
pub open spec fn shows_model(
    model: AiModel,
    entry: ModelAvailability,
    installed: Seq<String>,
) -> bool {
    &&& model.id == entry.id
    &&& model.display_name == entry.display_name
    &&& model.kind@ == kind_name(entry.kind)
    &&& model.size_bytes == entry.size_bytes
    &&& model.available == entry.available
    &&& model.unavailable_reason == entry.reason
    &&& model.installed == is_installed(installed, entry.id@)
}

fn list_has(installed: &Vec<String>, id: &str) -> (r: bool)
    ensures
        r == is_installed(installed@, id@),
{
    let mut i: usize = 0;
    while i < installed.len()
        invariant
            i <= installed@.len(),
            forall|j: int| 0 <= j < i ==> (#[trigger] installed@[j])@ != id@,
        decreases installed@.len() - i,
    {
        if text::same_text(installed[i].as_str(), id) {
            assert(installed@[i as int]@ == id@);
            return true;
        }
        i = i + 1;
    }
    false
}

// ── Downloads ───────────────────────────────────────────────────────────────

/// How far a download has come.
#[derive(Debug)]
pub enum DownloadState {
    Queued,
    Running,
    Verifying,
    Completed,
    Cancelled,
    Failed(String),
}

/// A model download.
#[derive(Debug)]
pub struct Download {
    pub model_id: String,
    pub downloaded_bytes: u64,
    pub total_bytes: u64,
    pub state: DownloadState,
}

/// A model download as the app sees it.
#[derive(Debug)]
pub struct AiDownloadProgress {
    pub model_id: String,
    pub downloaded_bytes: u64,
    pub total_bytes: u64,
    pub state: String,
    pub error: Option<String>,
}

/// Name of a download state.
pub open spec fn state_name(state: DownloadState) -> Seq<char> {
    match state {
        DownloadState::Queued => "queued"@,
        DownloadState::Running => "running"@,
        DownloadState::Verifying => "verifying"@,
        DownloadState::Completed => "completed"@,
        DownloadState::Cancelled => "cancelled"@,
        DownloadState::Failed(_) => "failed"@,
    }
}

/// The reason for a failed download.
pub open spec fn failure_reason(state: DownloadState) -> Option<String> {
    match state {
        DownloadState::Failed(reason) => Some(reason),
        _ => None,
    }
}

// ── Insights ────────────────────────────────────────────────────────────────

/// Who said something.
#[derive(Debug, Clone, Copy, PartialEq, Eq, Structural)]
pub enum Speaker {
    Local,
    Remote,
}

/// A stretch of a transcript.
#[derive(Debug)]
pub struct Segment {
    pub speaker: Speaker,
    pub start_ms: u64,
    pub end_ms: u64,
    pub text: String,
}

/// What was said in a call.
#[derive(Debug)]
pub struct Transcript {
    pub segments: Vec<Segment>,
    pub language: String,
}

/// A summary of a call.
#[derive(Debug)]
pub struct Summary {
    pub headline: String,
    pub key_points: Vec<String>,
}

/// How far the work on a call has come.
#[derive(Debug, Clone, Copy, PartialEq, Eq, Structural)]
pub enum InsightStatus {
    Pending,
    Transcribing,
    Summarizing,
    Complete,
    TranscriptOnly,
    Failed,
}

/// What is known of a call.
#[derive(Debug)]
pub struct CallInsight {
    pub call_id: String,
    pub created_at: i64,
    pub duration_secs: u64,
    pub transcript: Option<Transcript>,
    pub summary: Option<Summary>,
    pub status: InsightStatus,
}

/// A stretch of a transcript as the app sees it.
#[derive(Debug)]
pub struct AiTranscriptSegment {
    pub speaker: String,
    pub start_ms: u64,
    pub end_ms: u64,
    pub text: String,
}

/// What is known of a call, as the app sees it.
#[derive(Debug)]
pub struct AiCallInsight {
    pub call_id: String,
    pub created_at: i64,
    pub duration_secs: u64,
    pub segments: Vec<AiTranscriptSegment>,
    pub language: Option<String>,
    pub summary_headline: Option<String>,
    pub summary_points: Vec<String>,
    pub status: String,
}

/// Name of a speaker.
pub open spec fn speaker_name(speaker: Speaker) -> Seq<char> {
    match speaker {
        Speaker::Local => "local"@,
        Speaker::Remote => "remote"@,
    }
}

/// Name of a status.
pub open spec fn status_name(status: InsightStatus) -> Seq<char> {
    match status {
        InsightStatus::Pending => "pending"@,
        InsightStatus::Transcribing => "transcribing"@,
        InsightStatus::Summarizing => "summarizing"@,
        InsightStatus::Complete => "complete"@,
        InsightStatus::TranscriptOnly => "transcript_only"@,
        InsightStatus::Failed => "failed"@,
    }
}

/// `shown` shows `segment`.
pub open spec fn shows_segment(shown: AiTranscriptSegment, segment: Segment) -> bool {
    &&& shown.speaker@ == speaker_name(segment.speaker)
    &&& shown.start_ms == segment.start_ms
    &&& shown.end_ms == segment.end_ms
    &&& shown.text == segment.text
}

/// `shown` shows all of `segments`, in the same order.
pub open spec fn shows_segments(shown: Seq<AiTranscriptSegment>, segments: Seq<Segment>) -> bool {
    &&& shown.len() == segments.len()
    &&& forall|i: int|
        0 <= i < shown.len() ==> shows_segment(#[trigger] shown[i], segments[i])
}

fn show_segments(segments: &Vec<Segment>) -> (r: Vec<AiTranscriptSegment>)
    ensures
        shows_segments(r@, segments@),
{
    let mut out: Vec<AiTranscriptSegment> = Vec::new();
    let mut i: usize = 0;
    while i < segments.len()
        invariant
            i <= segments@.len(),
            out@.len() == i,
            forall|j: int| 0 <= j < i ==> shows_segment(#[trigger] out@[j], segments@[j]),
        decreases segments@.len() - i,
    {
        let s = &segments[i];
        let speaker = match s.speaker {
            Speaker::Local => "local",
            Speaker::Remote => "remote",
        };
        out.push(
            AiTranscriptSegment {
                speaker: speaker.to_owned(),
                start_ms: s.start_ms,
                end_ms: s.end_ms,
                text: s.text.clone(),
            },
        );
        i = i + 1;
    }
    out
}

fn clone_texts(texts: &Vec<String>) -> (r: Vec<String>)
    ensures
        r@ == texts@,
{
    let mut out: Vec<String> = Vec::new();
    let mut i: usize = 0;
    while i < texts.len()
        invariant
            i <= texts@.len(),
            out@ == texts@.take(i as int),
        decreases texts@.len() - i,
    {
        out.push(texts[i].clone());
        assert(out@ =~= texts@.take(i + 1));
        i = i + 1;
    }
    assert(out@ =~= texts@);
    out
}

/// An insight as the app sees it. Without a transcript there are no segments
/// and no language, without a summary neither headline nor points.
pub fn to_insight(insight: &CallInsight) -> (r: AiCallInsight)
    ensures
        r.call_id == insight.call_id,
        r.created_at == insight.created_at,
        r.duration_secs == insight.duration_secs,
        r.status@ == status_name(insight.status),
        match insight.transcript {
            Some(t) => shows_segments(r.segments@, t.segments@) && r.language == Some(t.language),
            None => r.segments@.len() == 0 && r.language is None,
        },
        match insight.summary {
            Some(s) => r.summary_headline == Some(s.headline) && r.summary_points@
                == s.key_points@,
            None => r.summary_headline is None && r.summary_points@.len() == 0,
        },
{
    let (segments, language) = match &insight.transcript {
        Some(t) => (show_segments(&t.segments), Some(t.language.clone())),
        None => (Vec::new(), None),
    };
    let (summary_headline, summary_points) = match &insight.summary {
        Some(s) => (Some(s.headline.clone()), clone_texts(&s.key_points)),
        None => (None, Vec::new()),
    };
    let status = match insight.status {
        InsightStatus::Pending => "pending",
        InsightStatus::Transcribing => "transcribing",
        InsightStatus::Summarizing => "summarizing",
        InsightStatus::Complete => "complete",
        InsightStatus::TranscriptOnly => "transcript_only",
        InsightStatus::Failed => "failed",
    };
    AiCallInsight {
        call_id: insight.call_id.clone(),
        created_at: insight.created_at,
        duration_secs: insight.duration_secs,
        segments,
        language,
        summary_headline,
        summary_points,
        status: status.to_owned(),
    }
}

// ── Device ──────────────────────────────────────────────────────────────────

/// Operating system of the device.
#[derive(Debug, Clone, Copy, PartialEq, Eq, Structural)]
pub enum Platform {
    Ios,
    Android,
    MacOs,
    Other,
}

/// What the catalogue needs to know of the device to gate models that it
/// cannot run.
#[derive(Debug, Clone, Copy, PartialEq, Eq, Structural)]
pub struct DeviceCapability {
    pub platform: Platform,
    pub total_ram_mb: u64,
    pub available_ram_mb: u64,
    pub cpu_cores: u32,
    pub is_64bit: bool,
    pub has_gpu_backend: bool,
}

/// Memory that every supported device has, in MB. A conservative floor rather
/// than a guess: the host knows its real memory and can gate further, and
/// over-reporting here would offer the user a model their phone cannot load.
pub const RAM_FLOOR_MB: u64 = 4096;

/// Number of cores to assume where the device does not tell.
pub const ASSUMED_CORES: u32 = 4;

/// Describes the device. `parallelism` is the number of cores as the system
/// reports it.
pub fn device_capability(
    platform: Platform,
    parallelism: Option<usize>,
    is_64bit: bool,
) -> (r: DeviceCapability)
    ensures
        r == (DeviceCapability {
            platform,
            total_ram_mb: 4096,
            available_ram_mb: 2048,
            cpu_cores: match parallelism {
                Some(n) => if n <= u32::MAX {
                    n as u32
                } else {
                    4
                },
                None => 4,
            },
            is_64bit,
            has_gpu_backend: platform == Platform::Ios || platform == Platform::MacOs,
        }),
{
    let cpu_cores: u32 = match parallelism {
        Some(n) => if n <= u32::MAX as usize {
            n as u32
        } else {
            ASSUMED_CORES
        },
        None => ASSUMED_CORES,
    };
    DeviceCapability {
        platform,
        total_ram_mb: RAM_FLOOR_MB,
        available_ram_mb: RAM_FLOOR_MB / 2,
        cpu_cores,
        is_64bit,
        has_gpu_backend: platform == Platform::Ios || platform == Platform::MacOs,
    }
}

// ── Captures ────────────────────────────────────────────────────────────────

/// The AI engine's books: the capture session of each call that is being
/// recorded, or was and is not transcribed yet. Sessions are named by numbers.
pub struct AiState {
    sessions: TextMap<u64>,
}

impl View for AiState {
    type V = Map<Seq<char>, u64>;

    closed spec fn view(&self) -> Map<Seq<char>, u64> {
        self.sessions@
    }
}

impl AiState {
    /// No captures yet. `created` tells whether the AI engine could be set up.
    pub fn new(created: bool) -> (r: Result<AiState, MobileError>)
        ensures
            match r {
                Ok(state) => created && state@ == Map::<Seq<char>, u64>::empty(),
                Err(e) => !created && e == MobileError::InvalidState,
            },
    {
        if created {
            Ok(AiState { sessions: TextMap::new() })
        } else {
            Err(MobileError::InvalidState)
        }
    }

    /// The catalogue as the app sees it, in the same order.
    pub fn models(
        &self,
        installed: &Vec<String>,
        availability: &Vec<ModelAvailability>,
    ) -> (r: Vec<AiModel>)
        ensures
            r@.len() == availability@.len(),
            forall|i: int|
                0 <= i < r@.len() ==> shows_model(
                    #[trigger] r@[i],
                    availability@[i],
                    installed@,
                ),
    {
        let mut out: Vec<AiModel> = Vec::new();
        let mut i: usize = 0;
        while i < availability.len()
            invariant
                i <= availability@.len(),
                out@.len() == i,
                forall|j: int|
                    0 <= j < i ==> shows_model(#[trigger] out@[j], availability@[j], installed@),
            decreases availability@.len() - i,
        {
            let a = &availability[i];
            let kind = match a.kind {
                ModelKind::Stt => "stt",
                ModelKind::Llm => "llm",
                ModelKind::Vad => "vad",
            };
            out.push(
                AiModel {
                    id: a.id.clone(),
                    display_name: a.display_name.clone(),
                    kind: kind.to_owned(),
                    size_bytes: a.size_bytes,
                    available: a.available,
                    unavailable_reason: types::clone_text(&a.reason),
                    installed: list_has(installed, a.id.as_str()),
                },
            );
            i = i + 1;
        }
        out
    }

    /// Takes in whether a download could be started: not if the model is
    /// unknown.
    pub fn start_download(&self, started: bool) -> (r: Result<(), MobileError>)
        ensures
            r == if started {
                Ok::<(), MobileError>(())
            } else {
                Err::<(), MobileError>(MobileError::InvalidState)
            },
    {
        if started {
            Ok(())
        } else {
            Err(MobileError::InvalidState)
        }
    }

    /// A download as the app sees it.
    pub fn download_progress(&self, download: &Download) -> (r: AiDownloadProgress)
        ensures
            r.model_id == download.model_id,
            r.downloaded_bytes == download.downloaded_bytes,
            r.total_bytes == download.total_bytes,
            r.state@ == state_name(download.state),
            r.error == failure_reason(download.state),
    {
        let (state, error) = match &download.state {
            DownloadState::Queued => ("queued", None),
            DownloadState::Running => ("running", None),
            DownloadState::Verifying => ("verifying", None),
            DownloadState::Completed => ("completed", None),
            DownloadState::Cancelled => ("cancelled", None),
            DownloadState::Failed(reason) => ("failed", Some(reason.clone())),
        };
        AiDownloadProgress {
            model_id: download.model_id.clone(),
            downloaded_bytes: download.downloaded_bytes,
            total_bytes: download.total_bytes,
            state: state.to_owned(),
            error,
        }
    }

    /// Takes in whether a model could be deleted: not if it is unknown.
    pub fn delete_model(&self, deleted: bool) -> (r: Result<(), MobileError>)
        ensures
            r == if deleted {
                Ok::<(), MobileError>(())
            } else {
                Err::<(), MobileError>(MobileError::InvalidState)
            },
    {
        if deleted {
            Ok(())
        } else {
            Err(MobileError::InvalidState)
        }
    }

    /// Takes in a capture session for a call, `None` if it could not be
    /// started. A session that the call had before is forgotten.
    pub fn start_capture(&mut self, call_id: &str, session: Option<u64>) -> (r: Result<
        u64,
        MobileError,
    >)
        ensures
            match session {
                Some(s) => r == Ok::<u64, MobileError>(s) && final(self)@ == old(self)@.insert(
                    call_id@,
                    s,
                ),
                None => r == Err::<u64, MobileError>(MobileError::InvalidState) && final(self)@
                    == old(self)@,
            },
    {
        match session {
            Some(s) => {
                self.sessions.insert(call_id.to_owned(), s);
                Ok(s)
            },
            None => Err(MobileError::InvalidState),
        }
    }

    /// Stop capturing but keep the audio, so it can still be transcribed.
    /// Returns the session to stop, if there is one.
    pub fn stop_capture(&self, call_id: &str) -> (r: Option<u64>)
        ensures
            r == if self@.contains_key(call_id@) {
                Some(self@[call_id@])
            } else {
                None
            },
    {
        match self.sessions.get(call_id) {
            Some(s) => Some(*s),
            None => None,
        }
    }

    /// Throw away a capture without transcribing it. Returns the session to
    /// discard, if there is one.
    pub fn discard(&mut self, call_id: &str) -> (r: Option<u64>)
        ensures
            final(self)@ == old(self)@.remove(call_id@),
            r == if old(self)@.contains_key(call_id@) {
                Some(old(self)@[call_id@])
            } else {
                None
            },
    {
        self.sessions.remove(call_id)
    }

    /// Begin to transcribe a capture, which takes it out of the list. Returns
    /// the session to stop and transcribe.
    pub fn transcribe(&mut self, call_id: &str) -> (r: Result<u64, MobileError>)
        ensures
            final(self)@ == old(self)@.remove(call_id@),
            r == if old(self)@.contains_key(call_id@) {
                Ok::<u64, MobileError>(old(self)@[call_id@])
            } else {
                Err::<u64, MobileError>(MobileError::InvalidState)
            },
    {
        match self.sessions.remove(call_id) {
            Some(s) => Ok(s),
            None => Err(MobileError::InvalidState),
        }
    }
}

// ── Transcribing ────────────────────────────────────────────────────────────

/// The steps of transcribing and summarising a capture.
#[derive(Debug, Clone, Copy, PartialEq, Eq, Structural)]
pub enum Stage {
    /// Find the recommended speech-to-text model.
    FindTranscriber,
    /// Load it.
    LoadTranscriber,
    /// Run it on the capture.
    Transcribe,
    /// Find the recommended language model.
    FindSummarizer,
    /// Load it.
    LoadSummarizer,
    /// Run it on the transcript.
    Summarize,
    /// Hand the insight to the app.
    Report,
}

/// What follows a stage. Transcribing has to succeed. Summarisation is best
/// effort: a transcript with no summary is a first-class outcome, not a
/// failure, and the language model may simply not be installed.
pub open spec fn stage_after(stage: Stage, succeeded: bool) -> Result<Stage, MobileError> {
    match stage {
        Stage::FindTranscriber => if succeeded {
            Ok(Stage::LoadTranscriber)
        } else {
            Err(MobileError::InvalidState)
        },
        Stage::LoadTranscriber => if succeeded {
            Ok(Stage::Transcribe)
        } else {
            Err(MobileError::InvalidState)
        },
        Stage::Transcribe => if succeeded {
            Ok(Stage::FindSummarizer)
        } else {
            Err(MobileError::InvalidState)
        },
        Stage::FindSummarizer => if succeeded {
            Ok(Stage::LoadSummarizer)
        } else {
            Ok(Stage::Report)
        },
        Stage::LoadSummarizer => if succeeded {
            Ok(Stage::Summarize)
        } else {
            Ok(Stage::Report)
        },
        Stage::Summarize | Stage::Report => Ok(Stage::Report),
    }
}

impl Stage {
    /// What follows this stage.
    pub fn next(self, succeeded: bool) -> (r: Result<Stage, MobileError>)
        ensures
            r == stage_after(self, succeeded),
    {
        match (self, succeeded) {
            (Stage::FindTranscriber, true) => Ok(Stage::LoadTranscriber),
            (Stage::LoadTranscriber, true) => Ok(Stage::Transcribe),
            (Stage::Transcribe, true) => Ok(Stage::FindSummarizer),
            (Stage::FindTranscriber, false) => Err(MobileError::InvalidState),
            (Stage::LoadTranscriber, false) => Err(MobileError::InvalidState),
            (Stage::Transcribe, false) => Err(MobileError::InvalidState),
            (Stage::FindSummarizer, true) => Ok(Stage::LoadSummarizer),
            (Stage::LoadSummarizer, true) => Ok(Stage::Summarize),
            (Stage::FindSummarizer, false) => Ok(Stage::Report),
            (Stage::LoadSummarizer, false) => Ok(Stage::Report),
            (Stage::Summarize, _) => Ok(Stage::Report),
            (Stage::Report, _) => Ok(Stage::Report),
        }
    }
}

/// How many stages lie between `stage` and the report, at most.
pub open spec fn stages_left(stage: Stage) -> nat {
    match stage {
        Stage::FindTranscriber => 6,
        Stage::LoadTranscriber => 5,
        Stage::Transcribe => 4,
        Stage::FindSummarizer => 3,
        Stage::LoadSummarizer => 2,
        Stage::Summarize => 1,
        Stage::Report => 0,
    }
}

/// The outcome of working through the stages from `stage` on, when stage `t`
/// succeeds if `works(t)` does: a report (`true`) or an error (`false`).
pub open spec fn reports(stage: Stage, works: spec_fn(Stage) -> bool) -> bool
    decreases stages_left(stage),
{
    if stage == Stage::Report {
        true
    } else {
        match stage_after(stage, works(stage)) {
            Ok(next) => reports(next, works),
            Err(_) => false,
        }
    }
}

/// A capture is reported exactly if it could be transcribed; whether it could
/// be summarised makes no difference.
pub proof fn summaries_are_optional(works: spec_fn(Stage) -> bool)
    ensures
        reports(Stage::FindTranscriber, works) == (works(Stage::FindTranscriber) && works(
            Stage::LoadTranscriber,
        ) && works(Stage::Transcribe)),
{
    reveal_with_fuel(reports, 7);
}

/// The stages in which everything succeeds follow one another, from finding the
/// transcriber to the report. A failure before the transcript is there is an
/// error; one behind it leads to the report without a summary.
pub proof fn stages_follow_one_another()
    ensures
        stage_after(Stage::FindTranscriber, true) == Ok::<Stage, MobileError>(
            Stage::LoadTranscriber,
        ),
        stage_after(Stage::LoadTranscriber, true) == Ok::<Stage, MobileError>(Stage::Transcribe),
        stage_after(Stage::Transcribe, true) == Ok::<Stage, MobileError>(Stage::FindSummarizer),
        stage_after(Stage::FindSummarizer, true) == Ok::<Stage, MobileError>(
            Stage::LoadSummarizer,
        ),
        stage_after(Stage::LoadSummarizer, true) == Ok::<Stage, MobileError>(Stage::Summarize),
        forall|works: bool| #[trigger]
            stage_after(Stage::Summarize, works) == Ok::<Stage, MobileError>(Stage::Report),
        forall|works: bool| #[trigger]
            stage_after(Stage::Report, works) == Ok::<Stage, MobileError>(Stage::Report),
        forall|stage: Stage|
            stage == Stage::FindTranscriber || stage == Stage::LoadTranscriber || stage
                == Stage::Transcribe ==> #[trigger] stage_after(stage, false) == Err::<
                Stage,
                MobileError,
            >(MobileError::InvalidState),
        forall|stage: Stage|
            stage == Stage::FindSummarizer || stage == Stage::LoadSummarizer ==> #[trigger]
                stage_after(stage, false) == Ok::<Stage, MobileError>(Stage::Report),
{
}

/// Each kind of model, state of a download, speaker and status has its own
/// name.
pub proof fn names_are_told_apart(
    kind: ModelKind,
    state: DownloadState,
    speaker: Speaker,
    status: InsightStatus,
)
    ensures
        kind_name(kind) == "stt"@ <==> kind == ModelKind::Stt,
        kind_name(kind) == "llm"@ <==> kind == ModelKind::Llm,
        kind_name(kind) == "vad"@ <==> kind == ModelKind::Vad,
        state_name(state) == "queued"@ <==> state is Queued,
        state_name(state) == "running"@ <==> state is Running,
        state_name(state) == "verifying"@ <==> state is Verifying,
        state_name(state) == "completed"@ <==> state is Completed,
        state_name(state) == "cancelled"@ <==> state is Cancelled,
        state_name(state) == "failed"@ <==> state is Failed,
        speaker_name(speaker) == "local"@ <==> speaker == Speaker::Local,
        speaker_name(speaker) == "remote"@ <==> speaker == Speaker::Remote,
        status_name(status) == "pending"@ <==> status == InsightStatus::Pending,
        status_name(status) == "transcribing"@ <==> status == InsightStatus::Transcribing,
        status_name(status) == "summarizing"@ <==> status == InsightStatus::Summarizing,
        status_name(status) == "complete"@ <==> status == InsightStatus::Complete,
        status_name(status) == "transcript_only"@ <==> status == InsightStatus::TranscriptOnly,
        status_name(status) == "failed"@ <==> status == InsightStatus::Failed,
{
    reveal_strlit("stt");
    reveal_strlit("llm");
    reveal_strlit("vad");
    assert("stt"@[0] == 's' && "llm"@[0] == 'l' && "vad"@[0] == 'v');
    reveal_strlit("queued");
    reveal_strlit("running");
    reveal_strlit("verifying");
    reveal_strlit("completed");
    reveal_strlit("cancelled");
    reveal_strlit("failed");
    assert("queued"@[0] == 'q' && "running"@[0] == 'r' && "verifying"@[0] == 'v');
    assert("completed"@[1] == 'o' && "cancelled"@[1] == 'a' && "failed"@[0] == 'f');
    assert("completed"@[0] == 'c' && "cancelled"@[0] == 'c');
    reveal_strlit("local");
    reveal_strlit("remote");
    assert("local"@[0] == 'l' && "remote"@[0] == 'r');
    reveal_strlit("pending");
    reveal_strlit("transcribing");
    reveal_strlit("summarizing");
    reveal_strlit("complete");
    reveal_strlit("transcript_only");
    assert("pending"@[0] == 'p' && "summarizing"@[0] == 's' && "complete"@[0] == 'c');
    assert("transcribing"@[0] == 't' && "transcript_only"@[0] == 't');
    assert("transcribing"@.len() != "transcript_only"@.len());
}

/// A download that failed shows why, and no other one does.
pub proof fn only_failures_have_reasons(state: DownloadState, reason: String)
    ensures
        failure_reason(DownloadState::Failed(reason)) == Some(reason),
        state !is Failed ==> failure_reason(state) is None,
{
}

/// A model is shown with all that the catalogue says of it, and as installed
/// exactly if its identifier is among the installed ones.
pub proof fn models_are_shown_as_catalogued(
    model: AiModel,
    entry: ModelAvailability,
    installed: Seq<String>,
)
    requires
        shows_model(model, entry, installed),
    ensures
        model.id@ == entry.id@,
        model.display_name@ == entry.display_name@,
        model.size_bytes == entry.size_bytes,
        model.available == entry.available,
        model.unavailable_reason == entry.reason,
        model.kind@ == "stt"@ <==> entry.kind == ModelKind::Stt,
        model.kind@ == "llm"@ <==> entry.kind == ModelKind::Llm,
        model.kind@ == "vad"@ <==> entry.kind == ModelKind::Vad,
        model.installed <==> exists|i: int|
            0 <= i < installed.len() && (#[trigger] installed[i])@ == entry.id@,
{
    names_are_told_apart(
        entry.kind,
        DownloadState::Queued,
        Speaker::Local,
        InsightStatus::Pending,
    );
}

/// A transcript is shown whole and in order, each stretch with its speaker, its
/// times and its text.
pub proof fn transcripts_are_shown_whole(
    shown: Seq<AiTranscriptSegment>,
    segments: Seq<Segment>,
    i: int,
)
    requires
        shows_segments(shown, segments),
        0 <= i < segments.len(),
    ensures
        shown.len() == segments.len(),
        shown[i].speaker@ == "local"@ <==> segments[i].speaker == Speaker::Local,
        shown[i].speaker@ == "remote"@ <==> segments[i].speaker == Speaker::Remote,
        shown[i].start_ms == segments[i].start_ms,
        shown[i].end_ms == segments[i].end_ms,
        shown[i].text@ == segments[i].text@,
{
    assert(shows_segment(shown[i], segments[i]));
    names_are_told_apart(
        ModelKind::Stt,
        DownloadState::Queued,
        segments[i].speaker,
        InsightStatus::Pending,
    );
}

} // verus!
