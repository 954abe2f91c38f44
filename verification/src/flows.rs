//! What the extension does, turn by turn: where it stands in a piece of work,
//! and what each reply of the host leads to.
use vstd::prelude::*;

use crate::host::{
    ColorRgb, EffectView, NextView, NotifyLevel, QueryView, ReplyView, StemView, TrackAudioView,
};
use crate::panel::UiAction;

verus! {

/// Where the weights of the model, for four stems, are downloaded from.
pub const MODEL_URL: &'static str =
    "https://huggingface.co/smank/htdemucs-safetensors/resolve/main/htdemucs.safetensors";

/// The rate, in samples per second, of the audio that the model was trained
/// on.
pub const MODEL_SAMPLE_RATE: u32 = 44_100;

/// The file, in the extension's storage, that holds the model.
pub const MODEL_PATH: &'static str = "htdemucs.safetensors";

/// The name of the extension's panel.
pub const PANEL_ID: &'static str = "dawai.demucs";

/// What a piece of work was started by.
#[derive(Clone, Copy, Debug, PartialEq, Eq, Structural)]
pub enum Origin {
    /// A command.
    Command,
    /// A button of the panel.
    Panel,
}

/// What is left to do when the stems are there.
pub struct StemJobView {
    pub origin: Origin,
    pub start_time: u64,
    pub progress: Seq<char>,
    pub sample_rate: u32,
    pub stems: Seq<StemView>,
}

/// Where the extension stands, by the reply that it waits for.
pub enum FlowView {
    /// Nothing is going on.
    Idle,
    /// Activation: whether the model is there.
    ActivateCheck,
    /// Download: whether the model is there already.
    DownloadCheck { origin: Origin },
    /// Download: the file.
    DownloadFetch { origin: Origin },
    /// Load button: whether the model has to be downloaded.
    PanelCheck,
    /// Load: whether the model is there.
    LoadCheck { origin: Origin },
    /// Load: its bytes.
    LoadRead { origin: Origin },
    /// Separate button: which track is selected.
    SelectTrack,
    /// Separation: the progress display.
    ShowProgress { origin: Origin, track: Seq<char>, start_time: u64 },
    /// Separation: the audio of the track.
    ReadAudio { origin: Origin, start_time: u64, progress: Seq<char> },
    /// Separation: the decoded model.
    Decode {
        origin: Origin,
        start_time: u64,
        progress: Seq<char>,
        left: Seq<u32>,
        right: Seq<u32>,
        sample_rate: u32,
    },
    /// Separation: the stems.
    Infer { origin: Origin, start_time: u64, progress: Seq<char>, sample_rate: u32 },
    /// Separation: the file of a stem.
    StemFile { job: StemJobView, index: nat },
    /// Separation: the track of a stem, whose file is at `path`.
    StemTrack { job: StemJobView, index: nat, path: Seq<char> },
    /// Separation: the clip of a stem.
    StemClip { job: StemJobView, index: nat },
    /// Tensor check: the sums.
    SmokeRun,
    /// Tensor check: the sums as JSON.
    SmokeText,
}

/// The outcome of one turn: the model's bytes that are kept, what the host is
/// told, what comes behind that, and where the extension then stands.
pub struct Step {
    pub model: Option<Seq<u8>>,
    pub effects: Seq<EffectView>,
    pub next: NextView,
    pub flow: FlowView,
}

/// A turn that ends in a query.
pub open spec fn ask(
    model: Option<Seq<u8>>,
    effects: Seq<EffectView>,
    query: QueryView,
    flow: FlowView,
) -> Step {
    Step { model, effects, next: NextView::Ask(query), flow }
}

/// A turn that ends the work.
pub open spec fn finish(
    model: Option<Seq<u8>>,
    effects: Seq<EffectView>,
    outcome: Result<Seq<char>, Seq<char>>,
) -> Step {
    Step { model, effects, next: NextView::Finish(outcome), flow: FlowView::Idle }
}

/// A notification.
pub open spec fn notice(level: NotifyLevel, text: Seq<char>) -> EffectView {
    EffectView::Notify { level, text }
}

/// A change of a widget.
pub open spec fn widget(widget: Seq<char>, state: Seq<char>) -> EffectView {
    EffectView::UpdateWidget { widget, state }
}

/// No effects.
pub open spec fn quiet() -> Seq<EffectView> {
    Seq::empty()
}

/// Whether the host's reply says that a file exists; a failure says that it
/// does not.
pub open spec fn says_exists(reply: Result<Seq<char>, Seq<char>>) -> bool {
    reply == Ok::<Seq<char>, Seq<char>>("true"@)
}

/// The query whether the model is there.
pub open spec fn model_query() -> QueryView {
    QueryView::FileExists { path: MODEL_PATH@ }
}

// Download.
/// Starts a download.
pub open spec fn download_begun(
    model: Option<Seq<u8>>,
    origin: Origin,
    effects: Seq<EffectView>,
) -> Step {
    ask(model, effects, model_query(), FlowView::DownloadCheck { origin })
}

/// Goes on once it is known whether the model is there.
pub open spec fn download_checked(model: Option<Seq<u8>>, origin: Origin, exists: bool) -> Step {
    if exists {
        downloaded(model, origin, Ok("Model already downloaded"@))
    } else {
        ask(
            model,
            quiet().push(notice(NotifyLevel::Info, "Downloading HTDemucs model..."@)),
            QueryView::DownloadFile { url: MODEL_URL@, path: MODEL_PATH@ },
            FlowView::DownloadFetch { origin },
        )
    }
}

/// Ends a download: the load button goes on to load, or offers to try again.
pub open spec fn downloaded(
    model: Option<Seq<u8>>,
    origin: Origin,
    outcome: Result<Seq<char>, Seq<char>>,
) -> Step {
    match (origin, outcome) {
        (Origin::Command, _) => finish(model, quiet(), outcome),
        (Origin::Panel, Ok(_)) => load_begun(model, origin, quiet()),
        (Origin::Panel, Err(_)) => finish(
            model,
            quiet().push(
                widget(
                    "load_model"@,
                    crate::panel::button_json("Download & Load Model"@, true),
                ),
            ),
            outcome,
        ),
    }
}

// Load.
/// Starts loading.
pub open spec fn load_begun(
    model: Option<Seq<u8>>,
    origin: Origin,
    effects: Seq<EffectView>,
) -> Step {
    ask(model, effects, model_query(), FlowView::LoadCheck { origin })
}

/// Goes on once it is known whether the model is there.
pub open spec fn load_checked(model: Option<Seq<u8>>, origin: Origin, exists: bool) -> Step {
    if exists {
        ask(
            model,
            quiet().push(notice(NotifyLevel::Info, "Loading model bytes..."@)),
            QueryView::ReadBytes { path: MODEL_PATH@ },
            FlowView::LoadRead { origin },
        )
    } else {
        loaded(model, origin, quiet(), Err("Model file not found. Please download first."@))
    }
}

/// What is shown when the model has been loaded.
pub open spec fn loaded_effects() -> Seq<EffectView> {
    quiet().push(notice(NotifyLevel::Success, "Model loaded successfully"@)).push(
        widget("separate"@, crate::panel::enabled_json(true)),
    ).push(widget("load_model"@, crate::panel::button_json("Model Loaded"@, false)))
}

/// Goes on with the bytes of the model, which are kept from now on.
pub open spec fn load_read(
    model: Option<Seq<u8>>,
    origin: Origin,
    reply: Result<Seq<u8>, Seq<char>>,
) -> Step {
    match reply {
        Ok(bytes) => loaded(
            Some(bytes),
            origin,
            loaded_effects(),
            Ok("Model bytes cached in extension"@),
        ),
        Err(e) => loaded(model, origin, quiet(), Err("Failed to read model bytes: "@ + e)),
    }
}

/// Ends loading: the load button tells how it went.
pub open spec fn loaded(
    model: Option<Seq<u8>>,
    origin: Origin,
    effects: Seq<EffectView>,
    outcome: Result<Seq<char>, Seq<char>>,
) -> Step {
    match (origin, outcome) {
        (Origin::Command, _) => finish(model, effects, outcome),
        (Origin::Panel, Ok(_)) => finish(
            model,
            effects.push(notice(NotifyLevel::Success, "Model loaded and ready"@)),
            outcome,
        ),
        (Origin::Panel, Err(e)) => finish(
            model,
            effects.push(
                widget("load_model"@, crate::panel::button_json("Retry Load"@, true)),
            ).push(notice(NotifyLevel::Error, "Load failed: "@ + e)),
            outcome,
        ),
    }
}

// Separation.
/// Starts a separation from the arguments of its command. It is refused where
/// they cannot be read and where no model has been loaded.
pub open spec fn separation_begun(
    model: Option<Seq<u8>>,
    origin: Origin,
    effects: Seq<EffectView>,
    request: Result<(Seq<char>, u64), Seq<char>>,
) -> Step {
    match request {
        Err(e) => separated(model, origin, effects, Err(e)),
        Ok((track, start_time)) => if model is None {
            separated(
                model,
                origin,
                effects,
                Err("Model not loaded. Click 'Load Model' first."@),
            )
        } else {
            ask(
                model,
                effects,
                QueryView::ShowProgress { text: "Separating stems..."@, cancellable: true },
                FlowView::ShowProgress { origin, track, start_time },
            )
        },
    }
}

/// Goes on once the progress display is up; it has no name where that failed.
pub open spec fn progress_shown(
    model: Option<Seq<u8>>,
    origin: Origin,
    track: Seq<char>,
    start_time: u64,
    reply: Result<Seq<char>, Seq<char>>,
) -> Step {
    ask(
        model,
        quiet(),
        QueryView::TrackAudio { track },
        FlowView::ReadAudio {
            origin,
            start_time,
            progress: match reply {
                Ok(id) => id,
                Err(_) => Seq::empty(),
            },
        },
    )
}

/// Goes on with the audio of the track; one channel serves as both.
pub open spec fn audio_read(
    model: Option<Seq<u8>>,
    origin: Origin,
    start_time: u64,
    progress: Seq<char>,
    reply: Result<TrackAudioView, Seq<char>>,
) -> Step {
    match reply {
        Err(e) => separated(model, origin, quiet(), Err("Failed to read audio: "@ + e)),
        Ok(audio) => if audio.channels.len() == 0 {
            separated(model, origin, quiet(), Err("No audio channels returned"@))
        } else {
            ask(
                model,
                quiet().push(
                    EffectView::UpdateProgress {
                        id: progress,
                        text: "Decoding model weights..."@,
                        percent: 5,
                    },
                ),
                QueryView::DecodeModel {
                    bytes: match model {
                        Some(bytes) => bytes,
                        None => Seq::empty(),
                    },
                },
                FlowView::Decode {
                    origin,
                    start_time,
                    progress,
                    left: audio.channels[0],
                    right: if audio.channels.len() > 1 {
                        audio.channels[1]
                    } else {
                        audio.channels[0]
                    },
                    sample_rate: audio.sample_rate,
                },
            )
        },
    }
}

/// Goes on once the model is decoded.
pub open spec fn model_decoded(
    model: Option<Seq<u8>>,
    origin: Origin,
    start_time: u64,
    progress: Seq<char>,
    left: Seq<u32>,
    right: Seq<u32>,
    sample_rate: u32,
    reply: Result<(), Seq<char>>,
) -> Step {
    match reply {
        Err(e) => separated(model, origin, quiet(), Err("Decode model: "@ + e)),
        Ok(()) => ask(
            model,
            quiet().push(
                EffectView::UpdateProgress {
                    id: progress,
                    text: "Running inference..."@,
                    percent: 15,
                },
            ),
            QueryView::Separate { left, right, sample_rate },
            FlowView::Infer { origin, start_time, progress, sample_rate },
        ),
    }
}

/// Goes on with the stems.
pub open spec fn stems_given(
    model: Option<Seq<u8>>,
    origin: Origin,
    start_time: u64,
    progress: Seq<char>,
    sample_rate: u32,
    reply: Result<Seq<StemView>, Seq<char>>,
) -> Step {
    match reply {
        Err(e) => separated(model, origin, quiet(), Err("Separation: "@ + e)),
        Ok(stems) => next_stem(
            model,
            StemJobView { origin, start_time, progress, sample_rate, stems },
            0,
            quiet().push(
                EffectView::UpdateProgress {
                    id: progress,
                    text: "Writing stems..."@,
                    percent: 90,
                },
            ),
        ),
    }
}

/// The name of a stem, by its place.
pub open spec fn stem_label(index: nat) -> Seq<char> {
    if index == 0 {
        "drums"@
    } else if index == 1 {
        "bass"@
    } else if index == 2 {
        "vocals"@
    } else if index == 3 {
        "other"@
    } else {
        "stem"@
    }
}

/// The colour of a stem, by its place.
pub open spec fn stem_color(index: nat) -> ColorRgb {
    if index == 0 {
        ColorRgb { r: 220, g: 80, b: 80 }
    } else if index == 1 {
        ColorRgb { r: 80, g: 140, b: 220 }
    } else if index == 2 {
        ColorRgb { r: 220, g: 180, b: 80 }
    } else if index == 3 {
        ColorRgb { r: 140, g: 200, b: 140 }
    } else {
        ColorRgb { r: 180, g: 180, b: 180 }
    }
}

/// The WAV file of a stem.
pub open spec fn stem_file(stem: StemView, sample_rate: u32) -> Seq<u8> {
    let samples = crate::wav::interleaved(stem.left, stem.right);
    crate::wav::wav_header(2, sample_rate, samples.len()) + crate::wav::words_bytes(samples)
}

/// Goes on with the next stem, or ends where there is none.
pub open spec fn next_stem(
    model: Option<Seq<u8>>,
    job: StemJobView,
    index: nat,
    effects: Seq<EffectView>,
) -> Step {
    if index < job.stems.len() {
        ask(
            model,
            effects,
            QueryView::WriteBytes {
                path: "stems/"@ + stem_label(index) + ".wav"@,
                bytes: stem_file(job.stems[index as int], job.sample_rate),
            },
            FlowView::StemFile { job, index },
        )
    } else {
        separated(
            model,
            job.origin,
            effects.push(
                EffectView::CompleteProgress {
                    id: job.progress,
                    text: "Stem separation complete"@,
                },
            ),
            Ok("Separated into "@ + crate::text::decimal(job.stems.len()) + " stems"@),
        )
    }
}

/// Goes on once the file of a stem is written.
pub open spec fn stem_written(
    model: Option<Seq<u8>>,
    job: StemJobView,
    index: nat,
    reply: Result<Seq<char>, Seq<char>>,
) -> Step {
    match reply {
        Err(e) => separated(model, job.origin, quiet(), Err("Write stem: "@ + e)),
        Ok(path) => ask(
            model,
            quiet(),
            QueryView::AddTrack {
                name: "stem ("@ + stem_label(index) + ")"@,
                color: stem_color(index),
                volume_percent: 100,
                pan_percent: 0,
                muted: false,
                soloed: false,
            },
            FlowView::StemTrack { job, index, path },
        ),
    }
}

/// Goes on once the track of a stem is there.
pub open spec fn stem_track_added(
    model: Option<Seq<u8>>,
    job: StemJobView,
    index: nat,
    path: Seq<char>,
    reply: Result<Seq<char>, Seq<char>>,
) -> Step {
    match reply {
        Err(e) => separated(model, job.origin, quiet(), Err("Add stem track: "@ + e)),
        Ok(track) => ask(
            model,
            quiet(),
            QueryView::AddClip {
                track,
                name: stem_label(index),
                start_time: job.start_time,
                length_beats: 0,
                sample_path: path,
                playback_percent: 100,
                loop_enabled: false,
                loop_start: 0,
                loop_end: 0,
            },
            FlowView::StemClip { job, index },
        ),
    }
}

/// Goes on once the clip of a stem is there.
pub open spec fn stem_clip_added(
    model: Option<Seq<u8>>,
    job: StemJobView,
    index: nat,
    reply: Result<Seq<char>, Seq<char>>,
) -> Step {
    match reply {
        Err(e) => separated(model, job.origin, quiet(), Err("Add stem clip: "@ + e)),
        Ok(_) => next_stem(model, job, index + 1, quiet()),
    }
}

/// Ends a separation: the separate button tells how it went.
pub open spec fn separated(
    model: Option<Seq<u8>>,
    origin: Origin,
    effects: Seq<EffectView>,
    outcome: Result<Seq<char>, Seq<char>>,
) -> Step {
    match (origin, outcome) {
        (Origin::Command, _) => finish(model, effects, outcome),
        (Origin::Panel, Ok(message)) => finish(
            model,
            effects.push(notice(NotifyLevel::Success, message)),
            outcome,
        ),
        (Origin::Panel, Err(e)) => finish(
            model,
            effects.push(notice(NotifyLevel::Error, "Separation failed: "@ + e)),
            outcome,
        ),
    }
}

/// The separate button goes on once it knows which track is selected.
pub open spec fn track_selected(
    model: Option<Seq<u8>>,
    reply: Result<Option<Seq<char>>, Seq<char>>,
) -> Step {
    match reply {
        Ok(Some(track)) => separation_begun(
            model,
            Origin::Panel,
            quiet().push(notice(NotifyLevel::Info, "Separating track "@ + track + "..."@)),
            crate::panel::requested(crate::panel::separate_args_json(track)),
        ),
        Ok(None) => finish(
            model,
            quiet().push(
                notice(
                    NotifyLevel::Error,
                    "No track selected. Select an audio track first."@,
                ),
            ),
            Ok(""@),
        ),
        Err(e) => finish(
            model,
            quiet().push(notice(NotifyLevel::Error, "Failed to get selection: "@ + e)),
            Err(e),
        ),
    }
}

// Tensor check.
/// Asks for one to be added to one, two and three, as single-precision
/// numbers.
pub open spec fn smoke_begun(model: Option<Seq<u8>>) -> Step {
    ask(
        model,
        quiet(),
        QueryView::AddScalar {
            values: seq![0x3f80_0000u32, 0x4000_0000u32, 0x4040_0000u32],
            addend: 0x3f80_0000u32,
        },
        FlowView::SmokeRun,
    )
}

/// The words of a run of bytes, four bytes each, the lowest first.
pub open spec fn words_in(bytes: Seq<u8>) -> Seq<u32> {
    Seq::new(
        bytes.len() / 4,
        |i: int|
            crate::wav::word_of(
                bytes[4 * i],
                bytes[4 * i + 1],
                bytes[4 * i + 2],
                bytes[4 * i + 3],
            ) as u32,
    )
}

/// Goes on with the bytes of the sums.
pub open spec fn smoke_run(model: Option<Seq<u8>>, reply: Result<Seq<u8>, Seq<char>>) -> Step {
    match reply {
        Err(e) => finish(model, quiet(), Err("read tensor: "@ + e)),
        Ok(bytes) => ask(
            model,
            quiet(),
            QueryView::NumbersJson { words: words_in(bytes) },
            FlowView::SmokeText,
        ),
    }
}

/// Ends the tensor check.
pub open spec fn smoke_written(
    model: Option<Seq<u8>>,
    reply: Result<Seq<char>, Seq<char>>,
) -> Step {
    match reply {
        Err(e) => finish(model, quiet(), Err("serialize burn_smoke: "@ + e)),
        Ok(text) => finish(model, quiet(), Ok(text)),
    }
}

// Beginnings.
/// Activation.
pub open spec fn activated(model: Option<Seq<u8>>, exists: bool) -> Step {
    finish(
        model,
        if exists {
            quiet().push(
                widget("load_model"@, crate::panel::button_json("Load Model"@, true)),
            ).push(
                widget(
                    "model_progress"@,
                    crate::panel::progress_json("1.0"@, "Model downloaded"@),
                ),
            )
        } else {
            quiet()
        },
        Ok("demucs extension activated"@),
    )
}

/// The load button goes on once it knows whether to download first.
pub open spec fn panel_checked(model: Option<Seq<u8>>, exists: bool) -> Step {
    if exists {
        load_begun(model, Origin::Panel, quiet())
    } else {
        download_begun(
            model,
            Origin::Panel,
            quiet().push(
                widget(
                    "model_progress"@,
                    crate::panel::progress_json("0.1"@, "Downloading..."@),
                ),
            ),
        )
    }
}

/// What a command starts.
pub open spec fn commanded(
    model: Option<Seq<u8>>,
    command_id: Seq<char>,
    args: Seq<char>,
) -> Step {
    if command_id == "demucs.download"@ {
        download_begun(model, Origin::Command, quiet())
    } else if command_id == "demucs.load"@ {
        load_begun(model, Origin::Command, quiet())
    } else if command_id == "demucs.separate"@ {
        separation_begun(model, Origin::Command, quiet(), crate::panel::requested(args))
    } else if command_id == "demucs.burn_smoke"@ {
        smoke_begun(model)
    } else {
        finish(model, quiet(), Err("Unknown command: "@ + command_id))
    }
}

/// What an action of the user starts.
pub open spec fn action_taken(
    model: Option<Seq<u8>>,
    action: Result<UiAction, Seq<char>>,
) -> Step {
    match action {
        Err(e) => finish(model, quiet(), Err(e)),
        Ok(UiAction::LoadModel) => ask(
            model,
            quiet().push(
                widget("load_model"@, crate::panel::button_json("Loading..."@, false)),
            ),
            model_query(),
            FlowView::PanelCheck,
        ),
        Ok(UiAction::Separate) => ask(
            model,
            quiet(),
            QueryView::SelectedTrack,
            FlowView::SelectTrack,
        ),
        Ok(UiAction::Other) => finish(model, quiet(), Ok(""@)),
    }
}

/// What an event starts; only events of the panel matter.
pub open spec fn notified(
    model: Option<Seq<u8>>,
    event_type: Seq<char>,
    data: Seq<char>,
) -> Step {
    if event_type != "ui"@ {
        finish(model, quiet(), Ok(""@))
    } else {
        action_taken(model, crate::panel::acted(data))
    }
}

// Replies.
/// Whether `reply` is of the kind that `flow` waits for.
pub open spec fn answers(flow: FlowView, reply: ReplyView) -> bool {
    match flow {
        FlowView::Idle => false,
        FlowView::LoadRead { .. } | FlowView::SmokeRun => reply is Bytes,
        FlowView::SelectTrack => reply is Track,
        FlowView::ReadAudio { .. } => reply is Audio,
        FlowView::Decode { .. } => reply is Decoded,
        FlowView::Infer { .. } => reply is Stems,
        _ => reply is Text,
    }
}

/// What a reply leads to.
pub open spec fn resumed(model: Option<Seq<u8>>, flow: FlowView, reply: ReplyView) -> Step {
    match (flow, reply) {
        (FlowView::ActivateCheck, ReplyView::Text(r)) => activated(model, says_exists(r)),
        (FlowView::DownloadCheck { origin }, ReplyView::Text(r)) => download_checked(
            model,
            origin,
            says_exists(r),
        ),
        (FlowView::DownloadFetch { origin }, ReplyView::Text(r)) => downloaded(
            model,
            origin,
            match r {
                Ok(_) => Ok("Model downloaded"@),
                Err(e) => Err(e),
            },
        ),
        (FlowView::PanelCheck, ReplyView::Text(r)) => panel_checked(model, says_exists(r)),
        (FlowView::LoadCheck { origin }, ReplyView::Text(r)) => load_checked(
            model,
            origin,
            says_exists(r),
        ),
        (FlowView::LoadRead { origin }, ReplyView::Bytes(r)) => load_read(model, origin, r),
        (FlowView::SelectTrack, ReplyView::Track(r)) => track_selected(model, r),
        (FlowView::ShowProgress { origin, track, start_time }, ReplyView::Text(r)) =>
            progress_shown(model, origin, track, start_time, r),
        (FlowView::ReadAudio { origin, start_time, progress }, ReplyView::Audio(r)) => audio_read(
            model,
            origin,
            start_time,
            progress,
            r,
        ),
        (
            FlowView::Decode { origin, start_time, progress, left, right, sample_rate },
            ReplyView::Decoded(r),
        ) => model_decoded(
            model,
            origin,
            start_time,
            progress,
            left,
            right,
            sample_rate,
            r,
        ),
        (FlowView::Infer { origin, start_time, progress, sample_rate }, ReplyView::Stems(r)) =>
            stems_given(model, origin, start_time, progress, sample_rate, r),
        (FlowView::StemFile { job, index }, ReplyView::Text(r)) => stem_written(
            model,
            job,
            index,
            r,
        ),
        (FlowView::StemTrack { job, index, path }, ReplyView::Text(r)) => stem_track_added(
            model,
            job,
            index,
            path,
            r,
        ),
        (FlowView::StemClip { job, index }, ReplyView::Text(r)) => stem_clip_added(
            model,
            job,
            index,
            r,
        ),
        (FlowView::SmokeRun, ReplyView::Bytes(r)) => smoke_run(model, r),
        (FlowView::SmokeText, ReplyView::Text(r)) => smoke_written(model, r),
        _ => finish(model, quiet(), Ok(""@)),
    }
}

/// Whether stems can be written as WAV files.
pub open spec fn writable(stems: Seq<StemView>, sample_rate: u32) -> bool {
    &&& stems.len() > 0 ==> crate::wav::describes(2, sample_rate)
    &&& forall|i: int|
        0 <= i < stems.len() ==> crate::wav::file_fits(
            crate::wav::interleaved((#[trigger] stems[i]).left, stems[i].right).len() as int,
        )
}

/// Whether the stems of a reply, if it has any, can be written as WAV files at
/// the rate of the audio that they come from.
pub open spec fn reply_writable(flow: FlowView, reply: ReplyView) -> bool {
    match (flow, reply) {
        (FlowView::Infer { sample_rate, .. }, ReplyView::Stems(Ok(stems))) => writable(
            stems,
            sample_rate,
        ),
        _ => true,
    }
}

/// What holds whenever the host is waited for: a separation has a model until
/// that is decoded, its stems can be written, and the one that is dealt with is
/// one of them.
pub open spec fn consistent(model: Option<Seq<u8>>, flow: FlowView) -> bool {
    match flow {
        FlowView::ShowProgress { .. } | FlowView::ReadAudio { .. } => model is Some,
        FlowView::StemFile { job, index } => index < job.stems.len() && writable(
            job.stems,
            job.sample_rate,
        ),
        FlowView::StemTrack { job, index, .. } => index < job.stems.len() && writable(
            job.stems,
            job.sample_rate,
        ),
        FlowView::StemClip { job, index } => index < job.stems.len() && writable(
            job.stems,
            job.sample_rate,
        ),
        _ => true,
    }
}

} // verus!
