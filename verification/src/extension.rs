//! The extension itself: the commands it obeys, the events it listens to, and
//! the model that it keeps.
use vstd::prelude::*;

use crate::flows::{FlowView, Origin, Step, StemJobView, MODEL_PATH, MODEL_URL};
use crate::host::{
    ColorRgb, Effect, EffectView, Next, NotifyLevel, Query, Reply, Stem, StemView, TrackAudio, Turn,
};
use crate::panel::{
    button_state, enabled_state, parse_action, parse_request, progress_state, separate_args,
    SeparateRequest, UiAction,
};
use crate::text::{joined, joined3, number, same};
use crate::wav::{can_describe, can_hold, encode_wav, interleave, le_words};

verus! {

/// What is left to do when the stems are there.
#[derive(Debug)]
pub struct StemJob {
    pub origin: Origin,
    pub start_time: u64,
    pub progress: String,
    pub sample_rate: u32,
    pub stems: Vec<Stem>,
}

impl View for StemJob {
    type V = StemJobView;

    open spec fn view(&self) -> StemJobView {
        StemJobView {
            origin: self.origin,
            start_time: self.start_time,
            progress: self.progress@,
            sample_rate: self.sample_rate,
            stems: crate::host::stems_view(self.stems@),
        }
    }
}

/// Where the extension stands, by the reply that it waits for.
#[derive(Debug)]
pub enum Flow {
    Idle,
    ActivateCheck,
    DownloadCheck { origin: Origin },
    DownloadFetch { origin: Origin },
    PanelCheck,
    LoadCheck { origin: Origin },
    LoadRead { origin: Origin },
    SelectTrack,
    ShowProgress { origin: Origin, track: String, start_time: u64 },
    ReadAudio { origin: Origin, start_time: u64, progress: String },
    Decode {
        origin: Origin,
        start_time: u64,
        progress: String,
        left: Vec<u32>,
        right: Vec<u32>,
        sample_rate: u32,
    },
    Infer { origin: Origin, start_time: u64, progress: String, sample_rate: u32 },
    StemFile { job: StemJob, index: usize },
    StemTrack { job: StemJob, index: usize, path: String },
    StemClip { job: StemJob, index: usize },
    SmokeRun,
    SmokeText,
}

impl View for Flow {
    type V = FlowView;

    open spec fn view(&self) -> FlowView {
        match *self {
            Flow::Idle => FlowView::Idle,
            Flow::ActivateCheck => FlowView::ActivateCheck,
            Flow::DownloadCheck { origin } => FlowView::DownloadCheck { origin },
            Flow::DownloadFetch { origin } => FlowView::DownloadFetch { origin },
            Flow::PanelCheck => FlowView::PanelCheck,
            Flow::LoadCheck { origin } => FlowView::LoadCheck { origin },
            Flow::LoadRead { origin } => FlowView::LoadRead { origin },
            Flow::SelectTrack => FlowView::SelectTrack,
            Flow::ShowProgress { origin, track, start_time } => FlowView::ShowProgress {
                origin,
                track: track@,
                start_time,
            },
            Flow::ReadAudio { origin, start_time, progress } => FlowView::ReadAudio {
                origin,
                start_time,
                progress: progress@,
            },
            Flow::Decode { origin, start_time, progress, left, right, sample_rate } =>
                FlowView::Decode {
                origin,
                start_time,
                progress: progress@,
                left: left@,
                right: right@,
                sample_rate,
            },
            Flow::Infer { origin, start_time, progress, sample_rate } => FlowView::Infer {
                origin,
                start_time,
                progress: progress@,
                sample_rate,
            },
            Flow::StemFile { job, index } => FlowView::StemFile { job: job@, index: index as nat },
            Flow::StemTrack { job, index, path } => FlowView::StemTrack {
                job: job@,
                index: index as nat,
                path: path@,
            },
            Flow::StemClip { job, index } => FlowView::StemClip { job: job@, index: index as nat },
            Flow::SmokeRun => FlowView::SmokeRun,
            Flow::SmokeText => FlowView::SmokeText,
        }
    }
}

/// The extension, between two turns of its work.
pub struct DemucsExtension {
    /// The bytes of the model, once it has been loaded.
    pub model: Option<Vec<u8>>,
    pub flow: Flow,
}

/// The bytes of a model, if there are any.
pub open spec fn model_view(model: Option<Vec<u8>>) -> Option<Seq<u8>> {
    match model {
        Some(bytes) => Some(bytes@),
        None => None,
    }
}

impl DemucsExtension {
    /// The bytes of the model, once it has been loaded.
    pub open spec fn kept_model(&self) -> Option<Seq<u8>> {
        model_view(self.model)
    }

    /// What holds whenever the host is waited for.
    pub open spec fn wf(&self) -> bool {
        crate::flows::consistent(self.kept_model(), self.flow@)
    }

    /// What a turn came to.
    pub open spec fn step(&self, turn: Turn) -> Step {
        Step {
            model: self.kept_model(),
            effects: crate::host::effects_view(turn.effects@),
            next: turn.next@,
            flow: self.flow@,
        }
    }
}

/// What a turn came to is all that it holds: what the host is told, one effect
/// after the other, what comes behind that, the model that is kept, and where
/// the extension stands.
pub proof fn law_steps_show_turns(extension: DemucsExtension, turn: Turn, i: int)
    requires
        0 <= i < turn.effects@.len(),
    ensures
        extension.step(turn).effects.len() == turn.effects@.len(),
        extension.step(turn).effects[i] == turn.effects@[i]@,
        extension.step(turn).next == turn.next@,
        extension.step(turn).flow == extension.flow@,
        extension.step(turn).model is Some <==> extension.model is Some,
        extension.model matches Some(bytes) ==> extension.step(turn).model == Some(bytes@),
{
}

/// Where the extension stands says all that it holds of a piece of work.
pub proof fn law_flows_show_work(
    origin: Origin,
    track: String,
    start_time: u64,
    left: Vec<u32>,
    right: Vec<u32>,
    sample_rate: u32,
    job: StemJob,
    index: usize,
)
    ensures
        Flow::Idle@ == FlowView::Idle,
        Flow::ActivateCheck@ == FlowView::ActivateCheck,
        (Flow::DownloadCheck { origin })@ == (FlowView::DownloadCheck { origin }),
        (Flow::DownloadFetch { origin })@ == (FlowView::DownloadFetch { origin }),
        Flow::PanelCheck@ == FlowView::PanelCheck,
        (Flow::LoadCheck { origin })@ == (FlowView::LoadCheck { origin }),
        (Flow::LoadRead { origin })@ == (FlowView::LoadRead { origin }),
        Flow::SelectTrack@ == FlowView::SelectTrack,
        (Flow::ShowProgress { origin, track, start_time })@ == (FlowView::ShowProgress {
            origin,
            track: track@,
            start_time,
        }),
        (Flow::ReadAudio { origin, start_time, progress: track })@ == (FlowView::ReadAudio {
            origin,
            start_time,
            progress: track@,
        }),
        (Flow::Decode { origin, start_time, progress: track, left, right, sample_rate })@ == (
        FlowView::Decode {
            origin,
            start_time,
            progress: track@,
            left: left@,
            right: right@,
            sample_rate,
        }),
        (Flow::Infer { origin, start_time, progress: track, sample_rate })@ == (FlowView::Infer {
            origin,
            start_time,
            progress: track@,
            sample_rate,
        }),
        (Flow::StemFile { job, index })@ == (FlowView::StemFile { job: job@, index: index as nat }),
        (Flow::StemTrack { job, index, path: track })@ == (FlowView::StemTrack {
            job: job@,
            index: index as nat,
            path: track@,
        }),
        (Flow::StemClip { job, index })@ == (FlowView::StemClip { job: job@, index: index as nat }),
        Flow::SmokeRun@ == FlowView::SmokeRun,
        Flow::SmokeText@ == FlowView::SmokeText,
        job@.origin == job.origin,
        job@.start_time == job.start_time,
        job@.progress == job.progress@,
        job@.sample_rate == job.sample_rate,
        job@.stems.len() == job.stems@.len(),
        index < job.stems@.len() ==> job@.stems[index as int].left == job.stems@[index as int].left@
            && job@.stems[index as int].right == job.stems@[index as int].right@,
{
}

/// A turn, and where the extension then stands.
struct Outcome {
    turn: Turn,
    flow: Flow,
}

impl Outcome {
    spec fn step(&self, model: Option<Seq<u8>>) -> Step {
        Step {
            model,
            effects: crate::host::effects_view(self.turn.effects@),
            next: self.turn.next@,
            flow: self.flow@,
        }
    }
}

fn no_effects() -> (r: Vec<Effect>)
    ensures
        crate::host::effects_view(r@) == crate::flows::quiet(),
        r@.len() == 0,
{
    let r: Vec<Effect> = Vec::new();
    assert(crate::host::effects_view(r@) =~= crate::flows::quiet());
    r
}

fn with(effects: Vec<Effect>, effect: Effect) -> (r: Vec<Effect>)
    ensures
        crate::host::effects_view(r@) == crate::host::effects_view(effects@).push(effect@),
{
    let mut r: Vec<Effect> = effects;
    let ghost before = r@;
    r.push(effect);
    assert(crate::host::effects_view(r@) =~= crate::host::effects_view(before).push(effect@));
    r
}

fn notice(level: NotifyLevel, text: &str) -> (r: Effect)
    ensures
        r@ == crate::flows::notice(level, text@),
{
    Effect::Notify { level, text: text.to_string() }
}

fn widget(name: &str, state: String) -> (r: Effect)
    ensures
        r@ == crate::flows::widget(name@, state@),
{
    Effect::UpdateWidget { widget: name.to_string(), state }
}

fn ask(effects: Vec<Effect>, query: Query, flow: Flow) -> (r: Outcome)
    ensures
        r.turn.effects == effects,
        r.turn.next == Next::Ask(query),
        r.flow == flow,
        forall|model: Option<Seq<u8>>| #[trigger]
            r.step(model) == crate::flows::ask(
                model,
                crate::host::effects_view(effects@),
                query@,
                flow@,
            ),
{
    Outcome { turn: Turn { effects, next: Next::Ask(query) }, flow }
}

fn finish(effects: Vec<Effect>, outcome: Result<String, String>) -> (r: Outcome)
    ensures
        forall|model: Option<Seq<u8>>| #[trigger]
            r.step(model) == crate::flows::finish(
                model,
                crate::host::effects_view(effects@),
                crate::host::outcome_view(outcome),
            ),
{
    Outcome { turn: Turn { effects, next: Next::Finish(outcome) }, flow: Flow::Idle }
}

fn model_query() -> (r: Query)
    ensures
        r@ == crate::flows::model_query(),
{
    Query::FileExists { path: MODEL_PATH.to_string() }
}

/// Whether the host's reply says that a file exists.
fn says_exists(reply: &Result<String, String>) -> (r: bool)
    ensures
        r == crate::flows::says_exists(crate::host::outcome_view(*reply)),
{
    match reply {
        Ok(text) => same(text.as_str(), "true"),
        Err(_) => false,
    }
}

fn load_begun(origin: Origin, effects: Vec<Effect>) -> (r: Outcome)
    ensures
        forall|model: Option<Seq<u8>>| #[trigger]
            r.step(model) == crate::flows::load_begun(
                model,
                origin,
                crate::host::effects_view(effects@),
            ),
{
    ask(effects, model_query(), Flow::LoadCheck { origin })
}

fn download_begun(origin: Origin, effects: Vec<Effect>) -> (r: Outcome)
    ensures
        forall|model: Option<Seq<u8>>| #[trigger]
            r.step(model) == crate::flows::download_begun(
                model,
                origin,
                crate::host::effects_view(effects@),
            ),
{
    ask(effects, model_query(), Flow::DownloadCheck { origin })
}

fn downloaded(origin: Origin, outcome: Result<String, String>) -> (r: Outcome)
    ensures
        forall|model: Option<Seq<u8>>| #[trigger]
            r.step(model) == crate::flows::downloaded(
                model,
                origin,
                crate::host::outcome_view(outcome),
            ),
{
    match (origin, &outcome) {
        (Origin::Command, _) => finish(no_effects(), outcome),
        (Origin::Panel, Ok(_)) => load_begun(origin, no_effects()),
        (Origin::Panel, Err(_)) => finish(
            with(
                no_effects(),
                widget("load_model", button_state("Download & Load Model", true)),
            ),
            outcome,
        ),
    }
}

fn download_checked(origin: Origin, exists: bool) -> (r: Outcome)
    ensures
        forall|model: Option<Seq<u8>>| #[trigger]
            r.step(model) == crate::flows::download_checked(model, origin, exists),
{
    if exists {
        downloaded(origin, Ok("Model already downloaded".to_string()))
    } else {
        ask(
            with(no_effects(), notice(NotifyLevel::Info, "Downloading HTDemucs model...")),
            Query::DownloadFile { url: MODEL_URL.to_string(), path: MODEL_PATH.to_string() },
            Flow::DownloadFetch { origin },
        )
    }
}

fn loaded(origin: Origin, effects: Vec<Effect>, outcome: Result<String, String>) -> (r: Outcome)
    ensures
        forall|model: Option<Seq<u8>>| #[trigger]
            r.step(model) == crate::flows::loaded(
                model,
                origin,
                crate::host::effects_view(effects@),
                crate::host::outcome_view(outcome),
            ),
{
    match (origin, &outcome) {
        (Origin::Command, _) => finish(effects, outcome),
        (Origin::Panel, Ok(_)) => finish(
            with(effects, notice(NotifyLevel::Success, "Model loaded and ready")),
            outcome,
        ),
        (Origin::Panel, Err(e)) => {
            let text: String = joined("Load failed: ", e.as_str());
            finish(
                with(
                    with(effects, widget("load_model", button_state("Retry Load", true))),
                    notice(NotifyLevel::Error, text.as_str()),
                ),
                outcome,
            )
        },
    }
}

fn load_checked(origin: Origin, exists: bool) -> (r: Outcome)
    ensures
        forall|model: Option<Seq<u8>>| #[trigger]
            r.step(model) == crate::flows::load_checked(model, origin, exists),
{
    if exists {
        ask(
            with(no_effects(), notice(NotifyLevel::Info, "Loading model bytes...")),
            Query::ReadBytes { path: MODEL_PATH.to_string() },
            Flow::LoadRead { origin },
        )
    } else {
        loaded(
            origin,
            no_effects(),
            Err("Model file not found. Please download first.".to_string()),
        )
    }
}

/// Reads the reply with the model's bytes; on success they are handed out, to
/// be kept.
fn load_read(
    origin: Origin,
    reply: Result<Vec<u8>, String>,
    Ghost(model): Ghost<Option<Seq<u8>>>,
) -> (r: (Outcome, Option<Vec<u8>>))
    ensures
        r.0.step(
            match r.1 {
                Some(bytes) => Some(bytes@),
                None => model,
            },
        ) == crate::flows::load_read(
            model,
            origin,
            match reply {
                Ok(bytes) => Ok(bytes@),
                Err(e) => Err(e@),
            },
        ),
{
    match reply {
        Ok(bytes) => {
            let effects: Vec<Effect> = with(
                with(
                    with(
                        no_effects(),
                        notice(NotifyLevel::Success, "Model loaded successfully"),
                    ),
                    widget("separate", enabled_state(true)),
                ),
                widget("load_model", button_state("Model Loaded", false)),
            );
            let r: Outcome = loaded(
                origin,
                effects,
                Ok("Model bytes cached in extension".to_string()),
            );
            (r, Some(bytes))
        },
        Err(e) => {
            let message: String = joined("Failed to read model bytes: ", e.as_str());
            (loaded(origin, no_effects(), Err(message)), None)
        },
    }
}

fn separated(
    origin: Origin,
    effects: Vec<Effect>,
    outcome: Result<String, String>,
) -> (r: Outcome)
    ensures
        forall|model: Option<Seq<u8>>| #[trigger]
            r.step(model) == crate::flows::separated(
                model,
                origin,
                crate::host::effects_view(effects@),
                crate::host::outcome_view(outcome),
            ),
{
    match (origin, &outcome) {
        (Origin::Command, _) => finish(effects, outcome),
        (Origin::Panel, Ok(message)) => {
            let told: Effect = notice(NotifyLevel::Success, message.as_str());
            finish(with(effects, told), outcome)
        },
        (Origin::Panel, Err(e)) => {
            let text: String = joined("Separation failed: ", e.as_str());
            finish(with(effects, notice(NotifyLevel::Error, text.as_str())), outcome)
        },
    }
}

/// Starts a separation. It is refused where the request could not be read and
/// where no model has been loaded.
fn separation_begun(
    has_model: bool,
    origin: Origin,
    effects: Vec<Effect>,
    request: Result<SeparateRequest, String>,
    Ghost(model): Ghost<Option<Seq<u8>>>,
    Ghost(expected): Ghost<Result<(Seq<char>, u64), Seq<char>>>,
) -> (r: Outcome)
    requires
        has_model == (model is Some),
        crate::panel::is_request(request, expected),
    ensures
        r.step(model) == crate::flows::separation_begun(
            model,
            origin,
            crate::host::effects_view(effects@),
            expected,
        ),
{
    match request {
        Err(e) => separated(origin, effects, Err(e)),
        Ok(request) => if has_model {
            ask(
                effects,
                Query::ShowProgress { text: "Separating stems...".to_string(), cancellable: true },
                Flow::ShowProgress {
                    origin,
                    track: request.track_id,
                    start_time: request.start_time,
                },
            )
        } else {
            separated(
                origin,
                effects,
                Err("Model not loaded. Click 'Load Model' first.".to_string()),
            )
        },
    }
}

fn progress_shown(
    origin: Origin,
    track: String,
    start_time: u64,
    reply: Result<String, String>,
) -> (r: Outcome)
    ensures
        forall|model: Option<Seq<u8>>| #[trigger]
            r.step(model) == crate::flows::progress_shown(
                model,
                origin,
                track@,
                start_time,
                crate::host::outcome_view(reply),
            ),
{
    let progress: String = match reply {
        Ok(id) => id,
        Err(_) => String::new(),
    };
    ask(no_effects(), Query::TrackAudio { track }, Flow::ReadAudio { origin, start_time, progress })
}

/// Copies the bytes of the model.
fn copied(bytes: &Vec<u8>) -> (r: Vec<u8>)
    ensures
        r@ == bytes@,
{
    let r: Vec<u8> = bytes.clone();
    assert(r@ =~= bytes@);
    r
}

/// Copies the samples of a channel.
fn copied_channel(samples: &Vec<u32>) -> (r: Vec<u32>)
    ensures
        r@ == samples@,
{
    let r: Vec<u32> = samples.clone();
    assert(r@ =~= samples@);
    r
}

fn audio_read(
    model: &Option<Vec<u8>>,
    origin: Origin,
    start_time: u64,
    progress: String,
    reply: Result<TrackAudio, String>,
) -> (r: Outcome)
    requires
        model is Some,
    ensures
        r.step(model_view(*model)) == crate::flows::audio_read(
            model_view(*model),
            origin,
            start_time,
            progress@,
            match reply {
                Ok(audio) => Ok(audio@),
                Err(e) => Err(e@),
            },
        ),
{
    match reply {
        Err(e) => {
            let message: String = joined("Failed to read audio: ", e.as_str());
            separated(origin, no_effects(), Err(message))
        },
        Ok(audio) => {
            let channels: &Vec<Vec<u32>> = &audio.channels;
            if channels.len() == 0 {
                separated(origin, no_effects(), Err("No audio channels returned".to_string()))
            } else {
                let left: Vec<u32> = copied_channel(&channels[0]);
                let right: Vec<u32> = if channels.len() > 1 {
                    copied_channel(&channels[1])
                } else {
                    copied_channel(&channels[0])
                };
                let bytes: Vec<u8> = match model {
                    Some(bytes) => copied(bytes),
                    None => Vec::new(),
                };
                ask(
                    with(
                        no_effects(),
                        Effect::UpdateProgress {
                            id: progress.clone(),
                            text: "Decoding model weights...".to_string(),
                            percent: 5,
                        },
                    ),
                    Query::DecodeModel { bytes },
                    Flow::Decode {
                        origin,
                        start_time,
                        progress,
                        left,
                        right,
                        sample_rate: audio.sample_rate,
                    },
                )
            }
        },
    }
}

fn model_decoded(
    origin: Origin,
    start_time: u64,
    progress: String,
    left: Vec<u32>,
    right: Vec<u32>,
    sample_rate: u32,
    reply: Result<(), String>,
) -> (r: Outcome)
    ensures
        forall|model: Option<Seq<u8>>| #[trigger]
            r.step(model) == crate::flows::model_decoded(
                model,
                origin,
                start_time,
                progress@,
                left@,
                right@,
                sample_rate,
                match reply {
                    Ok(()) => Ok(()),
                    Err(e) => Err(e@),
                },
            ),
{
    match reply {
        Err(e) => {
            let message: String = joined("Decode model: ", e.as_str());
            separated(origin, no_effects(), Err(message))
        },
        Ok(()) => ask(
            with(
                no_effects(),
                Effect::UpdateProgress {
                    id: progress.clone(),
                    text: "Running inference...".to_string(),
                    percent: 15,
                },
            ),
            Query::Separate { left, right, sample_rate },
            Flow::Infer { origin, start_time, progress, sample_rate },
        ),
    }
}

fn stem_label(index: usize) -> (r: &'static str)
    ensures
        r@ == crate::flows::stem_label(index as nat),
{
    if index == 0 {
        "drums"
    } else if index == 1 {
        "bass"
    } else if index == 2 {
        "vocals"
    } else if index == 3 {
        "other"
    } else {
        "stem"
    }
}

fn stem_color(index: usize) -> (r: ColorRgb)
    ensures
        r == crate::flows::stem_color(index as nat),
{
    if index == 0 {
        ColorRgb { r: 220, g: 80, b: 80 }
    } else if index == 1 {
        ColorRgb { r: 80, g: 140, b: 220 }
    } else if index == 2 {
        ColorRgb { r: 220, g: 180, b: 80 }
    } else if index == 3 {
        ColorRgb { r: 140, g: 200, b: 140 }
    } else {
        ColorRgb { r: 180, g: 180, b: 180 }
    }
}

/// Encodes a stem as a stereo WAV file: behind the header, sample by sample, its
/// left and its right channel in turn, as far as the shorter one goes.
fn encoded_stem(stem: &Stem, sample_rate: u32) -> (r: Result<Vec<u8>, String>)
    requires
        crate::wav::describes(2, sample_rate),
        crate::wav::file_fits(
            crate::wav::interleaved(stem.left@, stem.right@).len() as int,
        ),
    ensures
        r is Ok,
        r->Ok_0@ == crate::flows::stem_file(stem@, sample_rate),
        r->Ok_0@.len() == 68 + 8 * (if stem.left@.len() <= stem.right@.len() {
            stem.left@.len()
        } else {
            stem.right@.len()
        }),
        forall|j: int|
            0 <= j < stem.left@.len() && j < stem.right@.len() ==> #[trigger] stem.left@[j]
                == r->Ok_0@[68 + 8 * j] + 256 * r->Ok_0@[69 + 8 * j] + 65536 * r->Ok_0@[70 + 8 * j]
                + 16777216 * r->Ok_0@[71 + 8 * j],
        forall|j: int|
            0 <= j < stem.left@.len() && j < stem.right@.len() ==> #[trigger] stem.right@[j]
                == r->Ok_0@[72 + 8 * j] + 256 * r->Ok_0@[73 + 8 * j] + 65536 * r->Ok_0@[74 + 8 * j]
                + 16777216 * r->Ok_0@[75 + 8 * j],
{
    let samples: Vec<u32> = interleave(stem.left.as_slice(), stem.right.as_slice());
    let r: Result<Vec<u8>, String> = encode_wav(samples.as_slice(), sample_rate, 2);
    proof {
        let left = stem.left@;
        let right = stem.right@;
        let file = r->Ok_0@;
        assert forall|j: int| 0 <= j < left.len() && j < right.len() implies #[trigger] left[j]
            == file[68 + 8 * j] + 256 * file[69 + 8 * j] + 65536 * file[70 + 8 * j] + 16777216
            * file[71 + 8 * j] by {
            assert(samples@[2 * j] == left[j]);
        }
        assert forall|j: int| 0 <= j < left.len() && j < right.len() implies #[trigger] right[j]
            == file[72 + 8 * j] + 256 * file[73 + 8 * j] + 65536 * file[74 + 8 * j] + 16777216
            * file[75 + 8 * j] by {
            assert(samples@[2 * j + 1] == right[j]);
        }
    }
    r
}

fn next_stem(job: StemJob, index: usize, effects: Vec<Effect>) -> (r: Outcome)
    requires
        crate::flows::writable(job@.stems, job.sample_rate),
    ensures
        forall|model: Option<Seq<u8>>| #[trigger]
            r.step(model) == crate::flows::next_stem(
                model,
                job@,
                index as nat,
                crate::host::effects_view(effects@),
            ),
        index < job.stems@.len() ==> {
            let left = job.stems@[index as int].left@;
            let right = job.stems@[index as int].right@;
            &&& r.turn.next matches Next::Ask(Query::WriteBytes { path, bytes })
            &&& bytes@.len() == 68 + 8 * (if left.len() <= right.len() {
                left.len()
            } else {
                right.len()
            })
            &&& forall|j: int|
                0 <= j < left.len() && j < right.len() ==> #[trigger] left[j] == bytes@[68 + 8 * j]
                    + 256 * bytes@[69 + 8 * j] + 65536 * bytes@[70 + 8 * j] + 16777216 * bytes@[71
                    + 8 * j]
            &&& forall|j: int|
                0 <= j < left.len() && j < right.len() ==> #[trigger] right[j] == bytes@[72 + 8 * j]
                    + 256 * bytes@[73 + 8 * j] + 65536 * bytes@[74 + 8 * j] + 16777216 * bytes@[75
                    + 8 * j]
        },
{
    if index < job.stems.len() {
        let stem: &Stem = &job.stems[index];
        assert(job@.stems[index as int] == stem@);
        match encoded_stem(stem, job.sample_rate) {
            Err(e) => {
                let message: String = joined("WAV encode: ", e.as_str());
                separated(job.origin, effects, Err(message))
            },
            Ok(bytes) => ask(
                effects,
                Query::WriteBytes { path: joined3("stems/", stem_label(index), ".wav"), bytes },
                Flow::StemFile { job, index },
            ),
        }
    } else {
        let count: String = number(job.stems.len());
        let message: String = joined3("Separated into ", count.as_str(), " stems");
        let done: Effect = Effect::CompleteProgress {
            id: job.progress.clone(),
            text: "Stem separation complete".to_string(),
        };
        separated(job.origin, with(effects, done), Ok(message))
    }
}

/// Tells whether stems can be written as WAV files.
fn can_write(stems: &Vec<Stem>, sample_rate: u32) -> (r: bool)
    ensures
        r == crate::flows::writable(crate::host::stems_view(stems@), sample_rate),
{
    let ghost all = crate::host::stems_view(stems@);
    if stems.len() > 0 && !can_describe(2, sample_rate) {
        return false;
    }
    let mut i: usize = 0;
    while i < stems.len()
        invariant
            i <= stems@.len(),
            all == crate::host::stems_view(stems@),
            stems@.len() > 0 ==> crate::wav::describes(2, sample_rate),
            forall|j: int|
                0 <= j < i ==> crate::wav::file_fits(
                    crate::wav::interleaved((#[trigger] all[j]).left, all[j].right).len() as int,
                ),
        decreases stems@.len() - i,
    {
        let left: usize = stems[i].left.len();
        let right: usize = stems[i].right.len();
        let n: usize = if left <= right {
            left
        } else {
            right
        };
        assert(crate::wav::interleaved(all[i as int].left, all[i as int].right).len() == 2 * n);
        if n > usize::MAX / 2 || !can_hold(2 * n) {
            assert(!crate::wav::file_fits(2 * n));
            return false;
        }
        i = i + 1;
    }
    true
}

fn stems_given(
    origin: Origin,
    start_time: u64,
    progress: String,
    sample_rate: u32,
    reply: Result<Vec<Stem>, String>,
) -> (r: Outcome)
    requires
        reply matches Ok(stems) ==> crate::flows::writable(
            crate::host::stems_view(stems@),
            sample_rate,
        ),
    ensures
        forall|model: Option<Seq<u8>>| #[trigger]
            r.step(model) == crate::flows::stems_given(
                model,
                origin,
                start_time,
                progress@,
                sample_rate,
                match reply {
                    Ok(stems) => Ok(crate::host::stems_view(stems@)),
                    Err(e) => Err(e@),
                },
            ),
{
    match reply {
        Err(e) => {
            let message: String = joined("Separation: ", e.as_str());
            separated(origin, no_effects(), Err(message))
        },
        Ok(stems) => {
            let effects: Vec<Effect> = with(
                no_effects(),
                Effect::UpdateProgress {
                    id: progress.clone(),
                    text: "Writing stems...".to_string(),
                    percent: 90,
                },
            );
            next_stem(StemJob { origin, start_time, progress, sample_rate, stems }, 0, effects)
        },
    }
}

fn stem_written(job: StemJob, index: usize, reply: Result<String, String>) -> (r: Outcome)
    ensures
        forall|model: Option<Seq<u8>>| #[trigger]
            r.step(model) == crate::flows::stem_written(
                model,
                job@,
                index as nat,
                crate::host::outcome_view(reply),
            ),
{
    match reply {
        Err(e) => {
            let message: String = joined("Write stem: ", e.as_str());
            separated(job.origin, no_effects(), Err(message))
        },
        Ok(path) => ask(
            no_effects(),
            Query::AddTrack {
                name: joined3("stem (", stem_label(index), ")"),
                color: stem_color(index),
                volume_percent: 100,
                pan_percent: 0,
                muted: false,
                soloed: false,
            },
            Flow::StemTrack { job, index, path },
        ),
    }
}

fn stem_track_added(
    job: StemJob,
    index: usize,
    path: String,
    reply: Result<String, String>,
) -> (r: Outcome)
    ensures
        forall|model: Option<Seq<u8>>| #[trigger]
            r.step(model) == crate::flows::stem_track_added(
                model,
                job@,
                index as nat,
                path@,
                crate::host::outcome_view(reply),
            ),
{
    match reply {
        Err(e) => {
            let message: String = joined("Add stem track: ", e.as_str());
            separated(job.origin, no_effects(), Err(message))
        },
        Ok(track) => ask(
            no_effects(),
            Query::AddClip {
                track,
                name: stem_label(index).to_string(),
                start_time: job.start_time,
                length_beats: 0,
                sample_path: path,
                playback_percent: 100,
                loop_enabled: false,
                loop_start: 0,
                loop_end: 0,
            },
            Flow::StemClip { job, index },
        ),
    }
}

fn stem_clip_added(job: StemJob, index: usize, reply: Result<String, String>) -> (r: Outcome)
    requires
        index < job.stems@.len(),
        crate::flows::writable(job@.stems, job.sample_rate),
    ensures
        forall|model: Option<Seq<u8>>| #[trigger]
            r.step(model) == crate::flows::stem_clip_added(
                model,
                job@,
                index as nat,
                crate::host::outcome_view(reply),
            ),
{
    match reply {
        Err(e) => {
            let message: String = joined("Add stem clip: ", e.as_str());
            separated(job.origin, no_effects(), Err(message))
        },
        Ok(_) => {
            assert(index < job.stems.len());
            next_stem(job, index + 1, no_effects())
        },
    }
}

fn track_selected(
    has_model: bool,
    reply: Result<Option<String>, String>,
    Ghost(model): Ghost<Option<Seq<u8>>>,
) -> (r: Outcome)
    requires
        has_model == (model is Some),
    ensures
        r.step(model) == crate::flows::track_selected(
            model,
            match reply {
                Ok(Some(track)) => Ok(Some(track@)),
                Ok(None) => Ok(None),
                Err(e) => Err(e@),
            },
        ),
        reply matches Ok(Some(track)) ==> crate::panel::requested(
            crate::panel::separate_args_json(track@),
        ) == Ok::<(Seq<char>, u64), Seq<char>>((track@, 0)),
{
    match reply {
        Ok(Some(track)) => {
            let text: String = joined3("Separating track ", track.as_str(), "...");
            let effects: Vec<Effect> = with(
                no_effects(),
                notice(NotifyLevel::Info, text.as_str()),
            );
            let args: String = separate_args(track.as_str());
            separation_begun(
                has_model,
                Origin::Panel,
                effects,
                parse_request(args.as_str()),
                Ghost(model),
                Ghost(crate::panel::requested(args@)),
            )
        },
        Ok(None) => finish(
            with(
                no_effects(),
                notice(NotifyLevel::Error, "No track selected. Select an audio track first."),
            ),
            Ok("".to_string()),
        ),
        Err(e) => {
            let text: String = joined("Failed to get selection: ", e.as_str());
            finish(with(no_effects(), notice(NotifyLevel::Error, text.as_str())), Err(e))
        },
    }
}

fn smoke_begun() -> (r: Outcome)
    ensures
        forall|model: Option<Seq<u8>>| #[trigger]
            r.step(model) == crate::flows::smoke_begun(model),
{
    let values: Vec<u32> = vec![0x3f80_0000, 0x4000_0000, 0x4040_0000];
    assert(values@ =~= seq![0x3f80_0000u32, 0x4000_0000u32, 0x4040_0000u32]);
    ask(no_effects(), Query::AddScalar { values, addend: 0x3f80_0000 }, Flow::SmokeRun)
}

fn smoke_run(reply: Result<Vec<u8>, String>) -> (r: Outcome)
    ensures
        forall|model: Option<Seq<u8>>| #[trigger]
            r.step(model) == crate::flows::smoke_run(
                model,
                match reply {
                    Ok(bytes) => Ok(bytes@),
                    Err(e) => Err(e@),
                },
            ),
{
    match reply {
        Err(e) => {
            let message: String = joined("read tensor: ", e.as_str());
            finish(no_effects(), Err(message))
        },
        Ok(bytes) => {
            let words: Vec<u32> = le_words(bytes.as_slice());
            assert(words@ =~= crate::flows::words_in(bytes@));
            ask(no_effects(), Query::NumbersJson { words }, Flow::SmokeText)
        },
    }
}

fn smoke_written(reply: Result<String, String>) -> (r: Outcome)
    ensures
        forall|model: Option<Seq<u8>>| #[trigger]
            r.step(model) == crate::flows::smoke_written(
                model,
                crate::host::outcome_view(reply),
            ),
{
    match reply {
        Err(e) => {
            let message: String = joined("serialize burn_smoke: ", e.as_str());
            finish(no_effects(), Err(message))
        },
        Ok(text) => finish(no_effects(), Ok(text)),
    }
}

fn activated(exists: bool) -> (r: Outcome)
    ensures
        forall|model: Option<Seq<u8>>| #[trigger]
            r.step(model) == crate::flows::activated(model, exists),
{
    let effects: Vec<Effect> = if exists {
        proof {
            reveal_strlit("1.0");
        }
        with(
            with(no_effects(), widget("load_model", button_state("Load Model", true))),
            widget("model_progress", progress_state("1.0", "Model downloaded")),
        )
    } else {
        no_effects()
    };
    finish(effects, Ok("demucs extension activated".to_string()))
}

fn panel_checked(exists: bool) -> (r: Outcome)
    ensures
        forall|model: Option<Seq<u8>>| #[trigger]
            r.step(model) == crate::flows::panel_checked(model, exists),
{
    if exists {
        load_begun(Origin::Panel, no_effects())
    } else {
        proof {
            reveal_strlit("0.1");
        }
        download_begun(
            Origin::Panel,
            with(
                no_effects(),
                widget("model_progress", progress_state("0.1", "Downloading...")),
            ),
        )
    }
}

impl DemucsExtension {
    /// An extension that has loaded no model and has nothing to do.
    pub fn new() -> (r: DemucsExtension)
        ensures
            r.wf(),
            r.kept_model() is None,
            r.model is None,
            r.flow@ is Idle,
    {
        DemucsExtension { model: None, flow: Flow::Idle }
    }

    /// Greets the host.
    pub fn init() -> (r: Result<String, String>)
        ensures
            crate::host::outcome_view(r) == Ok::<Seq<char>, Seq<char>>(
                "demucs extension initialized"@,
            ),
    {
        Ok("demucs extension initialized".to_string())
    }

    /// Takes up work: the panel is told if the model has been downloaded.
    pub fn activate(&mut self) -> (turn: Turn)
        requires
            old(self).flow@ is Idle,
        ensures
            final(self).wf(),
            final(self).step(turn) == crate::flows::ask(
                old(self).kept_model(),
                crate::flows::quiet(),
                crate::flows::model_query(),
                FlowView::ActivateCheck,
            ),
            turn.effects@.len() == 0,
            turn.next matches Next::Ask(Query::FileExists { path }) && path@
                == "htdemucs.safetensors"@,
            final(self).model == old(self).model,
            final(self).flow is ActivateCheck,
    {
        let r: Outcome = ask(no_effects(), model_query(), Flow::ActivateCheck);
        assert(r.step(self.kept_model()) == crate::flows::ask(
            self.kept_model(),
            crate::flows::quiet(),
            crate::flows::model_query(),
            FlowView::ActivateCheck,
        ));
        self.flow = r.flow;
        r.turn
    }

    /// Lays work down: the model is forgotten.
    pub fn deactivate(&mut self) -> (r: Result<String, String>)
        requires
            old(self).flow@ is Idle,
        ensures
            final(self).wf(),
            final(self).kept_model() is None,
            final(self).model is None,
            final(self).flow@ is Idle,
            crate::host::outcome_view(r) == Ok::<Seq<char>, Seq<char>>(
                "demucs extension deactivated"@,
            ),
    {
        self.model = None;
        Ok("demucs extension deactivated".to_string())
    }

    /// Starts a command.
    pub fn execute_command(&mut self, command_id: String, args: String) -> (turn: Turn)
        requires
            old(self).flow@ is Idle,
        ensures
            final(self).wf(),
            final(self).step(turn) == crate::flows::commanded(
                old(self).kept_model(),
                command_id@,
                args@,
            ),
    {
        let ghost model = self.kept_model();
        let id: &str = command_id.as_str();
        let r: Outcome = if same(id, "demucs.download") {
            download_begun(Origin::Command, no_effects())
        } else if same(id, "demucs.load") {
            load_begun(Origin::Command, no_effects())
        } else if same(id, "demucs.separate") {
            separation_begun(
                self.model.is_some(),
                Origin::Command,
                no_effects(),
                parse_request(args.as_str()),
                Ghost(model),
                Ghost(crate::panel::requested(args@)),
            )
        } else if same(id, "demucs.burn_smoke") {
            smoke_begun()
        } else {
            finish(no_effects(), Err(joined("Unknown command: ", id)))
        };
        assert(r.step(model) == crate::flows::commanded(model, command_id@, args@));
        self.flow = r.flow;
        r.turn
    }

    /// Takes notice of an event.
    pub fn handle_event(&mut self, event_type: String, data: String) -> (turn: Turn)
        requires
            old(self).flow@ is Idle,
        ensures
            final(self).wf(),
            final(self).step(turn) == crate::flows::notified(
                old(self).kept_model(),
                event_type@,
                data@,
            ),
    {
        let ghost model = self.kept_model();
        let r: Outcome = if !same(event_type.as_str(), "ui") {
            finish(no_effects(), Ok("".to_string()))
        } else {
            match parse_action(data.as_str()) {
                Err(e) => finish(no_effects(), Err(e)),
                Ok(UiAction::LoadModel) => ask(
                    with(no_effects(), widget("load_model", button_state("Loading...", false))),
                    model_query(),
                    Flow::PanelCheck,
                ),
                Ok(UiAction::Separate) => ask(
                    no_effects(),
                    Query::SelectedTrack,
                    Flow::SelectTrack,
                ),
                Ok(UiAction::Other) => finish(no_effects(), Ok("".to_string())),
            }
        };
        assert(r.step(model) == crate::flows::notified(model, event_type@, data@));
        self.flow = r.flow;
        r.turn
    }

    /// Tells whether the work can go on with a reply: whether it is of the kind
    /// that is waited for, and whether its stems, if it has any, can be written.
    pub fn accepts(&self, reply: &Reply) -> (r: bool)
        ensures
            r == (crate::flows::answers(self.flow@, reply@) && crate::flows::reply_writable(
                self.flow@,
                reply@,
            )),
    {
        match (&self.flow, reply) {
            (Flow::Idle, _) => false,
            (Flow::LoadRead { .. }, Reply::Bytes(_)) => true,
            (Flow::LoadRead { .. }, _) => false,
            (Flow::SmokeRun, Reply::Bytes(_)) => true,
            (Flow::SmokeRun, _) => false,
            (Flow::SelectTrack, Reply::Track(_)) => true,
            (Flow::SelectTrack, _) => false,
            (Flow::ReadAudio { .. }, Reply::Audio(_)) => true,
            (Flow::ReadAudio { .. }, _) => false,
            (Flow::Decode { .. }, Reply::Decoded(_)) => true,
            (Flow::Decode { .. }, _) => false,
            (Flow::Infer { sample_rate, .. }, Reply::Stems(Ok(stems))) => can_write(
                stems,
                *sample_rate,
            ),
            (Flow::Infer { .. }, Reply::Stems(Err(_))) => true,
            (Flow::Infer { .. }, _) => false,
            (_, Reply::Text(_)) => true,
            (_, _) => false,
        }
    }

    /// Goes on with the work when the host has replied.
    ///
    /// Where the reply is the track that is selected, the arguments that the
    /// separation is started with are read back as that track, from the
    /// beginning of the project.
    pub fn resume(&mut self, reply: Reply) -> (turn: Turn)
        requires
            old(self).wf(),
            crate::flows::answers(old(self).flow@, reply@),
            crate::flows::reply_writable(old(self).flow@, reply@),
        ensures
            final(self).wf(),
            final(self).step(turn) == crate::flows::resumed(
                old(self).kept_model(),
                old(self).flow@,
                reply@,
            ),
            old(self).flow@ is SelectTrack ==> (reply@ matches crate::host::ReplyView::Track(
                Ok(Some(track)),
            ) ==> crate::panel::requested(crate::panel::separate_args_json(track)) == Ok::<
                (Seq<char>, u64),
                Seq<char>,
            >((track, 0))),
    {
        let ghost model = self.kept_model();
        let ghost before = self.flow@;
        let mut flow: Flow = Flow::Idle;
        core::mem::swap(&mut flow, &mut self.flow);
        let mut read: Option<Vec<u8>> = None;
        let r: Outcome = match (flow, reply) {
            (Flow::ActivateCheck, Reply::Text(r)) => activated(says_exists(&r)),
            (Flow::DownloadCheck { origin }, Reply::Text(r)) => download_checked(
                origin,
                says_exists(&r),
            ),
            (Flow::DownloadFetch { origin }, Reply::Text(r)) => match r {
                Ok(_) => downloaded(origin, Ok("Model downloaded".to_string())),
                Err(e) => downloaded(origin, Err(e)),
            },
            (Flow::PanelCheck, Reply::Text(r)) => panel_checked(says_exists(&r)),
            (Flow::LoadCheck { origin }, Reply::Text(r)) => load_checked(origin, says_exists(&r)),
            (Flow::LoadRead { origin }, Reply::Bytes(r)) => {
                let (outcome, bytes) = load_read(origin, r, Ghost(model));
                read = bytes;
                outcome
            },
            (Flow::SelectTrack, Reply::Track(r)) => track_selected(
                self.model.is_some(),
                r,
                Ghost(model),
            ),
            (Flow::ShowProgress { origin, track, start_time }, Reply::Text(r)) => progress_shown(
                origin,
                track,
                start_time,
                r,
            ),
            (Flow::ReadAudio { origin, start_time, progress }, Reply::Audio(r)) => audio_read(
                &self.model,
                origin,
                start_time,
                progress,
                r,
            ),
            (
                Flow::Decode { origin, start_time, progress, left, right, sample_rate },
                Reply::Decoded(r),
            ) => model_decoded(origin, start_time, progress, left, right, sample_rate, r),
            (Flow::Infer { origin, start_time, progress, sample_rate }, Reply::Stems(r)) =>
                stems_given(origin, start_time, progress, sample_rate, r),
            (Flow::StemFile { job, index }, Reply::Text(r)) => stem_written(job, index, r),
            (Flow::StemTrack { job, index, path }, Reply::Text(r)) => stem_track_added(
                job,
                index,
                path,
                r,
            ),
            (Flow::StemClip { job, index }, Reply::Text(r)) => stem_clip_added(job, index, r),
            (Flow::SmokeRun, Reply::Bytes(r)) => smoke_run(r),
            (Flow::SmokeText, Reply::Text(r)) => smoke_written(r),
            _ => finish(no_effects(), Ok("".to_string())),
        };
        match read {
            Some(bytes) => {
                self.model = Some(bytes);
            },
            None => {},
        }
        assert(r.step(self.kept_model()) == crate::flows::resumed(model, before, reply@));
        self.flow = r.flow;
        r.turn
    }
}

} // verus!
