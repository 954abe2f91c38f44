//! What the extension asks of its host, and what the host replies.
//!
//! The extension works in turns. A turn is a list of effects, whose replies do
//! not matter, and then either a query, whose reply starts the next turn, or
//! the end of the work.
use vstd::prelude::*;

verus! {

/// How urgent a notification is.
#[derive(Clone, Copy, Debug, PartialEq, Eq, Structural)]
pub enum NotifyLevel {
    Info,
    Success,
    Error,
}

/// The colour of a track.
#[derive(Clone, Copy, Debug, PartialEq, Eq, Structural)]
pub struct ColorRgb {
    pub r: u8,
    pub g: u8,
    pub b: u8,
}

/// Something that the host is told.
#[derive(Debug)]
pub enum Effect {
    /// Show a notification.
    Notify { level: NotifyLevel, text: String },
    /// Change a widget of the extension's panel; `state` is a JSON object.
    UpdateWidget { widget: String, state: String },
    /// Move a progress display on.
    UpdateProgress { id: String, text: String, percent: u8 },
    /// Take a progress display down.
    CompleteProgress { id: String, text: String },
}

/// What an [`Effect`] says.
pub enum EffectView {
    Notify { level: NotifyLevel, text: Seq<char> },
    UpdateWidget { widget: Seq<char>, state: Seq<char> },
    UpdateProgress { id: Seq<char>, text: Seq<char>, percent: u8 },
    CompleteProgress { id: Seq<char>, text: Seq<char> },
}

impl View for Effect {
    type V = EffectView;

    open spec fn view(&self) -> EffectView {
        match *self {
            Effect::Notify { level, text } => EffectView::Notify { level, text: text@ },
            Effect::UpdateWidget { widget, state } => EffectView::UpdateWidget {
                widget: widget@,
                state: state@,
            },
            Effect::UpdateProgress { id, text, percent } => EffectView::UpdateProgress {
                id: id@,
                text: text@,
                percent,
            },
            Effect::CompleteProgress { id, text } => EffectView::CompleteProgress {
                id: id@,
                text: text@,
            },
        }
    }
}

/// What a list of effects says.
pub open spec fn effects_view(effects: Seq<Effect>) -> Seq<EffectView> {
    Seq::new(effects.len(), |i: int| effects[i]@)
}

/// One stem that separation gave: two channels of samples, each sample as the
/// bits of a single-precision number.
#[derive(Debug)]
pub struct Stem {
    pub left: Vec<u32>,
    pub right: Vec<u32>,
}

/// What a [`Stem`] holds.
pub struct StemView {
    pub left: Seq<u32>,
    pub right: Seq<u32>,
}

impl View for Stem {
    type V = StemView;

    open spec fn view(&self) -> StemView {
        StemView { left: self.left@, right: self.right@ }
    }
}

/// What a list of stems holds.
pub open spec fn stems_view(stems: Seq<Stem>) -> Seq<StemView> {
    Seq::new(stems.len(), |i: int| stems[i]@)
}

/// The audio of a track: its channels, each sample as the bits of a
/// single-precision number, and the sample rate.
#[derive(Debug)]
pub struct TrackAudio {
    pub channels: Vec<Vec<u32>>,
    pub sample_rate: u32,
}

/// What a [`TrackAudio`] holds.
pub struct TrackAudioView {
    pub channels: Seq<Seq<u32>>,
    pub sample_rate: u32,
}

impl View for TrackAudio {
    type V = TrackAudioView;

    open spec fn view(&self) -> TrackAudioView {
        TrackAudioView {
            channels: Seq::new(self.channels@.len(), |i: int| self.channels@[i]@),
            sample_rate: self.sample_rate,
        }
    }
}

/// Something that the host is asked.
#[derive(Debug)]
pub enum Query {
    /// Whether a file exists in the extension's storage; the reply is a text,
    /// `true` or `false`.
    FileExists { path: String },
    /// To download a file into the extension's storage.
    DownloadFile { url: String, path: String },
    /// For the bytes of a file.
    ReadBytes { path: String },
    /// To write a file; the reply is its absolute path.
    WriteBytes { path: String, bytes: Vec<u8> },
    /// To put up a progress display; the reply is its name.
    ShowProgress { text: String, cancellable: bool },
    /// Which track is selected.
    SelectedTrack,
    /// For the audio of a track.
    TrackAudio { track: String },
    /// To decode the model's weights, for four stems.
    DecodeModel { bytes: Vec<u8> },
    /// To separate two channels with the decoded model.
    Separate { left: Vec<u32>, right: Vec<u32>, sample_rate: u32 },
    /// To add an audio track without clips, effects or sends; the reply names
    /// it.
    AddTrack {
        name: String,
        color: ColorRgb,
        volume_percent: u8,
        pan_percent: i8,
        muted: bool,
        soloed: bool,
    },
    /// To add an audio clip to a track. `start_time` is the bits of a
    /// double-precision number.
    AddClip {
        track: String,
        name: String,
        start_time: u64,
        length_beats: u32,
        sample_path: String,
        playback_percent: u8,
        loop_enabled: bool,
        loop_start: u32,
        loop_end: u32,
    },
    /// To add a number to each of some others on the tensor runtime. The reply
    /// is the bytes of the sums.
    AddScalar { values: Vec<u32>, addend: u32 },
    /// To write numbers as a JSON array.
    NumbersJson { words: Vec<u32> },
}

/// What a [`Query`] says.
pub enum QueryView {
    FileExists { path: Seq<char> },
    DownloadFile { url: Seq<char>, path: Seq<char> },
    ReadBytes { path: Seq<char> },
    WriteBytes { path: Seq<char>, bytes: Seq<u8> },
    ShowProgress { text: Seq<char>, cancellable: bool },
    SelectedTrack,
    TrackAudio { track: Seq<char> },
    DecodeModel { bytes: Seq<u8> },
    Separate { left: Seq<u32>, right: Seq<u32>, sample_rate: u32 },
    AddTrack {
        name: Seq<char>,
        color: ColorRgb,
        volume_percent: u8,
        pan_percent: i8,
        muted: bool,
        soloed: bool,
    },
    AddClip {
        track: Seq<char>,
        name: Seq<char>,
        start_time: u64,
        length_beats: u32,
        sample_path: Seq<char>,
        playback_percent: u8,
        loop_enabled: bool,
        loop_start: u32,
        loop_end: u32,
    },
    AddScalar { values: Seq<u32>, addend: u32 },
    NumbersJson { words: Seq<u32> },
}

impl View for Query {
    type V = QueryView;

    open spec fn view(&self) -> QueryView {
        match *self {
            Query::FileExists { path } => QueryView::FileExists { path: path@ },
            Query::DownloadFile { url, path } => QueryView::DownloadFile {
                url: url@,
                path: path@,
            },
            Query::ReadBytes { path } => QueryView::ReadBytes { path: path@ },
            Query::WriteBytes { path, bytes } => QueryView::WriteBytes {
                path: path@,
                bytes: bytes@,
            },
            Query::ShowProgress { text, cancellable } => QueryView::ShowProgress {
                text: text@,
                cancellable,
            },
            Query::SelectedTrack => QueryView::SelectedTrack,
            Query::TrackAudio { track } => QueryView::TrackAudio { track: track@ },
            Query::DecodeModel { bytes } => QueryView::DecodeModel { bytes: bytes@ },
            Query::Separate { left, right, sample_rate } => QueryView::Separate {
                left: left@,
                right: right@,
                sample_rate,
            },
            Query::AddTrack { name, color, volume_percent, pan_percent, muted, soloed } =>
                QueryView::AddTrack {
                name: name@,
                color,
                volume_percent,
                pan_percent,
                muted,
                soloed,
            },
            Query::AddClip {
                track,
                name,
                start_time,
                length_beats,
                sample_path,
                playback_percent,
                loop_enabled,
                loop_start,
                loop_end,
            } => QueryView::AddClip {
                track: track@,
                name: name@,
                start_time,
                length_beats,
                sample_path: sample_path@,
                playback_percent,
                loop_enabled,
                loop_start,
                loop_end,
            },
            Query::AddScalar { values, addend } => QueryView::AddScalar {
                values: values@,
                addend,
            },
            Query::NumbersJson { words } => QueryView::NumbersJson { words: words@ },
        }
    }
}

/// What the host replies to a query; `Err` holds the host's message.
#[derive(Debug)]
pub enum Reply {
    Text(Result<String, String>),
    Bytes(Result<Vec<u8>, String>),
    Track(Result<Option<String>, String>),
    Audio(Result<TrackAudio, String>),
    Decoded(Result<(), String>),
    Stems(Result<Vec<Stem>, String>),
}

/// What a [`Reply`] says.
pub enum ReplyView {
    Text(Result<Seq<char>, Seq<char>>),
    Bytes(Result<Seq<u8>, Seq<char>>),
    Track(Result<Option<Seq<char>>, Seq<char>>),
    Audio(Result<TrackAudioView, Seq<char>>),
    Decoded(Result<(), Seq<char>>),
    Stems(Result<Seq<StemView>, Seq<char>>),
}

/// What a result of two texts says.
pub open spec fn outcome_view(r: Result<String, String>) -> Result<Seq<char>, Seq<char>> {
    match r {
        Ok(s) => Ok(s@),
        Err(e) => Err(e@),
    }
}

impl View for Reply {
    type V = ReplyView;

    open spec fn view(&self) -> ReplyView {
        match *self {
            Reply::Text(r) => ReplyView::Text(outcome_view(r)),
            Reply::Bytes(r) => ReplyView::Bytes(
                match r {
                    Ok(bytes) => Ok(bytes@),
                    Err(e) => Err(e@),
                },
            ),
            Reply::Track(r) => ReplyView::Track(
                match r {
                    Ok(Some(track)) => Ok(Some(track@)),
                    Ok(None) => Ok(None),
                    Err(e) => Err(e@),
                },
            ),
            Reply::Audio(r) => ReplyView::Audio(
                match r {
                    Ok(audio) => Ok(audio@),
                    Err(e) => Err(e@),
                },
            ),
            Reply::Decoded(r) => ReplyView::Decoded(
                match r {
                    Ok(()) => Ok(()),
                    Err(e) => Err(e@),
                },
            ),
            Reply::Stems(r) => ReplyView::Stems(
                match r {
                    Ok(stems) => Ok(stems_view(stems@)),
                    Err(e) => Err(e@),
                },
            ),
        }
    }
}

/// What comes behind the effects of a turn.
#[derive(Debug)]
pub enum Next {
    /// A query, whose reply is waited for.
    Ask(Query),
    /// The end of the work, and its outcome.
    Finish(Result<String, String>),
}

/// What a [`Next`] says.
pub enum NextView {
    Ask(QueryView),
    Finish(Result<Seq<char>, Seq<char>>),
}

impl View for Next {
    type V = NextView;

    open spec fn view(&self) -> NextView {
        match *self {
            Next::Ask(query) => NextView::Ask(query@),
            Next::Finish(r) => NextView::Finish(outcome_view(r)),
        }
    }
}

/// One turn of the extension's work.
#[derive(Debug)]
pub struct Turn {
    /// What the host is told, in order.
    pub effects: Vec<Effect>,
    pub next: Next,
}

/// What an effect says is what it holds.
pub proof fn law_effects_say_what_they_hold(
    level: NotifyLevel,
    a: String,
    b: String,
    percent: u8,
    effects: Seq<Effect>,
    i: int,
)
    requires
        0 <= i < effects.len(),
    ensures
        (Effect::Notify { level, text: a })@ == (EffectView::Notify { level, text: a@ }),
        (Effect::UpdateWidget { widget: a, state: b })@ == (EffectView::UpdateWidget {
            widget: a@,
            state: b@,
        }),
        (Effect::UpdateProgress { id: a, text: b, percent })@ == (EffectView::UpdateProgress {
            id: a@,
            text: b@,
            percent,
        }),
        (Effect::CompleteProgress { id: a, text: b })@ == (EffectView::CompleteProgress {
            id: a@,
            text: b@,
        }),
        effects_view(effects).len() == effects.len(),
        effects_view(effects)[i] == effects[i]@,
{
}

/// What a query for storage, progress, a track or the tensor runtime says is
/// what it holds.
pub proof fn law_queries_say_what_they_hold(
    a: String,
    b: String,
    bytes: Vec<u8>,
    cancellable: bool,
    left: Vec<u32>,
    right: Vec<u32>,
    sample_rate: u32,
    outcome: Result<String, String>,
    query: Query,
)
    ensures
        (Query::FileExists { path: a })@ == (QueryView::FileExists { path: a@ }),
        (Query::DownloadFile { url: a, path: b })@ == (QueryView::DownloadFile {
            url: a@,
            path: b@,
        }),
        (Query::ReadBytes { path: a })@ == (QueryView::ReadBytes { path: a@ }),
        (Query::WriteBytes { path: a, bytes })@ == (QueryView::WriteBytes {
            path: a@,
            bytes: bytes@,
        }),
        (Query::ShowProgress { text: a, cancellable })@ == (QueryView::ShowProgress {
            text: a@,
            cancellable,
        }),
        Query::SelectedTrack@ == QueryView::SelectedTrack,
        (Query::TrackAudio { track: a })@ == (QueryView::TrackAudio { track: a@ }),
        (Query::DecodeModel { bytes })@ == (QueryView::DecodeModel { bytes: bytes@ }),
        (Query::Separate { left, right, sample_rate })@ == (QueryView::Separate {
            left: left@,
            right: right@,
            sample_rate,
        }),
        (Query::AddScalar { values: left, addend: sample_rate })@ == (QueryView::AddScalar {
            values: left@,
            addend: sample_rate,
        }),
        (Query::NumbersJson { words: left })@ == (QueryView::NumbersJson { words: left@ }),
        Next::Ask(query)@ == NextView::Ask(query@),
        Next::Finish(outcome)@ == NextView::Finish(
            match outcome {
                Ok(s) => Ok(s@),
                Err(e) => Err(e@),
            },
        ),
{
}

/// What a query for a track or a clip says is what it holds.
pub proof fn law_additions_say_what_they_hold(
    a: String,
    b: String,
    c: String,
    color: ColorRgb,
    volume_percent: u8,
    pan_percent: i8,
    muted: bool,
    soloed: bool,
    start_time: u64,
    length_beats: u32,
    playback_percent: u8,
    loop_enabled: bool,
    loop_start: u32,
    loop_end: u32,
)
    ensures
        (Query::AddTrack { name: a, color, volume_percent, pan_percent, muted, soloed })@ == (
        QueryView::AddTrack { name: a@, color, volume_percent, pan_percent, muted, soloed }),
        (Query::AddClip {
            track: a,
            name: b,
            start_time,
            length_beats,
            sample_path: c,
            playback_percent,
            loop_enabled,
            loop_start,
            loop_end,
        })@ == (QueryView::AddClip {
            track: a@,
            name: b@,
            start_time,
            length_beats,
            sample_path: c@,
            playback_percent,
            loop_enabled,
            loop_start,
            loop_end,
        }),
{
}

/// What a reply says is what it holds.
pub proof fn law_replies_say_what_they_hold(
    text: String,
    bytes: Vec<u8>,
    audio: TrackAudio,
    stems: Vec<Stem>,
    i: int,
)
    requires
        0 <= i < audio.channels@.len(),
        i < stems@.len(),
    ensures
        Reply::Text(Ok(text))@ == ReplyView::Text(Ok(text@)),
        Reply::Text(Err(text))@ == ReplyView::Text(Err(text@)),
        Reply::Bytes(Ok(bytes))@ == ReplyView::Bytes(Ok(bytes@)),
        Reply::Bytes(Err(text))@ == ReplyView::Bytes(Err(text@)),
        Reply::Track(Ok(Some(text)))@ == ReplyView::Track(Ok(Some(text@))),
        Reply::Track(Ok(None))@ == ReplyView::Track(Ok(None)),
        Reply::Track(Err(text))@ == ReplyView::Track(Err(text@)),
        Reply::Audio(Ok(audio))@ == ReplyView::Audio(Ok(audio@)),
        Reply::Audio(Err(text))@ == ReplyView::Audio(Err(text@)),
        Reply::Decoded(Ok(()))@ == ReplyView::Decoded(Ok(())),
        Reply::Decoded(Err(text))@ == ReplyView::Decoded(Err(text@)),
        Reply::Stems(Ok(stems))@ == ReplyView::Stems(Ok(stems_view(stems@))),
        Reply::Stems(Err(text))@ == ReplyView::Stems(Err(text@)),
        audio@.sample_rate == audio.sample_rate,
        audio@.channels.len() == audio.channels@.len(),
        audio@.channels[i] == audio.channels@[i]@,
        stems_view(stems@).len() == stems@.len(),
        stems_view(stems@)[i].left == stems@[i].left@,
        stems_view(stems@)[i].right == stems@[i].right@,
{
}

} // verus!
