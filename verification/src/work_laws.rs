//! Whole pieces of the extension's work, from what starts them to their end,
//! for every reply that the host may give.
use vstd::prelude::*;

use crate::flows::{FlowView, Origin, StemJobView};
use crate::host::{
    ColorRgb, EffectView, NextView, NotifyLevel, QueryView, ReplyView, StemView, TrackAudioView,
};

verus! {

/// The download command: it asks whether the model is there, and downloads it
/// if the host does not say so; the model that is kept stays as it is.
pub proof fn law_download_command(
    model: Option<Seq<u8>>,
    args: Seq<char>,
    there: Result<Seq<char>, Seq<char>>,
    fetched: Result<Seq<char>, Seq<char>>,
)
    ensures
        ({
            let begun = crate::flows::commanded(model, "demucs.download"@, args);
            let checked = crate::flows::resumed(begun.model, begun.flow, ReplyView::Text(there));
            let done = crate::flows::resumed(checked.model, checked.flow, ReplyView::Text(fetched));
            &&& begun.model == model
            &&& begun.effects.len() == 0
            &&& begun.next == NextView::Ask(
                QueryView::FileExists { path: "htdemucs.safetensors"@ },
            )
            &&& checked.model == model
            &&& there == Ok::<Seq<char>, Seq<char>>("true"@) ==> {
                &&& checked.effects.len() == 0
                &&& checked.next == NextView::Finish(Ok("Model already downloaded"@))
            }
            &&& there != Ok::<Seq<char>, Seq<char>>("true"@) ==> {
                &&& checked.effects == seq![
                    EffectView::Notify {
                        level: NotifyLevel::Info,
                        text: "Downloading HTDemucs model..."@,
                    },
                ]
                &&& checked.next == NextView::Ask(
                    QueryView::DownloadFile {
                        url: "https://huggingface.co/smank/htdemucs-safetensors/resolve/main/htdemucs.safetensors"@,
                        path: "htdemucs.safetensors"@,
                    },
                )
                &&& done.model == model
                &&& done.effects.len() == 0
                &&& done.next == NextView::Finish(
                    match fetched {
                        Ok(_) => Ok("Model downloaded"@),
                        Err(e) => Err(e),
                    },
                )
            }
        }),
{
}

/// Loading, by the command or by the button: where the host says that the model
/// is there, its bytes are asked for and kept; the panel is told how it went.
pub proof fn law_loading(
    model: Option<Seq<u8>>,
    origin: Origin,
    there: Result<Seq<char>, Seq<char>>,
    read: Result<Seq<u8>, Seq<char>>,
)
    ensures
        ({
            let checked = crate::flows::resumed(
                model,
                FlowView::LoadCheck { origin },
                ReplyView::Text(there),
            );
            let done = crate::flows::resumed(checked.model, checked.flow, ReplyView::Bytes(read));
            let missing = "Model file not found. Please download first."@;
            let retry = EffectView::UpdateWidget {
                widget: "load_model"@,
                state: crate::panel::button_json("Retry Load"@, true),
            };
            let loaded = seq![
                EffectView::Notify {
                    level: NotifyLevel::Success,
                    text: "Model loaded successfully"@,
                },
                EffectView::UpdateWidget {
                    widget: "separate"@,
                    state: crate::panel::enabled_json(true),
                },
                EffectView::UpdateWidget {
                    widget: "load_model"@,
                    state: crate::panel::button_json("Model Loaded"@, false),
                },
            ];
            &&& checked.model == model
            &&& there != Ok::<Seq<char>, Seq<char>>("true"@) ==> {
                &&& checked.next == NextView::Finish(Err(missing))
                &&& origin is Command ==> checked.effects.len() == 0
                &&& origin is Panel ==> checked.effects == seq![
                    retry,
                    EffectView::Notify {
                        level: NotifyLevel::Error,
                        text: "Load failed: "@ + missing,
                    },
                ]
            }
            &&& there == Ok::<Seq<char>, Seq<char>>("true"@) ==> {
                &&& checked.effects == seq![
                    EffectView::Notify {
                        level: NotifyLevel::Info,
                        text: "Loading model bytes..."@,
                    },
                ]
                &&& checked.next == NextView::Ask(
                    QueryView::ReadBytes { path: "htdemucs.safetensors"@ },
                )
                &&& read matches Ok(bytes) ==> {
                    &&& done.model == Some(bytes)
                    &&& done.next == NextView::Finish(Ok("Model bytes cached in extension"@))
                    &&& origin is Command ==> done.effects == loaded
                    &&& origin is Panel ==> done.effects == loaded.push(
                        EffectView::Notify {
                            level: NotifyLevel::Success,
                            text: "Model loaded and ready"@,
                        },
                    )
                }
                &&& read matches Err(e) ==> {
                    &&& done.model == model
                    &&& done.next == NextView::Finish(Err("Failed to read model bytes: "@ + e))
                    &&& origin is Command ==> done.effects.len() == 0
                    &&& origin is Panel ==> done.effects == seq![
                        retry,
                        EffectView::Notify {
                            level: NotifyLevel::Error,
                            text: "Load failed: "@ + ("Failed to read model bytes: "@ + e),
                        },
                    ]
                }
            }
        }),
{
    let checked = crate::flows::resumed(
        model,
        FlowView::LoadCheck { origin },
        ReplyView::Text(there),
    );
    let done = crate::flows::resumed(checked.model, checked.flow, ReplyView::Bytes(read));
    assert(there == Ok::<Seq<char>, Seq<char>>("true"@) ==> checked.flow == (FlowView::LoadRead {
        origin,
    }));
}

/// The load command starts loading, and the load button does once it knows that
/// the model is there or has been downloaded.
pub proof fn law_what_starts_loading(
    model: Option<Seq<u8>>,
    args: Seq<char>,
    data: Seq<char>,
    first: Result<Seq<char>, Seq<char>>,
    second: Result<Seq<char>, Seq<char>>,
    fetched: Result<Seq<char>, Seq<char>>,
)
    requires
        crate::json::json_fault(data) is None,
        crate::json::json_text_member(data, "event_type"@) == Some("clicked"@),
        crate::json::json_text_member(data, "widget_id"@) == Some("load_model"@),
    ensures
        ({
            let asks = NextView::Ask(QueryView::FileExists { path: "htdemucs.safetensors"@ });
            let panel = FlowView::LoadCheck { origin: Origin::Panel };
            let command = crate::flows::commanded(model, "demucs.load"@, args);
            let pressed = crate::flows::notified(model, "ui"@, data);
            let one = crate::flows::resumed(pressed.model, pressed.flow, ReplyView::Text(first));
            let two = crate::flows::resumed(one.model, one.flow, ReplyView::Text(second));
            let three = crate::flows::resumed(two.model, two.flow, ReplyView::Text(fetched));
            &&& command.model == model
            &&& command.effects.len() == 0
            &&& command.next == asks
            &&& command.flow == (FlowView::LoadCheck { origin: Origin::Command })
            &&& pressed.model == model
            &&& pressed.effects == seq![
                EffectView::UpdateWidget {
                    widget: "load_model"@,
                    state: crate::panel::button_json("Loading..."@, false),
                },
            ]
            &&& pressed.next == asks
            &&& one.model == model
            &&& one.next == asks
            &&& first == Ok::<Seq<char>, Seq<char>>("true"@) ==> one.effects.len() == 0 && one.flow
                == panel
            &&& first != Ok::<Seq<char>, Seq<char>>("true"@) ==> {
                &&& one.effects == seq![
                    EffectView::UpdateWidget {
                        widget: "model_progress"@,
                        state: crate::panel::progress_json("0.1"@, "Downloading..."@),
                    },
                ]
                &&& two.model == model
                &&& second == Ok::<Seq<char>, Seq<char>>("true"@) ==> two.effects.len() == 0
                    && two.next == asks && two.flow == panel
                &&& second != Ok::<Seq<char>, Seq<char>>("true"@) ==> {
                    &&& two.effects == seq![
                        EffectView::Notify {
                            level: NotifyLevel::Info,
                            text: "Downloading HTDemucs model..."@,
                        },
                    ]
                    &&& two.next == NextView::Ask(
                        QueryView::DownloadFile {
                            url: "https://huggingface.co/smank/htdemucs-safetensors/resolve/main/htdemucs.safetensors"@,
                            path: "htdemucs.safetensors"@,
                        },
                    )
                    &&& three.model == model
                    &&& fetched is Ok ==> three.effects.len() == 0 && three.next == asks
                        && three.flow == panel
                    &&& fetched matches Err(e) ==> {
                        &&& three.next == NextView::Finish(Err(e))
                        &&& three.effects == seq![
                            EffectView::UpdateWidget {
                                widget: "load_model"@,
                                state: crate::panel::button_json("Download & Load Model"@, true),
                            },
                        ]
                    }
                }
            }
        }),
{
    reveal_strlit("demucs.download");
    reveal_strlit("demucs.load");
    assert("demucs.download"@.len() != "demucs.load"@.len());
}

/// Activation: where the host says that the model is there, the panel offers to
/// load it and shows it as downloaded.
pub proof fn law_activation(model: Option<Seq<u8>>, there: Result<Seq<char>, Seq<char>>)
    ensures
        ({
            let done = crate::flows::resumed(
                model,
                FlowView::ActivateCheck,
                ReplyView::Text(there),
            );
            &&& done.model == model
            &&& done.next == NextView::Finish(Ok("demucs extension activated"@))
            &&& there != Ok::<Seq<char>, Seq<char>>("true"@) ==> done.effects.len() == 0
            &&& there == Ok::<Seq<char>, Seq<char>>("true"@) ==> done.effects == seq![
                EffectView::UpdateWidget {
                    widget: "load_model"@,
                    state: crate::panel::button_json("Load Model"@, true),
                },
                EffectView::UpdateWidget {
                    widget: "model_progress"@,
                    state: crate::panel::progress_json("1.0"@, "Model downloaded"@),
                },
            ]
        }),
{
}

/// Commands that are not known and events that do not matter.
pub proof fn law_everything_else(
    model: Option<Seq<u8>>,
    command_id: Seq<char>,
    args: Seq<char>,
    event_type: Seq<char>,
    data: Seq<char>,
)
    ensures
        ({
            let step = crate::flows::commanded(model, command_id, args);
            command_id != "demucs.download"@ && command_id != "demucs.load"@ && command_id
                != "demucs.separate"@ && command_id != "demucs.burn_smoke"@ ==> {
                &&& step.model == model
                &&& step.effects.len() == 0
                &&& step.next == NextView::Finish(Err("Unknown command: "@ + command_id))
            }
        }),
        ({
            let step = crate::flows::notified(model, event_type, data);
            let fault = crate::json::json_fault(data);
            let widget = crate::json::json_text_member(data, "widget_id"@);
            let clicked = crate::json::json_text_member(data, "event_type"@) == Some("clicked"@);
            let button = widget == Some("load_model"@) || widget == Some("separate"@);
            &&& step.model == model
            &&& event_type != "ui"@ ==> step.effects.len() == 0 && step.next == NextView::Finish(
                Ok(""@),
            )
            &&& event_type == "ui"@ && fault is Some ==> step.effects.len() == 0 && step.next
                == NextView::Finish(Err("Parse UI event: "@ + fault->0))
            &&& event_type == "ui"@ && fault is None && !(clicked && button) ==> step.effects.len()
                == 0 && step.next == NextView::Finish(Ok(""@))
        }),
{
}

/// The separate command: what is asked for is read out of its arguments, and
/// refused where they cannot be read or no model has been loaded.
pub proof fn law_separate_command(model: Option<Seq<u8>>, args: Seq<char>)
    ensures
        ({
            let step = crate::flows::commanded(model, "demucs.separate"@, args);
            let fault = crate::json::json_fault(args);
            let track = crate::json::json_text_member(args, "track_id"@);
            let time = crate::json::json_number_member(args, "start_time"@);
            &&& step.model == model
            &&& step.effects.len() == 0
            &&& fault is Some ==> step.next == NextView::Finish(
                Err("Invalid args JSON: "@ + fault->0),
            )
            &&& fault is None && track is None ==> step.next == NextView::Finish(
                Err("Missing track_id in args"@),
            )
            &&& fault is None && track is Some && model is None ==> step.next == NextView::Finish(
                Err("Model not loaded. Click 'Load Model' first."@),
            )
            &&& fault is None && track is Some && model is Some ==> {
                &&& step.next == NextView::Ask(
                    QueryView::ShowProgress { text: "Separating stems..."@, cancellable: true },
                )
                &&& step.flow == (FlowView::ShowProgress {
                    origin: Origin::Command,
                    track: track->0,
                    start_time: match time {
                        Some(bits) => bits,
                        None => 0,
                    },
                })
            }
        }),
{
    reveal_strlit("demucs.separate");
    reveal_strlit("demucs.download");
    reveal_strlit("demucs.load");
    assert("demucs.separate"@[7] == 's');
    assert("demucs.download"@[7] == 'd');
    assert("demucs.load"@[7] == 'l');
}

/// The separate button: the host is asked for the track that is selected, and
/// that track is separated, from the beginning of the project. That its name is
/// read back from the arguments is what writing them ensures.
pub proof fn law_separate_button(
    model: Option<Seq<u8>>,
    data: Seq<char>,
    reply: Result<Option<Seq<char>>, Seq<char>>,
)
    requires
        crate::json::json_fault(data) is None,
        crate::json::json_text_member(data, "event_type"@) == Some("clicked"@),
        crate::json::json_text_member(data, "widget_id"@) == Some("separate"@),
    ensures
        ({
            let pressed = crate::flows::notified(model, "ui"@, data);
            let step = crate::flows::resumed(pressed.model, pressed.flow, ReplyView::Track(reply));
            let refused = "Model not loaded. Click 'Load Model' first."@;
            &&& pressed.model == model
            &&& pressed.effects.len() == 0
            &&& pressed.next == NextView::Ask(QueryView::SelectedTrack)
            &&& step.model == model
            &&& reply matches Err(e) ==> {
                &&& step.effects == seq![
                    EffectView::Notify {
                        level: NotifyLevel::Error,
                        text: "Failed to get selection: "@ + e,
                    },
                ]
                &&& step.next == NextView::Finish(Err(e))
            }
            &&& reply matches Ok(None) ==> {
                &&& step.effects == seq![
                    EffectView::Notify {
                        level: NotifyLevel::Error,
                        text: "No track selected. Select an audio track first."@,
                    },
                ]
                &&& step.next == NextView::Finish(Ok(""@))
            }
            &&& reply matches Ok(Some(track)) ==> {
                let told = EffectView::Notify {
                    level: NotifyLevel::Info,
                    text: "Separating track "@ + track + "..."@,
                };
                let args = crate::panel::separate_args_json(track);
                crate::json::json_fault(args) is None && crate::json::json_text_member(
                    args,
                    "track_id"@,
                ) == Some(track) && crate::json::json_number_member(args, "start_time"@) == Some(
                    0u64,
                ) ==> {
                    &&& model is None ==> {
                        &&& step.effects == seq![
                            told,
                            EffectView::Notify {
                                level: NotifyLevel::Error,
                                text: "Separation failed: "@ + refused,
                            },
                        ]
                        &&& step.next == NextView::Finish(Err(refused))
                    }
                    &&& model is Some ==> {
                        &&& step.effects == seq![told]
                        &&& step.next == NextView::Ask(
                            QueryView::ShowProgress {
                                text: "Separating stems..."@,
                                cancellable: true,
                            },
                        )
                        &&& step.flow == (FlowView::ShowProgress {
                            origin: Origin::Panel,
                            track,
                            start_time: 0,
                        })
                    }
                }
            }
        }),
{
    reveal_strlit("load_model");
    reveal_strlit("separate");
    assert("load_model"@.len() != "separate"@.len());
}

/// A failure of the host ends a separation with a message of its own; the
/// command shows nothing more, the button tells what went wrong.
pub proof fn law_separation_failures_are_told(
    model: Option<Seq<u8>>,
    origin: Origin,
    e: Seq<char>,
    start_time: u64,
    progress: Seq<char>,
    left: Seq<u32>,
    right: Seq<u32>,
    sample_rate: u32,
    job: StemJobView,
    index: nat,
    path: Seq<char>,
)
    requires
        job.origin == origin,
    ensures
        ({
            let audio = crate::flows::resumed(
                model,
                FlowView::ReadAudio { origin, start_time, progress },
                ReplyView::Audio(Err(e)),
            );
            let silent = crate::flows::resumed(
                model,
                FlowView::ReadAudio { origin, start_time, progress },
                ReplyView::Audio(Ok(TrackAudioView { channels: Seq::empty(), sample_rate })),
            );
            let decode = crate::flows::resumed(
                model,
                FlowView::Decode { origin, start_time, progress, left, right, sample_rate },
                ReplyView::Decoded(Err(e)),
            );
            let infer = crate::flows::resumed(
                model,
                FlowView::Infer { origin, start_time, progress, sample_rate },
                ReplyView::Stems(Err(e)),
            );
            let file = crate::flows::resumed(
                model,
                FlowView::StemFile { job, index },
                ReplyView::Text(Err(e)),
            );
            let track = crate::flows::resumed(
                model,
                FlowView::StemTrack { job, index, path },
                ReplyView::Text(Err(e)),
            );
            let clip = crate::flows::resumed(
                model,
                FlowView::StemClip { job, index },
                ReplyView::Text(Err(e)),
            );
            &&& audio.next == NextView::Finish(Err("Failed to read audio: "@ + e))
            &&& silent.next == NextView::Finish(Err("No audio channels returned"@))
            &&& decode.next == NextView::Finish(Err("Decode model: "@ + e))
            &&& infer.next == NextView::Finish(Err("Separation: "@ + e))
            &&& file.next == NextView::Finish(Err("Write stem: "@ + e))
            &&& track.next == NextView::Finish(Err("Add stem track: "@ + e))
            &&& clip.next == NextView::Finish(Err("Add stem clip: "@ + e))
            &&& origin is Command ==> audio.effects.len() == 0 && silent.effects.len() == 0
                && decode.effects.len() == 0 && infer.effects.len() == 0 && file.effects.len() == 0
                && track.effects.len() == 0 && clip.effects.len() == 0
            &&& origin is Panel ==> {
                let error = NotifyLevel::Error;
                let failed = "Separation failed: "@;
                &&& audio.effects == seq![
                    EffectView::Notify {
                        level: error,
                        text: failed + ("Failed to read audio: "@ + e),
                    },
                ]
                &&& silent.effects == seq![
                    EffectView::Notify { level: error, text: failed + "No audio channels returned"@ },
                ]
                &&& decode.effects == seq![
                    EffectView::Notify { level: error, text: failed + ("Decode model: "@ + e) },
                ]
                &&& infer.effects == seq![
                    EffectView::Notify { level: error, text: failed + ("Separation: "@ + e) },
                ]
                &&& file.effects == seq![
                    EffectView::Notify { level: error, text: failed + ("Write stem: "@ + e) },
                ]
                &&& track.effects == seq![
                    EffectView::Notify { level: error, text: failed + ("Add stem track: "@ + e) },
                ]
                &&& clip.effects == seq![
                    EffectView::Notify { level: error, text: failed + ("Add stem clip: "@ + e) },
                ]
            }
        }),
{
}

/// A separation up to its stems: the audio of the track that was asked for is
/// read, the model that is kept is decoded, and its two first channels, or its
/// only one twice, are handed over at their own rate. The display that was put
/// up is moved on at every stage.
pub proof fn law_separation_of_a_track(
    bytes: Seq<u8>,
    origin: Origin,
    track: Seq<char>,
    start_time: u64,
    shown: Result<Seq<char>, Seq<char>>,
    audio: TrackAudioView,
    stems: Seq<StemView>,
)
    requires
        audio.channels.len() > 0,
    ensures
        ({
            let id = match shown {
                Ok(id) => id,
                Err(_) => Seq::empty(),
            };
            let read = crate::flows::resumed(
                Some(bytes),
                FlowView::ShowProgress { origin, track, start_time },
                ReplyView::Text(shown),
            );
            let decode = crate::flows::resumed(read.model, read.flow, ReplyView::Audio(Ok(audio)));
            let infer = crate::flows::resumed(
                decode.model,
                decode.flow,
                ReplyView::Decoded(Ok(())),
            );
            let given = crate::flows::resumed(infer.model, infer.flow, ReplyView::Stems(Ok(stems)));
            &&& read.model == Some(bytes) && decode.model == Some(bytes) && infer.model == Some(
                bytes,
            ) && given.model == Some(bytes)
            &&& read.effects.len() == 0
            &&& read.next == NextView::Ask(QueryView::TrackAudio { track })
            &&& decode.effects == seq![
                EffectView::UpdateProgress {
                    id,
                    text: "Decoding model weights..."@,
                    percent: 5,
                },
            ]
            &&& decode.next == NextView::Ask(QueryView::DecodeModel { bytes })
            &&& infer.effects == seq![
                EffectView::UpdateProgress { id, text: "Running inference..."@, percent: 15 },
            ]
            &&& infer.next == NextView::Ask(
                QueryView::Separate {
                    left: audio.channels[0],
                    right: if audio.channels.len() == 1 {
                        audio.channels[0]
                    } else {
                        audio.channels[1]
                    },
                    sample_rate: audio.sample_rate,
                },
            )
            &&& given.effects.len() > 0
            &&& given.effects[0] == (EffectView::UpdateProgress {
                id,
                text: "Writing stems..."@,
                percent: 90,
            })
            &&& given == crate::flows::next_stem(
                Some(bytes),
                StemJobView {
                    origin,
                    start_time,
                    progress: id,
                    sample_rate: audio.sample_rate,
                    stems,
                },
                0,
                seq![EffectView::UpdateProgress { id, text: "Writing stems..."@, percent: 90 }],
            )
        }),
{
    let id = match shown {
        Ok(id) => id,
        Err(_) => Seq::empty(),
    };
    let told = EffectView::UpdateProgress { id, text: "Writing stems..."@, percent: 90 };
    assert(crate::flows::quiet().push(told) =~= seq![told]);
}

/// What is written of a stem: a stereo file at the rate of the audio that holds,
/// behind the 68 bytes of the header, every sample of the stem's left channel
/// followed by the one of its right channel at the same place, as far as the
/// shorter channel goes, and nothing else.
pub proof fn law_stem_file_holds_both_channels(
    model: Option<Seq<u8>>,
    job: StemJobView,
    index: nat,
    effects: Seq<EffectView>,
)
    requires
        index < job.stems.len(),
        1 <= job.sample_rate,
        8 * job.sample_rate <= 0xffff_ffff,
        8 * job.stems[index as int].left.len() + 60 <= 0xffff_ffff || 8
            * job.stems[index as int].right.len() + 60 <= 0xffff_ffff,
    ensures
        ({
            let step = crate::flows::next_stem(model, job, index, effects);
            let left = job.stems[index as int].left;
            let right = job.stems[index as int].right;
            &&& step.model == model
            &&& step.effects == effects
            &&& step.next matches NextView::Ask(QueryView::WriteBytes { path, bytes })
            &&& bytes.len() == 68 + 8 * (if left.len() <= right.len() {
                left.len()
            } else {
                right.len()
            })
            &&& bytes[22] + 256 * bytes[23] == 2
            &&& bytes[24] + 256 * bytes[25] + 65536 * bytes[26] + 16777216 * bytes[27]
                == job.sample_rate
            &&& forall|j: int|
                0 <= j < left.len() && j < right.len() ==> #[trigger] left[j] == bytes[68 + 8 * j]
                    + 256 * bytes[69 + 8 * j] + 65536 * bytes[70 + 8 * j] + 16777216 * bytes[71 + 8
                    * j]
            &&& forall|j: int|
                0 <= j < left.len() && j < right.len() ==> #[trigger] right[j] == bytes[72 + 8 * j]
                    + 256 * bytes[73 + 8 * j] + 65536 * bytes[74 + 8 * j] + 16777216 * bytes[75 + 8
                    * j]
        }),
{
    let left = job.stems[index as int].left;
    let right = job.stems[index as int].right;
    let samples = crate::wav::interleaved(left, right);
    let file = crate::wav::wav_header(2, job.sample_rate, samples.len())
        + crate::wav::words_bytes(samples);
    crate::wav::law_header_counts(2, job.sample_rate, samples.len());
    crate::wav::law_header_describes_samples(2, job.sample_rate, samples.len());
    assert forall|j: int| 0 <= j < left.len() && j < right.len() implies #[trigger] left[j]
        == file[68 + 8 * j] + 256 * file[69 + 8 * j] + 65536 * file[70 + 8 * j] + 16777216 * file[71
        + 8 * j] by {
        crate::wav::law_stereo_file(left, right, job.sample_rate, j);
    }
    assert forall|j: int| 0 <= j < left.len() && j < right.len() implies #[trigger] right[j]
        == file[72 + 8 * j] + 256 * file[73 + 8 * j] + 65536 * file[74 + 8 * j] + 16777216 * file[75
        + 8 * j] by {
        crate::wav::law_stereo_file(left, right, job.sample_rate, j);
    }
}

/// What a stem is called and coloured, by its place.
pub proof fn law_names_and_colours(index: nat)
    ensures
        index == 0 ==> crate::flows::stem_label(index) == "drums"@ && crate::flows::stem_color(
            index,
        ) == (ColorRgb { r: 220, g: 80, b: 80 }),
        index == 1 ==> crate::flows::stem_label(index) == "bass"@ && crate::flows::stem_color(index)
            == (ColorRgb { r: 80, g: 140, b: 220 }),
        index == 2 ==> crate::flows::stem_label(index) == "vocals"@ && crate::flows::stem_color(
            index,
        ) == (ColorRgb { r: 220, g: 180, b: 80 }),
        index == 3 ==> crate::flows::stem_label(index) == "other"@ && crate::flows::stem_color(
            index,
        ) == (ColorRgb { r: 140, g: 200, b: 140 }),
        index >= 4 ==> crate::flows::stem_label(index) == "stem"@ && crate::flows::stem_color(index)
            == (ColorRgb { r: 180, g: 180, b: 180 }),
{
}

/// What is made of a stem whose file is written: a track of its name and colour
/// at full volume, in the middle, neither muted nor alone, and on it a clip that
/// plays the file as it is from the time that was asked for. Then comes the next
/// stem, with nothing shown in between.
pub proof fn law_stem_gets_track_and_clip(
    model: Option<Seq<u8>>,
    job: StemJobView,
    index: nat,
    effects: Seq<EffectView>,
    path: Seq<char>,
    track: Seq<char>,
    clip: Seq<char>,
)
    requires
        index < job.stems.len(),
    ensures
        ({
            let label = crate::flows::stem_label(index);
            let file = crate::flows::next_stem(model, job, index, effects);
            let added = crate::flows::resumed(file.model, file.flow, ReplyView::Text(Ok(path)));
            let placed = crate::flows::resumed(
                added.model,
                added.flow,
                ReplyView::Text(Ok(track)),
            );
            let next = crate::flows::resumed(placed.model, placed.flow, ReplyView::Text(Ok(clip)));
            &&& file.next matches NextView::Ask(QueryView::WriteBytes { path: to, bytes }) && to
                == "stems/"@ + label + ".wav"@
            &&& added.model == model && added.effects.len() == 0
            &&& added.next == NextView::Ask(
                QueryView::AddTrack {
                    name: "stem ("@ + label + ")"@,
                    color: crate::flows::stem_color(index),
                    volume_percent: 100,
                    pan_percent: 0,
                    muted: false,
                    soloed: false,
                },
            )
            &&& placed.model == model && placed.effects.len() == 0
            &&& placed.next == NextView::Ask(
                QueryView::AddClip {
                    track,
                    name: label,
                    start_time: job.start_time,
                    length_beats: 0,
                    sample_path: path,
                    playback_percent: 100,
                    loop_enabled: false,
                    loop_start: 0,
                    loop_end: 0,
                },
            )
            &&& next == crate::flows::next_stem(model, job, index + 1, Seq::empty())
        }),
{
    assert(crate::flows::quiet() =~= Seq::<EffectView>::empty());
}

/// A separation whose stems have all been dealt with ends: its display is taken
/// down, and it tells how many stems there were.
pub proof fn law_separation_ends(
    model: Option<Seq<u8>>,
    job: StemJobView,
    index: nat,
    effects: Seq<EffectView>,
)
    requires
        index >= job.stems.len(),
    ensures
        ({
            let step = crate::flows::next_stem(model, job, index, effects);
            let message = "Separated into "@ + crate::text::decimal(job.stems.len()) + " stems"@;
            let complete = EffectView::CompleteProgress {
                id: job.progress,
                text: "Stem separation complete"@,
            };
            &&& step.model == model
            &&& step.next == NextView::Finish(Ok(message))
            &&& job.origin is Command ==> step.effects == effects.push(complete)
            &&& job.origin is Panel ==> step.effects == effects.push(complete).push(
                EffectView::Notify { level: NotifyLevel::Success, text: message },
            )
        }),
{
}

/// The tensor check: one is added to one, two and three, and the words that come
/// back, four bytes each with the lowest first, are written as JSON.
pub proof fn law_tensor_check(
    model: Option<Seq<u8>>,
    args: Seq<char>,
    sums: Result<Seq<u8>, Seq<char>>,
    text: Result<Seq<char>, Seq<char>>,
)
    ensures
        ({
            let begun = crate::flows::commanded(model, "demucs.burn_smoke"@, args);
            let run = crate::flows::resumed(begun.model, begun.flow, ReplyView::Bytes(sums));
            let done = crate::flows::resumed(run.model, run.flow, ReplyView::Text(text));
            &&& begun.model == model && run.model == model
            &&& begun.effects.len() == 0 && run.effects.len() == 0
            &&& begun.next == NextView::Ask(
                QueryView::AddScalar {
                    values: seq![0x3f80_0000u32, 0x4000_0000u32, 0x4040_0000u32],
                    addend: 0x3f80_0000u32,
                },
            )
            &&& sums matches Err(e) ==> run.next == NextView::Finish(Err("read tensor: "@ + e))
            &&& sums matches Ok(bytes) ==> {
                &&& run.next matches NextView::Ask(QueryView::NumbersJson { words })
                &&& words.len() == bytes.len() / 4
                &&& forall|i: int|
                    0 <= i < words.len() ==> #[trigger] words[i] == bytes[4 * i] + 256 * bytes[4 * i
                        + 1] + 65536 * bytes[4 * i + 2] + 16777216 * bytes[4 * i + 3]
                &&& done.model == model
                &&& done.effects.len() == 0
                &&& done.next == NextView::Finish(
                    match text {
                        Ok(s) => Ok(s),
                        Err(e) => Err("serialize burn_smoke: "@ + e),
                    },
                )
            }
        }),
{
    reveal_strlit("demucs.separate");
    reveal_strlit("demucs.download");
    reveal_strlit("demucs.load");
    reveal_strlit("demucs.burn_smoke");
    assert("demucs.separate"@[7] == 's');
    assert("demucs.download"@[7] == 'd');
    assert("demucs.load"@[7] == 'l');
    assert("demucs.burn_smoke"@[7] == 'b');
}

/// Which replies work can go on with: those of the kind that was asked for, and
/// of stems those whose files can be written at the rate of the audio.
pub proof fn law_what_can_be_answered(
    origin: Origin,
    start_time: u64,
    progress: Seq<char>,
    sample_rate: u32,
    stems: Seq<StemView>,
    model: Option<Seq<u8>>,
    flow: FlowView,
    reply: ReplyView,
)
    ensures
        !crate::flows::answers(FlowView::Idle, reply),
        flow is ActivateCheck || flow is DownloadCheck || flow is DownloadFetch || flow is PanelCheck
            || flow is LoadCheck || flow is ShowProgress || flow is StemFile || flow is StemTrack
            || flow is StemClip || flow is SmokeText ==> (crate::flows::answers(flow, reply)
            <==> reply is Text),
        flow is LoadRead || flow is SmokeRun ==> (crate::flows::answers(flow, reply)
            <==> reply is Bytes),
        flow is SelectTrack ==> (crate::flows::answers(flow, reply) <==> reply is Track),
        flow is ReadAudio ==> (crate::flows::answers(flow, reply) <==> reply is Audio),
        flow is Decode ==> (crate::flows::answers(flow, reply) <==> reply is Decoded),
        flow is Infer ==> (crate::flows::answers(flow, reply) <==> reply is Stems),
        !(flow is Infer) ==> crate::flows::reply_writable(flow, reply),
        !(reply matches ReplyView::Stems(Ok(_))) ==> crate::flows::reply_writable(flow, reply),
        crate::flows::reply_writable(
            FlowView::Infer { origin, start_time, progress, sample_rate },
            ReplyView::Stems(Ok(stems)),
        ) <==> {
            &&& stems.len() > 0 ==> 1 <= sample_rate && 8 * sample_rate <= 0xffff_ffff
            &&& forall|i: int|
                0 <= i < stems.len() ==> 8 * (#[trigger] stems[i]).left.len() + 60 <= 0xffff_ffff
                    || 8 * stems[i].right.len() + 60 <= 0xffff_ffff
        },
{
}

} // verus!
