//! What holds of the extension's work as a whole.
use vstd::prelude::*;

use crate::flows::{FlowView, Origin, Step, StemJobView};
use crate::host::{EffectView, NextView, NotifyLevel, QueryView, ReplyView, TrackAudioView};

verus! {

/// How far a piece of work is from its end: the stages before it, and within
/// the last stage of a separation the requests that the stems still need.
pub open spec fn distance(flow: FlowView) -> (nat, nat) {
    match flow {
        FlowView::Idle => (0, 0),
        FlowView::ActivateCheck => (1, 0),
        FlowView::LoadRead { .. } => (1, 0),
        FlowView::LoadCheck { .. } => (2, 0),
        FlowView::DownloadFetch { .. } => (3, 0),
        FlowView::DownloadCheck { .. } => (4, 0),
        FlowView::PanelCheck => (5, 0),
        FlowView::StemFile { job, index } => (1, (3 * (job.stems.len() - index)) as nat),
        FlowView::StemTrack { job, index, .. } => (
            1,
            (3 * (job.stems.len() - index) - 1) as nat,
        ),
        FlowView::StemClip { job, index } => (1, (3 * (job.stems.len() - index) - 2) as nat),
        FlowView::Infer { .. } => (2, 0),
        FlowView::Decode { .. } => (3, 0),
        FlowView::ReadAudio { .. } => (4, 0),
        FlowView::ShowProgress { .. } => (5, 0),
        FlowView::SelectTrack => (6, 0),
        FlowView::SmokeText => (1, 0),
        FlowView::SmokeRun => (2, 0),
    }
}

/// Whether `a` is nearer to the end than `b`.
pub open spec fn nearer(a: (nat, nat), b: (nat, nat)) -> bool {
    a.0 < b.0 || a.0 == b.0 && a.1 < b.1
}

/// Whatever the host replies, a piece of work comes to its end: every reply
/// brings it nearer.
pub proof fn law_work_comes_to_an_end(
    model: Option<Seq<u8>>,
    flow: FlowView,
    reply: ReplyView,
)
    requires
        crate::flows::consistent(model, flow),
        crate::flows::answers(flow, reply),
    ensures
        nearer(distance(crate::flows::resumed(model, flow, reply).flow), distance(flow)),
{
}

/// The extension waits for a reply exactly when it has asked for one.
pub proof fn law_idle_when_finished(model: Option<Seq<u8>>, flow: FlowView, reply: ReplyView)
    ensures
        ({
            let step = crate::flows::resumed(model, flow, reply);
            step.next is Finish <==> step.flow is Idle
        }),
{
}

/// The kind of reply that a query asks for.
pub open spec fn fits(query: QueryView, reply: ReplyView) -> bool {
    match query {
        QueryView::ReadBytes { .. } | QueryView::AddScalar { .. } => reply is Bytes,
        QueryView::SelectedTrack => reply is Track,
        QueryView::TrackAudio { .. } => reply is Audio,
        QueryView::DecodeModel { .. } => reply is Decoded,
        QueryView::Separate { .. } => reply is Stems,
        _ => reply is Text,
    }
}

/// Whether what is waited for behind `step` is what `step` asked for.
pub open spec fn waits_for_answer(step: Step, reply: ReplyView) -> bool {
    step.next matches NextView::Ask(query) ==> (crate::flows::answers(step.flow, reply) <==> fits(
        query,
        reply,
    ))
}

/// A reply that fits the last query is a reply that is waited for.
#[verifier::rlimit(40)]
pub proof fn law_replies_fit_queries(
    model: Option<Seq<u8>>,
    flow: FlowView,
    reply: ReplyView,
    next_reply: ReplyView,
)
    ensures
        waits_for_answer(crate::flows::resumed(model, flow, reply), next_reply),
{
}

/// So it is for the first query of a command and of an event.
pub proof fn law_replies_fit_first_queries(
    model: Option<Seq<u8>>,
    command_id: Seq<char>,
    args: Seq<char>,
    event_type: Seq<char>,
    data: Seq<char>,
    reply: ReplyView,
)
    ensures
        waits_for_answer(crate::flows::commanded(model, command_id, args), reply),
        waits_for_answer(crate::flows::notified(model, event_type, data), reply),
{
}

/// What holds while the host is waited for holds again after any reply.
pub proof fn law_consistency_is_kept(model: Option<Seq<u8>>, flow: FlowView, reply: ReplyView)
    requires
        crate::flows::consistent(model, flow),
        crate::flows::answers(flow, reply),
        crate::flows::reply_writable(flow, reply),
    ensures
        ({
            let step = crate::flows::resumed(model, flow, reply);
            crate::flows::consistent(step.model, step.flow)
        }),
{
}

/// Only reading the model's file changes the model that is kept, and a failed
/// read does not.
pub proof fn law_only_loading_changes_model(
    model: Option<Seq<u8>>,
    flow: FlowView,
    reply: ReplyView,
)
    requires
        crate::flows::answers(flow, reply),
    ensures
        crate::flows::resumed(model, flow, reply).model == (if flow is LoadRead {
            match reply {
                ReplyView::Bytes(Ok(bytes)) => Some(bytes),
                _ => model,
            }
        } else {
            model
        }),
{
}

/// No command and no event changes the model that is kept by itself.
pub proof fn law_starting_keeps_model(
    model: Option<Seq<u8>>,
    command_id: Seq<char>,
    args: Seq<char>,
    event_type: Seq<char>,
    data: Seq<char>,
)
    ensures
        crate::flows::commanded(model, command_id, args).model == model,
        crate::flows::notified(model, event_type, data).model == model,
{
}

/// Without a model a separation is refused before the host is asked for
/// anything.
pub proof fn law_separation_needs_model(args: Seq<char>)
    ensures
        ({
            let step = crate::flows::commanded(None, "demucs.separate"@, args);
            &&& step.effects == crate::flows::quiet()
            &&& step.next matches NextView::Finish(Err(_))
            &&& crate::panel::requested(args) is Ok ==> step.next == NextView::Finish(
                Err("Model not loaded. Click 'Load Model' first."@),
            )
        }),
{
    reveal_strlit("demucs.separate");
    reveal_strlit("demucs.download");
    reveal_strlit("demucs.load");
    assert("demucs.separate"@[7] == 's');
    assert("demucs.download"@[7] == 'd');
    assert("demucs.load"@[7] == 'l');
}

/// What is decoded for a separation is what was loaded.
pub proof fn law_decodes_what_was_loaded(
    model: Option<Seq<u8>>,
    load_origin: Origin,
    bytes: Seq<u8>,
    origin: Origin,
    track: Seq<char>,
    start_time: u64,
    shown: Result<Seq<char>, Seq<char>>,
    audio: TrackAudioView,
)
    requires
        audio.channels.len() > 0,
    ensures
        ({
            let kept = crate::flows::resumed(
                model,
                FlowView::LoadRead { origin: load_origin },
                ReplyView::Bytes(Ok(bytes)),
            ).model;
            let begun = crate::flows::separation_begun(
                kept,
                origin,
                crate::flows::quiet(),
                Ok((track, start_time)),
            );
            let asked = crate::flows::resumed(begun.model, begun.flow, ReplyView::Text(shown));
            let decoding = crate::flows::resumed(
                asked.model,
                asked.flow,
                ReplyView::Audio(Ok(audio)),
            );
            &&& asked.next == NextView::Ask(QueryView::TrackAudio { track })
            &&& decoding.next == NextView::Ask(QueryView::DecodeModel { bytes })
        }),
{
}

/// A failure of the host ends the work with an error, except where the host is
/// only asked whether a file is there or for a progress display.
pub proof fn law_failure_ends_work(model: Option<Seq<u8>>, flow: FlowView, e: Seq<char>)
    requires
        !(flow is Idle),
        !(flow is ActivateCheck),
        !(flow is DownloadCheck),
        !(flow is PanelCheck),
        !(flow is LoadCheck),
        !(flow is ShowProgress),
    ensures
        ({
            let reply = match flow {
                FlowView::LoadRead { .. } | FlowView::SmokeRun => ReplyView::Bytes(Err(e)),
                FlowView::SelectTrack => ReplyView::Track(Err(e)),
                FlowView::ReadAudio { .. } => ReplyView::Audio(Err(e)),
                FlowView::Decode { .. } => ReplyView::Decoded(Err(e)),
                FlowView::Infer { .. } => ReplyView::Stems(Err(e)),
                _ => ReplyView::Text(Err(e)),
            };
            &&& crate::flows::answers(flow, reply)
            &&& crate::flows::resumed(model, flow, reply).next matches NextView::Finish(Err(_))
        }),
{
}

/// A separation that was started from the panel and ends is reported there:
/// the last thing the host is told is how it ended.
pub proof fn law_panel_hears_how_separation_ends(
    model: Option<Seq<u8>>,
    effects: Seq<EffectView>,
    outcome: Result<Seq<char>, Seq<char>>,
)
    ensures
        crate::flows::separated(model, Origin::Panel, effects, outcome).effects.last() == (
        match outcome {
            Ok(message) => crate::flows::notice(NotifyLevel::Success, message),
            Err(e) => crate::flows::notice(NotifyLevel::Error, "Separation failed: "@ + e),
        }),
        crate::flows::separated(model, Origin::Panel, effects, outcome).next == NextView::Finish(
            outcome,
        ),
{
}

/// The step that a list of replies leads to.
pub open spec fn run(step: Step, replies: Seq<ReplyView>) -> Step
    decreases replies.len(),
{
    if replies.len() == 0 {
        step
    } else {
        run(
            crate::flows::resumed(step.model, step.flow, replies.first()),
            replies.drop_first(),
        )
    }
}

/// Whether all of `replies` are texts, and successes.
pub open spec fn all_well(replies: Seq<ReplyView>) -> bool {
    forall|i: int|
        0 <= i < replies.len() ==> #[trigger] replies[i] matches ReplyView::Text(Ok(_))
}

/// Three successes deal with a stem: its file is written, its track is added
/// and its clip is put there, in this order, each with what the step before it
/// gave.
pub proof fn law_three_requests_per_stem(
    model: Option<Seq<u8>>,
    job: StemJobView,
    index: nat,
    effects: Seq<EffectView>,
    path: Seq<char>,
    track: Seq<char>,
    clip: Seq<char>,
)
    requires
        index < job.stems.len(),
    ensures
        ({
            let file = crate::flows::next_stem(model, job, index, effects);
            let added = crate::flows::resumed(file.model, file.flow, ReplyView::Text(Ok(path)));
            let placed = crate::flows::resumed(
                added.model,
                added.flow,
                ReplyView::Text(Ok(track)),
            );
            let next = crate::flows::resumed(placed.model, placed.flow, ReplyView::Text(Ok(clip)));
            &&& file.next == NextView::Ask(
                QueryView::WriteBytes {
                    path: "stems/"@ + crate::flows::stem_label(index) + ".wav"@,
                    bytes: crate::flows::stem_file(job.stems[index as int], job.sample_rate),
                },
            )
            &&& added.next matches NextView::Ask(QueryView::AddTrack { name, color, .. }) && name
                == "stem ("@ + crate::flows::stem_label(index) + ")"@ && color
                == crate::flows::stem_color(index)
            &&& placed.next matches NextView::Ask(
                QueryView::AddClip { track: on, name, start_time, sample_path, .. },
            ) && on == track && name == crate::flows::stem_label(index) && start_time
                == job.start_time && sample_path == path
            &&& next == crate::flows::next_stem(
                model,
                job,
                index + 1,
                crate::flows::quiet(),
            )
        }),
{
}

/// The first five stems have names of their own, and so do their files; those
/// behind them share the name of the fifth.
pub proof fn law_names_of_stems(i: nat, j: nat)
    requires
        i < j,
    ensures
        i < 4 ==> crate::flows::stem_label(i) != crate::flows::stem_label(j),
        i >= 4 ==> crate::flows::stem_label(i) == crate::flows::stem_label(j),
{
    reveal_strlit("drums");
    reveal_strlit("bass");
    reveal_strlit("vocals");
    reveal_strlit("other");
    reveal_strlit("stem");
    assert("drums"@[0] == 'd' && "bass"@[0] == 'b' && "vocals"@[0] == 'v');
    assert("other"@[0] == 'o' && "stem"@[0] == 's');
}

/// When the host does all that it is asked, a separation deals with every stem
/// and ends by telling how many there were.
pub proof fn law_all_stems_are_dealt_with(
    model: Option<Seq<u8>>,
    job: StemJobView,
    index: nat,
    effects: Seq<EffectView>,
    replies: Seq<ReplyView>,
)
    requires
        index <= job.stems.len(),
        replies.len() == 3 * (job.stems.len() - index),
        all_well(replies),
    ensures
        run(crate::flows::next_stem(model, job, index, effects), replies).next
            == NextView::Finish(
            Ok("Separated into "@ + crate::text::decimal(job.stems.len()) + " stems"@),
        ),
    decreases job.stems.len() - index,
{
    let step = crate::flows::next_stem(model, job, index, effects);
    if index < job.stems.len() {
        let one = replies.drop_first();
        let two = one.drop_first();
        let three = two.drop_first();
        assert(replies[0] matches ReplyView::Text(Ok(_)));
        assert(replies[1] matches ReplyView::Text(Ok(_)));
        assert(replies[2] matches ReplyView::Text(Ok(_)));
        assert(one.first() == replies[1]);
        assert(two.first() == replies[2]);
        let path = replies[0]->Text_0->Ok_0;
        let track = replies[1]->Text_0->Ok_0;
        let clip = replies[2]->Text_0->Ok_0;
        law_three_requests_per_stem(model, job, index, effects, path, track, clip);
        let added = crate::flows::resumed(step.model, step.flow, replies.first());
        let placed = crate::flows::resumed(added.model, added.flow, one.first());
        let next = crate::flows::resumed(placed.model, placed.flow, two.first());
        assert(run(step, replies) == run(added, one));
        assert(run(added, one) == run(placed, two));
        assert(run(placed, two) == run(next, three));
        assert(all_well(three)) by {
            assert forall|i: int| 0 <= i < three.len() implies #[trigger] three[i] matches
                ReplyView::Text(Ok(_)) by {
                assert(three[i] == replies[i + 3]);
            }
        }
        law_all_stems_are_dealt_with(model, job, index + 1, crate::flows::quiet(), three);
    }
}

/// The load button loads a model that is there, and downloads and then loads
/// one that is not.
pub proof fn law_load_button_downloads_what_is_missing(
    model: Option<Seq<u8>>,
    first: Result<Seq<char>, Seq<char>>,
    second: Result<Seq<char>, Seq<char>>,
    fetched: Seq<char>,
)
    ensures
        ({
            let loading = FlowView::LoadCheck { origin: Origin::Panel };
            let checking = FlowView::DownloadCheck { origin: Origin::Panel };
            let fetching = FlowView::DownloadFetch { origin: Origin::Panel };
            &&& crate::flows::resumed(model, FlowView::PanelCheck, ReplyView::Text(first)).flow
                == if crate::flows::says_exists(first) {
                loading
            } else {
                checking
            }
            &&& crate::flows::resumed(model, checking, ReplyView::Text(second)).flow
                == if crate::flows::says_exists(second) {
                loading
            } else {
                fetching
            }
            &&& crate::flows::resumed(model, fetching, ReplyView::Text(Ok(fetched))).flow
                == loading
        }),
{
}

} // verus!
