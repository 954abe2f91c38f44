//! Whole pieces of the extension's work, reply by reply.
use demucs::extension::DemucsExtension;
use demucs::flows::{MODEL_PATH, MODEL_SAMPLE_RATE, MODEL_URL, PANEL_ID};
use demucs::host::{Next, Query, Reply, Stem, TrackAudio, Turn};
use demucs::wav::{encode_wav, interleave};

fn yes() -> Reply {
    Reply::Text(Ok("true".to_string()))
}

fn no() -> Reply {
    Reply::Text(Ok("false".to_string()))
}

fn said(s: &str) -> Reply {
    Reply::Text(Ok(s.to_string()))
}

fn failed() -> Reply {
    Reply::Text(Err("host down".to_string()))
}

fn effects(turn: &Turn) -> String {
    format!("{:?}", turn.effects)
}

fn next(turn: &Turn) -> String {
    format!("{:?}", turn.next)
}

fn command(ext: &mut DemucsExtension, id: &str, args: &str) -> Turn {
    ext.execute_command(id.to_string(), args.to_string())
}

fn click(ext: &mut DemucsExtension, widget: &str) -> Turn {
    let data = format!(r#"{{"widget_id":"{widget}","event_type":"clicked"}}"#);
    ext.handle_event("ui".to_string(), data)
}

fn answer(ext: &mut DemucsExtension, reply: Reply) -> Turn {
    assert!(ext.accepts(&reply));
    ext.resume(reply)
}

fn with_model(bytes: &[u8]) -> DemucsExtension {
    let mut ext = DemucsExtension::new();
    command(&mut ext, "demucs.load", "");
    answer(&mut ext, yes());
    answer(&mut ext, Reply::Bytes(Ok(bytes.to_vec())));
    assert_eq!(ext.model.as_deref(), Some(bytes));
    ext
}

const ASKS_FOR_MODEL: &str = r#"Ask(FileExists { path: "htdemucs.safetensors" })"#;

#[test]
fn names_of_the_model_and_the_panel() {
    assert_eq!(
        MODEL_URL,
        "https://huggingface.co/smank/htdemucs-safetensors/resolve/main/htdemucs.safetensors"
    );
    assert_eq!(MODEL_PATH, "htdemucs.safetensors");
    assert_eq!(MODEL_SAMPLE_RATE, 44_100);
    assert_eq!(PANEL_ID, "dawai.demucs");
}

#[test]
fn greeting() {
    assert_eq!(DemucsExtension::init(), Ok("demucs extension initialized".to_string()));
}

#[test]
fn activation_with_and_without_model() {
    let mut ext = DemucsExtension::new();
    let turn = ext.activate();
    assert_eq!(effects(&turn), "[]");
    assert_eq!(next(&turn), ASKS_FOR_MODEL);
    let turn = answer(&mut ext, yes());
    assert_eq!(
        effects(&turn),
        r#"[UpdateWidget { widget: "load_model", state: "{\"enabled\":true,\"label\":\"Load Model\"}" }, UpdateWidget { widget: "model_progress", state: "{\"label\":\"Model downloaded\",\"value\":1.0}" }]"#
    );
    assert_eq!(next(&turn), r#"Finish(Ok("demucs extension activated"))"#);
    for reply in [no(), failed(), said("TRUE")] {
        ext.activate();
        let turn = answer(&mut ext, reply);
        assert_eq!(effects(&turn), "[]");
        assert_eq!(next(&turn), r#"Finish(Ok("demucs extension activated"))"#);
    }
}

#[test]
fn deactivation_forgets_the_model() {
    let mut ext = with_model(&[1, 2, 3]);
    assert_eq!(ext.deactivate(), Ok("demucs extension deactivated".to_string()));
    assert!(ext.model.is_none());
    let turn = command(&mut ext, "demucs.separate", r#"{"track_id":"t"}"#);
    assert_eq!(
        next(&turn),
        r#"Finish(Err("Model not loaded. Click 'Load Model' first."))"#
    );
}

#[test]
fn unknown_commands_are_refused() {
    let mut ext = DemucsExtension::new();
    for id in ["", "demucs", "demucs.loads", "Demucs.load"] {
        let turn = command(&mut ext, id, "");
        assert_eq!(effects(&turn), "[]");
        assert_eq!(next(&turn), format!("Finish(Err(\"Unknown command: {id}\"))"));
    }
}

#[test]
fn download_command() {
    let mut ext = DemucsExtension::new();
    assert_eq!(next(&command(&mut ext, "demucs.download", "")), ASKS_FOR_MODEL);
    let turn = answer(&mut ext, yes());
    assert_eq!(next(&turn), r#"Finish(Ok("Model already downloaded"))"#);

    command(&mut ext, "demucs.download", "");
    let turn = answer(&mut ext, no());
    assert_eq!(
        effects(&turn),
        r#"[Notify { level: Info, text: "Downloading HTDemucs model..." }]"#
    );
    assert_eq!(
        next(&turn),
        format!("Ask(DownloadFile {{ url: {MODEL_URL:?}, path: {MODEL_PATH:?} }})")
    );
    let turn = answer(&mut ext, said("whatever"));
    assert_eq!(effects(&turn), "[]");
    assert_eq!(next(&turn), r#"Finish(Ok("Model downloaded"))"#);

    command(&mut ext, "demucs.download", "");
    answer(&mut ext, failed());
    let turn = answer(&mut ext, failed());
    assert_eq!(effects(&turn), "[]");
    assert_eq!(next(&turn), r#"Finish(Err("host down"))"#);
}

#[test]
fn load_command() {
    let mut ext = DemucsExtension::new();
    assert_eq!(next(&command(&mut ext, "demucs.load", "{}")), ASKS_FOR_MODEL);
    let turn = answer(&mut ext, no());
    assert_eq!(
        next(&turn),
        r#"Finish(Err("Model file not found. Please download first."))"#
    );

    command(&mut ext, "demucs.load", "{}");
    let turn = answer(&mut ext, yes());
    assert_eq!(effects(&turn), r#"[Notify { level: Info, text: "Loading model bytes..." }]"#);
    assert_eq!(next(&turn), r#"Ask(ReadBytes { path: "htdemucs.safetensors" })"#);
    let turn = answer(&mut ext, Reply::Bytes(Err("no disk".to_string())));
    assert_eq!(effects(&turn), "[]");
    assert_eq!(next(&turn), r#"Finish(Err("Failed to read model bytes: no disk"))"#);
    assert!(ext.model.is_none());

    command(&mut ext, "demucs.load", "{}");
    answer(&mut ext, yes());
    let turn = answer(&mut ext, Reply::Bytes(Ok(vec![7, 8])));
    assert_eq!(
        effects(&turn),
        r#"[Notify { level: Success, text: "Model loaded successfully" }, UpdateWidget { widget: "separate", state: "{\"enabled\":true}" }, UpdateWidget { widget: "load_model", state: "{\"enabled\":false,\"label\":\"Model Loaded\"}" }]"#
    );
    assert_eq!(next(&turn), r#"Finish(Ok("Model bytes cached in extension"))"#);
    assert_eq!(ext.model, Some(vec![7, 8]));
}

#[test]
fn a_failed_load_keeps_the_model() {
    let mut ext = with_model(&[5]);
    command(&mut ext, "demucs.load", "");
    answer(&mut ext, yes());
    answer(&mut ext, Reply::Bytes(Err("no disk".to_string())));
    assert_eq!(ext.model, Some(vec![5]));
}

#[test]
fn load_button_downloads_first() {
    let mut ext = DemucsExtension::new();
    let turn = click(&mut ext, "load_model");
    assert_eq!(
        effects(&turn),
        r#"[UpdateWidget { widget: "load_model", state: "{\"enabled\":false,\"label\":\"Loading...\"}" }]"#
    );
    assert_eq!(next(&turn), ASKS_FOR_MODEL);
    let turn = answer(&mut ext, no());
    assert_eq!(
        effects(&turn),
        r#"[UpdateWidget { widget: "model_progress", state: "{\"label\":\"Downloading...\",\"value\":0.1}" }]"#
    );
    assert_eq!(next(&turn), ASKS_FOR_MODEL);
    let turn = answer(&mut ext, no());
    assert!(matches!(turn.next, Next::Ask(Query::DownloadFile { .. })));
    let turn = answer(&mut ext, said("done"));
    assert_eq!(effects(&turn), "[]");
    assert_eq!(next(&turn), ASKS_FOR_MODEL);
    answer(&mut ext, yes());
    let turn = answer(&mut ext, Reply::Bytes(Ok(vec![1])));
    assert_eq!(turn.effects.len(), 4);
    assert_eq!(
        format!("{:?}", turn.effects[3]),
        r#"Notify { level: Success, text: "Model loaded and ready" }"#
    );
    assert_eq!(next(&turn), r#"Finish(Ok("Model bytes cached in extension"))"#);
}

#[test]
fn load_button_when_the_model_is_there() {
    let mut ext = DemucsExtension::new();
    click(&mut ext, "load_model");
    let turn = answer(&mut ext, yes());
    assert_eq!(effects(&turn), "[]");
    assert_eq!(next(&turn), ASKS_FOR_MODEL);
    let turn = answer(&mut ext, yes());
    assert!(matches!(turn.next, Next::Ask(Query::ReadBytes { .. })));
}

#[test]
fn load_button_offers_to_try_again() {
    let mut ext = DemucsExtension::new();
    click(&mut ext, "load_model");
    answer(&mut ext, no());
    answer(&mut ext, no());
    let turn = answer(&mut ext, failed());
    assert_eq!(
        effects(&turn),
        r#"[UpdateWidget { widget: "load_model", state: "{\"enabled\":true,\"label\":\"Download & Load Model\"}" }]"#
    );
    assert_eq!(next(&turn), r#"Finish(Err("host down"))"#);

    click(&mut ext, "load_model");
    answer(&mut ext, yes());
    let turn = answer(&mut ext, no());
    assert_eq!(
        effects(&turn),
        r#"[UpdateWidget { widget: "load_model", state: "{\"enabled\":true,\"label\":\"Retry Load\"}" }, Notify { level: Error, text: "Load failed: Model file not found. Please download first." }]"#
    );
    assert_eq!(
        next(&turn),
        r#"Finish(Err("Model file not found. Please download first."))"#
    );
}

#[test]
fn other_events_are_ignored() {
    let mut ext = DemucsExtension::new();
    for (kind, data) in [
        ("midi", "not even json"),
        ("ui", r#"{"widget_id":"volume","event_type":"clicked"}"#),
        ("ui", r#"{"widget_id":"separate","event_type":"hovered"}"#),
    ] {
        let turn = ext.handle_event(kind.to_string(), data.to_string());
        assert_eq!(effects(&turn), "[]");
        assert_eq!(next(&turn), r#"Finish(Ok(""))"#);
    }
    let turn = ext.handle_event("ui".to_string(), "?".to_string());
    assert_eq!(
        next(&turn),
        r#"Finish(Err("Parse UI event: expected value at line 1 column 1"))"#
    );
}

fn stem(seed: u32) -> Stem {
    Stem { left: vec![seed, seed + 1, seed + 2], right: vec![seed + 10, seed + 11] }
}

fn stereo() -> Reply {
    Reply::Audio(Ok(TrackAudio {
        channels: vec![vec![1, 2], vec![3, 4], vec![5]],
        sample_rate: 48000,
    }))
}

#[test]
fn a_separation_from_end_to_end() {
    let mut ext = with_model(&[9, 9]);
    let turn = command(&mut ext, "demucs.separate", r#"{"track_id":"t7","start_time":1.5}"#);
    assert_eq!(effects(&turn), "[]");
    assert_eq!(
        next(&turn),
        r#"Ask(ShowProgress { text: "Separating stems...", cancellable: true })"#
    );
    let turn = answer(&mut ext, said("p1"));
    assert_eq!(next(&turn), r#"Ask(TrackAudio { track: "t7" })"#);
    let turn = answer(&mut ext, stereo());
    assert_eq!(
        effects(&turn),
        r#"[UpdateProgress { id: "p1", text: "Decoding model weights...", percent: 5 }]"#
    );
    assert_eq!(next(&turn), "Ask(DecodeModel { bytes: [9, 9] })");
    let turn = answer(&mut ext, Reply::Decoded(Ok(())));
    assert_eq!(
        effects(&turn),
        r#"[UpdateProgress { id: "p1", text: "Running inference...", percent: 15 }]"#
    );
    assert_eq!(
        next(&turn),
        "Ask(Separate { left: [1, 2], right: [3, 4], sample_rate: 48000 })"
    );
    let stems: Vec<Stem> = (0..5).map(|i| stem(100 * i)).collect();
    let mut turn = answer(&mut ext, Reply::Stems(Ok(stems)));
    assert_eq!(
        effects(&turn),
        r#"[UpdateProgress { id: "p1", text: "Writing stems...", percent: 90 }]"#
    );
    let labels = ["drums", "bass", "vocals", "other", "stem"];
    let colors = [(220, 80, 80), (80, 140, 220), (220, 180, 80), (140, 200, 140), (180, 180, 180)];
    for i in 0..5u32 {
        let label = labels[i as usize];
        let (r, g, b) = colors[i as usize];
        let s = stem(100 * i);
        let file = encode_wav(&interleave(&s.left, &s.right), 48000, 2).unwrap();
        assert_eq!(file.len(), 68 + 16);
        assert_eq!(
            next(&turn),
            format!("Ask(WriteBytes {{ path: \"stems/{label}.wav\", bytes: {file:?} }})")
        );
        turn = answer(&mut ext, said("/abs/file.wav"));
        assert_eq!(effects(&turn), "[]");
        assert_eq!(
            next(&turn),
            format!(
                "Ask(AddTrack {{ name: \"stem ({label})\", color: ColorRgb {{ r: {r}, g: {g}, \
                 b: {b} }}, volume_percent: 100, pan_percent: 0, muted: false, soloed: false }})"
            )
        );
        turn = answer(&mut ext, said("new-track"));
        assert_eq!(effects(&turn), "[]");
        assert_eq!(
            next(&turn),
            format!(
                "Ask(AddClip {{ track: \"new-track\", name: \"{label}\", start_time: {}, \
                 length_beats: 0, sample_path: \"/abs/file.wav\", playback_percent: 100, \
                 loop_enabled: false, loop_start: 0, loop_end: 0 }})",
                1.5f64.to_bits()
            )
        );
        turn = answer(&mut ext, said("clip"));
    }
    assert_eq!(
        effects(&turn),
        r#"[CompleteProgress { id: "p1", text: "Stem separation complete" }]"#
    );
    assert_eq!(next(&turn), r#"Finish(Ok("Separated into 5 stems"))"#);
}

#[test]
fn one_channel_serves_as_both() {
    let mut ext = with_model(&[9]);
    command(&mut ext, "demucs.separate", r#"{"track_id":"t"}"#);
    answer(&mut ext, failed());
    let audio = TrackAudio { channels: vec![vec![4, 5]], sample_rate: 8000 };
    let turn = answer(&mut ext, Reply::Audio(Ok(audio)));
    // Without a name the progress display is still addressed.
    assert_eq!(
        effects(&turn),
        r#"[UpdateProgress { id: "", text: "Decoding model weights...", percent: 5 }]"#
    );
    let turn = answer(&mut ext, Reply::Decoded(Ok(())));
    assert_eq!(
        next(&turn),
        "Ask(Separate { left: [4, 5], right: [4, 5], sample_rate: 8000 })"
    );
    let turn = answer(&mut ext, Reply::Stems(Ok(Vec::new())));
    assert_eq!(turn.effects.len(), 2);
    assert_eq!(next(&turn), r#"Finish(Ok("Separated into 0 stems"))"#);
}

#[test]
fn twelve_stems_are_counted() {
    let mut ext = with_model(&[9]);
    command(&mut ext, "demucs.separate", r#"{"track_id":"t"}"#);
    answer(&mut ext, said("p"));
    answer(&mut ext, stereo());
    answer(&mut ext, Reply::Decoded(Ok(())));
    let stems: Vec<Stem> = (0..12).map(stem).collect();
    let mut turn = answer(&mut ext, Reply::Stems(Ok(stems)));
    for _ in 0..36 {
        assert!(matches!(turn.next, Next::Ask(_)));
        turn = answer(&mut ext, said("x"));
    }
    assert_eq!(next(&turn), r#"Finish(Ok("Separated into 12 stems"))"#);
}

/// Brings a separation to the point where `steps` replies have been given.
fn separating(steps: usize) -> DemucsExtension {
    let mut ext = with_model(&[9]);
    command(&mut ext, "demucs.separate", r#"{"track_id":"t"}"#);
    for i in 0..steps {
        let reply = match i {
            0 => said("p"),
            1 => stereo(),
            2 => Reply::Decoded(Ok(())),
            3 => Reply::Stems(Ok(vec![stem(1)])),
            _ => said("x"),
        };
        answer(&mut ext, reply);
    }
    ext
}

#[test]
fn failures_end_a_separation() {
    let e = || "oops".to_string();
    let cases: Vec<(usize, Reply, &str)> = vec![
        (1, Reply::Audio(Err(e())), "Failed to read audio: oops"),
        (2, Reply::Decoded(Err(e())), "Decode model: oops"),
        (3, Reply::Stems(Err(e())), "Separation: oops"),
        (4, Reply::Text(Err(e())), "Write stem: oops"),
        (5, Reply::Text(Err(e())), "Add stem track: oops"),
        (6, Reply::Text(Err(e())), "Add stem clip: oops"),
    ];
    for (steps, reply, message) in cases {
        let mut ext = separating(steps);
        let turn = answer(&mut ext, reply);
        assert_eq!(effects(&turn), "[]");
        assert_eq!(next(&turn), format!("Finish(Err({message:?}))"));
        assert_eq!(ext.model, Some(vec![9]));
    }
    let mut ext = separating(1);
    let silent = TrackAudio { channels: Vec::new(), sample_rate: 44100 };
    let turn = answer(&mut ext, Reply::Audio(Ok(silent)));
    assert_eq!(next(&turn), r#"Finish(Err("No audio channels returned"))"#);
}

#[test]
fn separation_refused_at_once() {
    let mut ext = DemucsExtension::new();
    let turn = command(&mut ext, "demucs.separate", "{}");
    assert_eq!(next(&turn), r#"Finish(Err("Missing track_id in args"))"#);
    let mut ext = with_model(&[1]);
    let turn = command(&mut ext, "demucs.separate", "?");
    assert_eq!(
        next(&turn),
        r#"Finish(Err("Invalid args JSON: expected value at line 1 column 1"))"#
    );
}

#[test]
fn separate_button() {
    let mut ext = with_model(&[1]);
    assert_eq!(next(&click(&mut ext, "separate")), "Ask(SelectedTrack)");
    let turn = answer(&mut ext, Reply::Track(Ok(None)));
    assert_eq!(
        effects(&turn),
        r#"[Notify { level: Error, text: "No track selected. Select an audio track first." }]"#
    );
    assert_eq!(next(&turn), r#"Finish(Ok(""))"#);

    click(&mut ext, "separate");
    let turn = answer(&mut ext, Reply::Track(Err("gone".to_string())));
    assert_eq!(
        effects(&turn),
        r#"[Notify { level: Error, text: "Failed to get selection: gone" }]"#
    );
    assert_eq!(next(&turn), r#"Finish(Err("gone"))"#);

    click(&mut ext, "separate");
    let turn = answer(&mut ext, Reply::Track(Ok(Some("my \"track\"".to_string()))));
    assert_eq!(
        effects(&turn),
        r#"[Notify { level: Info, text: "Separating track my \"track\"..." }]"#
    );
    assert!(matches!(turn.next, Next::Ask(Query::ShowProgress { .. })));
    let turn = answer(&mut ext, said("p"));
    assert_eq!(next(&turn), r#"Ask(TrackAudio { track: "my \"track\"" })"#);
    let turn = answer(&mut ext, Reply::Audio(Err("muted".to_string())));
    assert_eq!(
        effects(&turn),
        r#"[Notify { level: Error, text: "Separation failed: Failed to read audio: muted" }]"#
    );
    assert_eq!(next(&turn), r#"Finish(Err("Failed to read audio: muted"))"#);
}

#[test]
fn separate_button_without_model() {
    let mut ext = DemucsExtension::new();
    click(&mut ext, "separate");
    let turn = answer(&mut ext, Reply::Track(Ok(Some("t".to_string()))));
    assert_eq!(
        effects(&turn),
        r#"[Notify { level: Info, text: "Separating track t..." }, Notify { level: Error, text: "Separation failed: Model not loaded. Click 'Load Model' first." }]"#
    );
    assert_eq!(
        next(&turn),
        r#"Finish(Err("Model not loaded. Click 'Load Model' first."))"#
    );
}

#[test]
fn separate_button_tells_of_success() {
    let mut ext = with_model(&[1]);
    click(&mut ext, "separate");
    answer(&mut ext, Reply::Track(Ok(Some("t".to_string()))));
    answer(&mut ext, said("p"));
    answer(&mut ext, stereo());
    answer(&mut ext, Reply::Decoded(Ok(())));
    answer(&mut ext, Reply::Stems(Ok(vec![stem(1)])));
    answer(&mut ext, said("/a.wav"));
    answer(&mut ext, said("new"));
    let turn = answer(&mut ext, said("clip"));
    assert_eq!(
        effects(&turn),
        r#"[CompleteProgress { id: "p", text: "Stem separation complete" }, Notify { level: Success, text: "Separated into 1 stems" }]"#
    );
    assert_eq!(next(&turn), r#"Finish(Ok("Separated into 1 stems"))"#);
}

#[test]
fn tensor_check() {
    let mut ext = DemucsExtension::new();
    let turn = command(&mut ext, "demucs.burn_smoke", "");
    assert_eq!(
        next(&turn),
        format!(
            "Ask(AddScalar {{ values: [{}, {}, {}], addend: {} }})",
            1.0f32.to_bits(),
            2.0f32.to_bits(),
            3.0f32.to_bits(),
            1.0f32.to_bits()
        )
    );
    let mut bytes = Vec::new();
    for v in [2.0f32, 3.0, 4.0] {
        bytes.extend_from_slice(&v.to_le_bytes());
    }
    bytes.push(1);
    let turn = answer(&mut ext, Reply::Bytes(Ok(bytes)));
    assert_eq!(
        next(&turn),
        format!(
            "Ask(NumbersJson {{ words: [{}, {}, {}] }})",
            2.0f32.to_bits(),
            3.0f32.to_bits(),
            4.0f32.to_bits()
        )
    );
    let turn = answer(&mut ext, said("[2.0,3.0,4.0]"));
    assert_eq!(next(&turn), r#"Finish(Ok("[2.0,3.0,4.0]"))"#);

    command(&mut ext, "demucs.burn_smoke", "");
    let turn = answer(&mut ext, Reply::Bytes(Err("no device".to_string())));
    assert_eq!(next(&turn), r#"Finish(Err("read tensor: no device"))"#);

    command(&mut ext, "demucs.burn_smoke", "");
    answer(&mut ext, Reply::Bytes(Ok(Vec::new())));
    let turn = answer(&mut ext, failed());
    assert_eq!(next(&turn), r#"Finish(Err("serialize burn_smoke: host down"))"#);
}

#[test]
fn replies_that_do_not_fit_are_not_accepted() {
    let mut ext = DemucsExtension::new();
    assert!(!ext.accepts(&yes()));
    command(&mut ext, "demucs.load", "");
    assert!(ext.accepts(&yes()));
    assert!(ext.accepts(&failed()));
    assert!(!ext.accepts(&Reply::Bytes(Ok(Vec::new()))));
    assert!(!ext.accepts(&Reply::Decoded(Ok(()))));
    let ext = separating(3);
    assert!(ext.accepts(&Reply::Stems(Ok(vec![stem(1)]))));
    assert!(ext.accepts(&Reply::Stems(Err("x".to_string()))));
    assert!(!ext.accepts(&Reply::Text(Ok("x".to_string()))));
}

#[test]
fn stems_at_no_rate_are_not_accepted() {
    let mut ext = with_model(&[9]);
    command(&mut ext, "demucs.separate", r#"{"track_id":"t"}"#);
    answer(&mut ext, said("p"));
    let audio = TrackAudio { channels: vec![vec![1]], sample_rate: 0 };
    answer(&mut ext, Reply::Audio(Ok(audio)));
    answer(&mut ext, Reply::Decoded(Ok(())));
    assert!(!ext.accepts(&Reply::Stems(Ok(vec![stem(1)]))));
    assert!(ext.accepts(&Reply::Stems(Ok(Vec::new()))));
}
