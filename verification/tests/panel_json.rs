//! The JSON of the panel and of the commands.
use demucs::panel::{
    button_state, enabled_state, parse_action, parse_request, progress_state, read_action,
    read_request, separate_args, UiAction,
};

fn text(s: &str) -> Option<String> {
    Some(s.to_string())
}

#[test]
fn states_of_widgets() {
    assert_eq!(enabled_state(true), r#"{"enabled":true}"#);
    assert_eq!(enabled_state(false), r#"{"enabled":false}"#);
    assert_eq!(
        button_state("Model Loaded", false),
        r#"{"enabled":false,"label":"Model Loaded"}"#
    );
    assert_eq!(
        progress_state("1.0", "Model downloaded"),
        r#"{"label":"Model downloaded","value":1.0}"#
    );
    assert_eq!(
        progress_state("0.1", "Downloading..."),
        r#"{"label":"Downloading...","value":0.1}"#
    );
}

#[test]
fn labels_are_escaped() {
    assert_eq!(
        button_state("a \"b\" \\ \n", true),
        r#"{"enabled":true,"label":"a \"b\" \\ \n"}"#
    );
}

#[test]
fn arguments_read_back() {
    assert_eq!(separate_args("t1"), r#"{"start_time":0.0,"track_id":"t1"}"#);
    for track in ["", "drums", "with \"quotes\" and \\", "line\nbreak", "\u{1F3B5}", "track_id"] {
        let request = parse_request(&separate_args(track)).unwrap();
        assert_eq!(request.track_id, track);
        assert_eq!(request.start_time, 0.0f64.to_bits());
    }
}

#[test]
fn requests_are_read() {
    let request = parse_request(r#"{"track_id": "a", "start_time": 2.5}"#).unwrap();
    assert_eq!(request.track_id, "a");
    assert_eq!(request.start_time, 2.5f64.to_bits());
    let request = parse_request(r#"{"track_id": "a", "start_time": -3}"#).unwrap();
    assert_eq!(request.start_time, (-3.0f64).to_bits());
    let request = parse_request(r#"{"track_id": "a"}"#).unwrap();
    assert_eq!(request.start_time, 0);
    let request = parse_request(r#"{"track_id": "a", "start_time": "1"}"#).unwrap();
    assert_eq!(request.start_time, 0);
}

#[test]
fn requests_are_refused() {
    assert_eq!(
        parse_request("{").unwrap_err(),
        "Invalid args JSON: EOF while parsing an object at line 1 column 1"
    );
    assert_eq!(
        parse_request("").unwrap_err(),
        "Invalid args JSON: EOF while parsing a value at line 1 column 0"
    );
    for args in ["{}", "[]", "3", r#"{"track_id": 7}"#, r#"{"track_id": null}"#] {
        assert_eq!(parse_request(args).unwrap_err(), "Missing track_id in args");
    }
}

#[test]
fn requests_from_what_was_found() {
    let request = read_request(None, text("t"), Some(9)).unwrap();
    assert_eq!((request.track_id.as_str(), request.start_time), ("t", 9));
    assert_eq!(read_request(None, text("t"), None).unwrap().start_time, 0);
    assert_eq!(
        read_request(text("oops"), text("t"), Some(9)).unwrap_err(),
        "Invalid args JSON: oops"
    );
    assert_eq!(read_request(None, None, Some(9)).unwrap_err(), "Missing track_id in args");
}

#[test]
fn actions_are_read() {
    let data = r#"{"widget_id": "load_model", "event_type": "clicked"}"#;
    assert_eq!(parse_action(data), Ok(UiAction::LoadModel));
    let data = r#"{"widget_id": "separate", "event_type": "clicked"}"#;
    assert_eq!(parse_action(data), Ok(UiAction::Separate));
    for data in [
        r#"{"widget_id": "separate", "event_type": "hovered"}"#,
        r#"{"widget_id": "other", "event_type": "clicked"}"#,
        r#"{"event_type": "clicked"}"#,
        r#"{"widget_id": "separate"}"#,
        r#"{"widget_id": ["separate"], "event_type": "clicked"}"#,
        "{}",
        "null",
    ] {
        assert_eq!(parse_action(data), Ok(UiAction::Other));
    }
    assert_eq!(
        parse_action("oops"),
        Err("Parse UI event: expected value at line 1 column 1".to_string())
    );
}

#[test]
fn actions_from_what_was_found() {
    assert_eq!(
        read_action(None, text("load_model"), text("clicked")),
        Ok(UiAction::LoadModel)
    );
    assert_eq!(read_action(None, text("separate"), text("clicked")), Ok(UiAction::Separate));
    assert_eq!(read_action(None, text("separate"), None), Ok(UiAction::Other));
    assert_eq!(
        read_action(text("bad"), text("separate"), text("clicked")),
        Err("Parse UI event: bad".to_string())
    );
}
