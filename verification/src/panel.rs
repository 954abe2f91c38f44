//! The JSON that the panel and the commands exchange with the extension.
use vstd::prelude::*;

use crate::json::{
    fault_of, new_object, number_member, object_text, put_decimal, put_flag, put_text, text_member,
};
use crate::text::{joined, same};

verus! {

/// The state of a button that can be pressed or not.
pub open spec fn enabled_json(enabled: bool) -> Seq<char> {
    crate::json::json_object_text(
        crate::json::no_members().insert("enabled"@, crate::json::JsonScalar::Flag(enabled)),
    )
}

/// The state of a button with a label.
pub open spec fn button_json(label: Seq<char>, enabled: bool) -> Seq<char> {
    crate::json::json_object_text(
        crate::json::no_members().insert("label"@, crate::json::JsonScalar::Text(label)).insert(
            "enabled"@,
            crate::json::JsonScalar::Flag(enabled),
        ),
    )
}

/// The state of a progress bar, whose value is given in decimal notation.
pub open spec fn progress_json(value: Seq<char>, label: Seq<char>) -> Seq<char> {
    crate::json::json_object_text(
        crate::json::no_members().insert("value"@, crate::json::JsonScalar::Decimal(value)).insert(
            "label"@,
            crate::json::JsonScalar::Text(label),
        ),
    )
}

/// The arguments of the command that separates a track, from its beginning.
pub open spec fn separate_args_json(track_id: Seq<char>) -> Seq<char> {
    crate::json::json_object_text(
        crate::json::no_members().insert(
            "track_id"@,
            crate::json::JsonScalar::Text(track_id),
        ).insert("start_time"@, crate::json::JsonScalar::Decimal("0.0"@)),
    )
}

/// What the objects are made of: they have the members that are named here, with
/// the values given, and no others.
pub proof fn law_members_of_objects(
    enabled: bool,
    label: Seq<char>,
    value: Seq<char>,
    one: Map<Seq<char>, crate::json::JsonScalar>,
    two: Map<Seq<char>, crate::json::JsonScalar>,
    bar: Map<Seq<char>, crate::json::JsonScalar>,
    args: Map<Seq<char>, crate::json::JsonScalar>,
)
    requires
        forall|key: Seq<char>| #[trigger] one.dom().contains(key) <==> key == "enabled"@,
        one["enabled"@] == crate::json::JsonScalar::Flag(enabled),
        forall|key: Seq<char>| #[trigger]
            two.dom().contains(key) <==> key == "enabled"@ || key == "label"@,
        two["enabled"@] == crate::json::JsonScalar::Flag(enabled),
        two["label"@] == crate::json::JsonScalar::Text(label),
        forall|key: Seq<char>| #[trigger]
            bar.dom().contains(key) <==> key == "value"@ || key == "label"@,
        bar["value"@] == crate::json::JsonScalar::Decimal(value),
        bar["label"@] == crate::json::JsonScalar::Text(label),
        forall|key: Seq<char>| #[trigger]
            args.dom().contains(key) <==> key == "track_id"@ || key == "start_time"@,
        args["track_id"@] == crate::json::JsonScalar::Text(label),
        args["start_time"@] == crate::json::JsonScalar::Decimal("0.0"@),
    ensures
        enabled_json(enabled) == crate::json::json_object_text(one),
        button_json(label, enabled) == crate::json::json_object_text(two),
        progress_json(value, label) == crate::json::json_object_text(bar),
        separate_args_json(label) == crate::json::json_object_text(args),
{
    reveal_strlit("enabled");
    reveal_strlit("label");
    reveal_strlit("value");
    reveal_strlit("track_id");
    reveal_strlit("start_time");
    assert("label"@[0] == 'l' && "value"@[0] == 'v' && "enabled"@[0] == 'e');
    assert("track_id"@[0] == 't' && "start_time"@[0] == 's');
    let none = crate::json::no_members();
    let flag = crate::json::JsonScalar::Flag(enabled);
    let text = crate::json::JsonScalar::Text(label);
    let number = crate::json::JsonScalar::Decimal(value);
    let zero = crate::json::JsonScalar::Decimal("0.0"@);
    assert(one =~= none.insert("enabled"@, flag));
    assert(two =~= none.insert("label"@, text).insert("enabled"@, flag));
    assert(bar =~= none.insert("value"@, number).insert("label"@, text));
    assert(args =~= none.insert("track_id"@, text).insert("start_time"@, zero));
}

/// Writes the state of a button that can be pressed or not.
pub fn enabled_state(enabled: bool) -> (r: String)
    ensures
        r@ == enabled_json(enabled),
        crate::json::json_fault(r@) is None,
{
    let mut object: serde_json::Map<String, serde_json::Value> = new_object();
    put_flag(&mut object, "enabled", enabled);
    object_text(object)
}

/// Writes the state of a button with a label.
pub fn button_state(label: &str, enabled: bool) -> (r: String)
    ensures
        r@ == button_json(label@, enabled),
        crate::json::json_fault(r@) is None,
        crate::json::json_text_member(r@, "label"@) == Some(label@),
{
    proof {
        reveal_strlit("label");
        reveal_strlit("enabled");
        assert("label"@.len() != "enabled"@.len());
    }
    let mut object: serde_json::Map<String, serde_json::Value> = new_object();
    put_text(&mut object, "label", label);
    put_flag(&mut object, "enabled", enabled);
    object_text(object)
}

/// Writes the state of a progress bar.
pub fn progress_state(value: &str, label: &str) -> (r: String)
    requires
        crate::json::is_decimal(value@),
    ensures
        r@ == progress_json(value@, label@),
        crate::json::json_fault(r@) is None,
        crate::json::json_text_member(r@, "label"@) == Some(label@),
{
    let mut object: serde_json::Map<String, serde_json::Value> = new_object();
    put_decimal(&mut object, "value", value);
    put_text(&mut object, "label", label);
    object_text(object)
}

/// Writes the arguments of the command that separates a track, from its
/// beginning. Whatever the track is called, the command reads that name back,
/// and a start time of zero.
pub fn separate_args(track_id: &str) -> (r: String)
    ensures
        r@ == separate_args_json(track_id@),
        crate::json::json_fault(r@) is None,
        crate::json::json_text_member(r@, "track_id"@) == Some(track_id@),
        crate::json::json_number_member(r@, "start_time"@) == Some(0u64),
{
    proof {
        reveal_strlit("track_id");
        reveal_strlit("start_time");
        reveal_strlit("0.0");
        assert("track_id"@.len() != "start_time"@.len());
    }
    let mut object: serde_json::Map<String, serde_json::Value> = new_object();
    put_text(&mut object, "track_id", track_id);
    put_decimal(&mut object, "start_time", "0.0");
    object_text(object)
}

/// A request to separate a track.
#[derive(Debug)]
pub struct SeparateRequest {
    pub track_id: String,
    /// Where in the project the stems begin: the bits of a double-precision
    /// number.
    pub start_time: u64,
}

/// What is made of a request whose JSON was found to be at fault or not, and
/// to have the members given or not.
pub open spec fn request_of(
    fault: Option<Seq<char>>,
    track_id: Option<Seq<char>>,
    start_time: Option<u64>,
) -> Result<(Seq<char>, u64), Seq<char>> {
    match (fault, track_id) {
        (Some(e), _) => Err("Invalid args JSON: "@ + e),
        (None, None) => Err("Missing track_id in args"@),
        (None, Some(track_id)) => Ok(
            (
                track_id,
                match start_time {
                    Some(bits) => bits,
                    None => 0,
                },
            ),
        ),
    }
}

/// What is made of the arguments of the command that separates a track.
pub open spec fn requested(args: Seq<char>) -> Result<(Seq<char>, u64), Seq<char>> {
    request_of(
        crate::json::json_fault(args),
        crate::json::json_text_member(args, "track_id"@),
        crate::json::json_number_member(args, "start_time"@),
    )
}

/// Whether `r` is the request, or the refusal, `expected`.
pub open spec fn is_request(
    r: Result<SeparateRequest, String>,
    expected: Result<(Seq<char>, u64), Seq<char>>,
) -> bool {
    match (r, expected) {
        (Ok(request), Ok((track_id, start_time))) => request.track_id@ == track_id
            && request.start_time == start_time,
        (Err(e), Err(m)) => e@ == m,
        _ => false,
    }
}

/// What an optional text says.
pub open spec fn option_view(s: Option<String>) -> Option<Seq<char>> {
    match s {
        Some(s) => Some(s@),
        None => None,
    }
}

/// Makes a request of what was found in its JSON. A start time that is missing
/// or no number is zero.
pub fn read_request(
    fault: Option<String>,
    track_id: Option<String>,
    start_time: Option<u64>,
) -> (r: Result<SeparateRequest, String>)
    ensures
        is_request(r, request_of(option_view(fault), option_view(track_id), start_time)),
        r is Ok <==> fault is None && track_id is Some,
        r matches Ok(request) ==> {
            &&& request.track_id@ == track_id->0@
            &&& start_time matches Some(bits) ==> request.start_time == bits
            &&& start_time is None ==> request.start_time == 0
        },
        r matches Err(e) ==> {
            &&& fault matches Some(f) ==> e@ == "Invalid args JSON: "@ + f@
            &&& fault is None ==> e@ == "Missing track_id in args"@
        },
{
    match fault {
        Some(e) => Err(joined("Invalid args JSON: ", e.as_str())),
        None => match track_id {
            Some(track_id) => {
                let bits: u64 = match start_time {
                    Some(bits) => bits,
                    None => 0,
                };
                Ok(SeparateRequest { track_id, start_time: bits })
            },
            None => Err("Missing track_id in args".to_string()),
        },
    }
}

/// Reads the arguments of the command that separates a track.
pub fn parse_request(args: &str) -> (r: Result<SeparateRequest, String>)
    ensures
        is_request(r, requested(args@)),
        r is Ok <==> crate::json::json_fault(args@) is None && crate::json::json_text_member(
            args@,
            "track_id"@,
        ) is Some,
        r matches Ok(request) ==> {
            &&& Some(request.track_id@) == crate::json::json_text_member(args@, "track_id"@)
            &&& request.start_time == match crate::json::json_number_member(
                args@,
                "start_time"@,
            ) {
                Some(bits) => bits,
                None => 0,
            }
        },
        r matches Err(e) ==> {
            &&& crate::json::json_fault(args@) matches Some(f) ==> e@ == "Invalid args JSON: "@ + f
            &&& crate::json::json_fault(args@) is None ==> e@ == "Missing track_id in args"@
        },
{
    read_request(
        fault_of(args),
        text_member(args, "track_id"),
        number_member(args, "start_time"),
    )
}

/// What the user did in the panel.
#[derive(Clone, Copy, Debug, PartialEq, Eq, Structural)]
pub enum UiAction {
    /// Pressed the button that loads the model.
    LoadModel,
    /// Pressed the button that separates the selected track.
    Separate,
    /// Anything else.
    Other,
}

/// What is made of an event whose JSON was found to be at fault or not, and to
/// have the members given or not.
pub open spec fn action_of(
    fault: Option<Seq<char>>,
    widget_id: Option<Seq<char>>,
    event_type: Option<Seq<char>>,
) -> Result<UiAction, Seq<char>> {
    match fault {
        Some(e) => Err("Parse UI event: "@ + e),
        None => if event_type == Some("clicked"@) && widget_id == Some("load_model"@) {
            Ok(UiAction::LoadModel)
        } else if event_type == Some("clicked"@) && widget_id == Some("separate"@) {
            Ok(UiAction::Separate)
        } else {
            Ok(UiAction::Other)
        },
    }
}

/// What is made of the data of an event of the panel.
pub open spec fn acted(data: Seq<char>) -> Result<UiAction, Seq<char>> {
    action_of(
        crate::json::json_fault(data),
        crate::json::json_text_member(data, "widget_id"@),
        crate::json::json_text_member(data, "event_type"@),
    )
}

/// Whether `r` is the action, or the refusal, `expected`.
pub open spec fn is_action(
    r: Result<UiAction, String>,
    expected: Result<UiAction, Seq<char>>,
) -> bool {
    match (r, expected) {
        (Ok(action), Ok(a)) => action == a,
        (Err(e), Err(m)) => e@ == m,
        _ => false,
    }
}

/// Whether `s` is there and says `expected`.
fn says(s: &Option<String>, expected: &str) -> (r: bool)
    ensures
        r == (option_view(*s) == Some(expected@)),
{
    match s {
        Some(s) => same(s.as_str(), expected),
        None => false,
    }
}

/// Tells what the user did from what was found in the event's JSON.
pub fn read_action(
    fault: Option<String>,
    widget_id: Option<String>,
    event_type: Option<String>,
) -> (r: Result<UiAction, String>)
    ensures
        is_action(
            r,
            action_of(option_view(fault), option_view(widget_id), option_view(event_type)),
        ),
        r is Ok <==> fault is None,
        r matches Err(e) ==> e@ == "Parse UI event: "@ + fault->0@,
        r matches Ok(action) ==> {
            let clicked = event_type is Some && event_type->0@ == "clicked"@ && widget_id is Some;
            &&& action is LoadModel <==> clicked && widget_id->0@ == "load_model"@
            &&& action is Separate <==> clicked && widget_id->0@ == "separate"@
        },
{
    proof {
        reveal_strlit("load_model");
        reveal_strlit("separate");
        assert("load_model"@.len() != "separate"@.len());
    }

    match fault {
        Some(e) => Err(joined("Parse UI event: ", e.as_str())),
        None => if says(&event_type, "clicked") && says(&widget_id, "load_model") {
            Ok(UiAction::LoadModel)
        } else if says(&event_type, "clicked") && says(&widget_id, "separate") {
            Ok(UiAction::Separate)
        } else {
            Ok(UiAction::Other)
        },
    }
}

/// Reads the data of an event of the panel.
pub fn parse_action(data: &str) -> (r: Result<UiAction, String>)
    ensures
        is_action(r, acted(data@)),
        r is Ok <==> crate::json::json_fault(data@) is None,
        r matches Err(e) ==> e@ == "Parse UI event: "@ + crate::json::json_fault(data@)->0,
        r matches Ok(action) ==> {
            let clicked = crate::json::json_text_member(data@, "event_type"@) == Some("clicked"@);
            let widget = crate::json::json_text_member(data@, "widget_id"@);
            &&& action is LoadModel <==> clicked && widget == Some("load_model"@)
            &&& action is Separate <==> clicked && widget == Some("separate"@)
        },
{
    read_action(fault_of(data), text_member(data, "widget_id"), text_member(data, "event_type"))
}

} // verus!
