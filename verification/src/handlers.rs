use vstd::prelude::*;
use vstd::string::*;
use crate::dict::Dict;
use crate::text::{decimal, decimal_u64};
use crate::json::{
    ParamValue, Reply, ReplyView, Scalar, ScalarView, status, status_reply, text_object, text_fields, push_text,
    push_field, fields_view,
};
use crate::cli::{texts, util_args, pick_util_cli_params};
use crate::request::{
    names_action, action_of, requested_action, body_args, args_of_body, AppCommand, command_for,
    command_of, RequestOutcome,
};

verus! {

/// The settings that the settings page shows.
pub open spec fn settings_fields() -> Seq<(Seq<char>, Seq<char>)> {
    seq![
        ("IP"@, "192.168.0.2"@),
        ("DIP"@, "192.168.0.3"@),
        ("DPort"@, "2368"@),
        ("BIP"@, "192.168.0.255"@),
        ("Mask"@, "255.255.255.0"@),
        ("Gateway"@, "192.168.0.1"@),
        ("MAC"@, "00:0A:35:00:EB:2A"@),
        ("HPort"@, "56789"@),
    ]
}

/// The reply of the settings page to the action `action`.
pub open spec fn settings_reply(action: Option<Seq<char>>) -> ReplyView {
    match action {
        Some(a) => if a == "get"@ {
            text_object(settings_fields())
        } else if a == "address_get"@ {
            text_object(seq![("address_value"@, "123007"@)])
        } else {
            status_reply("ok"@)
        },
        None => status_reply("ok"@),
    }
}

fn settings_values() -> (r: Reply)
    ensures
        r@ == text_object(settings_fields()),
{
    let mut fs: Vec<(String, Scalar)> = Vec::new();
    assert(fields_view(fs@) =~= Seq::empty());
    push_text(&mut fs, "IP", "192.168.0.2");
    push_text(&mut fs, "DIP", "192.168.0.3");
    push_text(&mut fs, "DPort", "2368");
    push_text(&mut fs, "BIP", "192.168.0.255");
    push_text(&mut fs, "Mask", "255.255.255.0");
    push_text(&mut fs, "Gateway", "192.168.0.1");
    push_text(&mut fs, "MAC", "00:0A:35:00:EB:2A");
    push_text(&mut fs, "HPort", "56789");
    assert(fields_view(fs@) =~= text_fields(settings_fields()));
    Reply::Object(fs)
}

/// Answers the settings page: "get" gives the network settings,
/// "address_get" the address value, anything else "ok".
pub fn handle_settings_post(query: Option<&Dict<String>>) -> (r: Reply)
    requires
        names_action(query),
    ensures
        r@ == settings_reply(action_of(query)),
{
    match requested_action(query) {
        Some(a) => {
            if *a == "get".to_owned() {
                settings_values()
            } else if *a == "address_get".to_owned() {
                let mut fs: Vec<(String, Scalar)> = Vec::new();
                assert(fields_view(fs@) =~= Seq::empty());
                push_text(&mut fs, "address_value", "123007");
                assert(fields_view(fs@) =~= text_fields(seq![("address_value"@, "123007"@)]));
                Reply::Object(fs)
            } else {
                status("ok")
            }
        },
        None => status("ok"),
    }
}

/// The number of registers that the register page shows.
pub open spec fn register_count() -> nat {
    36
}

/// The registers that the register page shows: "input1" to "input36",
/// each "0x00000000".
pub open spec fn register_fields() -> Seq<(Seq<char>, Seq<char>)> {
    Seq::new(register_count(), |i: int| ("input"@ + decimal((i + 1) as nat), "0x00000000"@))
}

/// The reply of the register page to the action `action`.
pub open spec fn register_reply(action: Option<Seq<char>>) -> ReplyView {
    match action {
        Some(a) => if a == "get"@ {
            text_object(register_fields())
        } else {
            status_reply("ok"@)
        },
        None => status_reply("ok"@),
    }
}

fn register_values() -> (r: Reply)
    ensures
        r@ == text_object(register_fields()),
{
    let mut fs: Vec<(String, Scalar)> = Vec::new();
    let mut i: u64 = 0;
    while i < 36
        invariant
            i <= 36,
            fields_view(fs@) =~= register_fields().take(i as int).map_values(
                |f: (Seq<char>, Seq<char>)| (f.0, ScalarView::Text(f.1)),
            ),
        decreases 36 - i,
    {
        let mut key = "input".to_owned();
        let digits = decimal_u64(i + 1);
        key.append(digits.as_str());
        push_text(&mut fs, key.as_str(), "0x00000000");
        i += 1;
        assert(register_fields().take(i as int).drop_last() =~= register_fields().take(i - 1));
    }
    assert(register_fields().take(36) =~= register_fields());
    Reply::Object(fs)
}

/// Answers the register page: "get" gives every register, anything else
/// "ok".
pub fn handle_register_post(query: Option<&Dict<String>>) -> (r: Reply)
    requires
        names_action(query),
    ensures
        r@ == register_reply(action_of(query)),
{
    match requested_action(query) {
        Some(a) => {
            if *a == "get".to_owned() {
                register_values()
            } else {
                status("ok")
            }
        },
        None => status("ok"),
    }
}

/// The lidar information that the view page shows.
pub open spec fn lidar_info_fields() -> Seq<(Seq<char>, Seq<char>)> {
    seq![
        ("spin_rate"@, "200rmp"@),
        ("ptp"@, "FreeRun/Tracking/Locked/Frozen"@),
        ("gps"@, "Locked/Unlock"@),
        ("model"@, "AT128E2X"@),
        ("sn"@, "AT3ECE52923ECE52"@),
        ("mac_address"@, "EC:9F:1E:CD:1F"@),
        ("software_version"@, "1.0.1.2"@),
        ("controller_firmware_version"@, "1.0.1.2"@),
        ("startup_count"@, "5"@),
        ("internal_temperature"@, "36.63&deg;C"@),
        ("total_operation_time"@, "1h32min"@),
    ]
}

/// The reply of the view page to the action `action`.
pub open spec fn view_reply(action: Option<Seq<char>>) -> ReplyView {
    match action {
        Some(a) => if a == "lidarInfo_get"@ {
            text_object(lidar_info_fields())
        } else {
            status_reply("ok"@)
        },
        None => status_reply("ok"@),
    }
}

fn lidar_info_values() -> (r: Reply)
    ensures
        r@ == text_object(lidar_info_fields()),
{
    let mut fs: Vec<(String, Scalar)> = Vec::new();
    assert(fields_view(fs@) =~= Seq::empty());
    push_text(&mut fs, "spin_rate", "200rmp");
    push_text(&mut fs, "ptp", "FreeRun/Tracking/Locked/Frozen");
    push_text(&mut fs, "gps", "Locked/Unlock");
    push_text(&mut fs, "model", "AT128E2X");
    push_text(&mut fs, "sn", "AT3ECE52923ECE52");
    push_text(&mut fs, "mac_address", "EC:9F:1E:CD:1F");
    push_text(&mut fs, "software_version", "1.0.1.2");
    push_text(&mut fs, "controller_firmware_version", "1.0.1.2");
    push_text(&mut fs, "startup_count", "5");
    push_text(&mut fs, "internal_temperature", "36.63&deg;C");
    push_text(&mut fs, "total_operation_time", "1h32min");
    assert(fields_view(fs@) =~= text_fields(lidar_info_fields()));
    Reply::Object(fs)
}

/// Answers the view page: "lidarInfo_get" gives the lidar information,
/// anything else "ok".
pub fn handle_view_post(query: Option<&Dict<String>>) -> (r: Reply)
    requires
        names_action(query),
    ensures
        r@ == view_reply(action_of(query)),
{
    match requested_action(query) {
        Some(a) => {
            if *a == "lidarInfo_get".to_owned() {
                lidar_info_values()
            } else {
                status("ok")
            }
        },
        None => status("ok"),
    }
}

/// The number of rows of the log table.
pub open spec fn log_row_count() -> nat {
    101
}

/// What the log page asks for.
#[derive(Debug, Clone, PartialEq, Eq)]
pub enum LogOutcome {
    /// A table of this many log rows, sent as one JSON string.
    Table(usize),
    /// This reply.
    Reply(Reply),
}

/// Answers the log page: "log_get" asks for the log table, anything else
/// gets "ok".
pub fn handle_log_get(query: Option<&Dict<String>>) -> (out: LogOutcome)
    requires
        names_action(query),
    ensures
        action_of(query) == Some("log_get"@) ==> out == LogOutcome::Table(log_row_count() as usize),
        action_of(query) != Some("log_get"@) ==> (out matches LogOutcome::Reply(r) && r@ == status_reply(
            "ok"@,
        )),
{
    match requested_action(query) {
        Some(a) => {
            if *a == "log_get".to_owned() {
                LogOutcome::Table(101)
            } else {
                LogOutcome::Reply(status("ok"))
            }
        },
        None => LogOutcome::Reply(status("ok")),
    }
}

/// The group that a control request's query names, empty without one.
pub open spec fn group_of(q: Dict<String>) -> Seq<char> {
    if q.map().dom().contains("group"@) {
        q.map()["group"@]@
    } else {
        Seq::empty()
    }
}

/// The reply when the lidar utility is not started for want of arguments.
pub open spec fn util_refusal_reply() -> ReplyView {
    text_object(seq![("status"@, "invalid param"@), ("Ret"@, "Failed"@)])
}

/// The reply when the lidar utility is not started for want of arguments.
pub fn util_refusal() -> (r: Reply)
    ensures
        r@ == util_refusal_reply(),
{
    let mut fs: Vec<(String, Scalar)> = Vec::new();
    assert(fields_view(fs@) =~= Seq::empty());
    push_text(&mut fs, "status", "invalid param");
    push_text(&mut fs, "Ret", "Failed");
    assert(fields_view(fs@) =~= text_fields(seq![("status"@, "invalid param"@), ("Ret"@, "Failed"@)]));
    Reply::Object(fs)
}

/// What a control request asks for.
#[derive(Debug, Clone, PartialEq, Eq)]
pub enum ControlOutcome {
    /// Run the lidar utility with these arguments and answer with its report.
    RunUtil(Vec<String>),
    /// This reply.
    Reply(Reply),
}

/// The utility arguments of a control request: none without a body.
pub open spec fn control_args(json: Option<&Dict<ParamValue>>, action: Seq<char>, group: Seq<char>) -> Seq<Seq<char>> {
    match json {
        Some(params) => util_args(params.map(), action, group),
        None => seq![],
    }
}

/// Answers the control page: "get" and "set" run the lidar utility with
/// the arguments that the query's group and the body's values give;
/// anything else, or no query, answers "ok".
pub fn handle_control_post(query: Option<&Dict<String>>, json: Option<&Dict<ParamValue>>) -> (out: ControlOutcome)
    requires
        names_action(query),
    ensures
        match query {
            Some(q) => {
                let a = q.map()["action"@]@;
                if a == "get"@ || a == "set"@ {
                    out matches ControlOutcome::RunUtil(v) && texts(v@) == control_args(json, a, group_of(*q))
                } else {
                    out matches ControlOutcome::Reply(r) && r@ == status_reply("ok"@)
                }
            },
            None => out matches ControlOutcome::Reply(r) && r@ == status_reply("ok"@),
        },
{
    match query {
        Some(q) => {
            let group = match q.get("group") {
                Some(g) => g.clone(),
                None => {
                    proof {
                        reveal_strlit("");
                        assert(""@ =~= Seq::<char>::empty());
                    }
                    "".to_owned()
                },
            };
            let action = match q.get("action") {
                Some(a) => a,
                None => {
                    return ControlOutcome::Reply(status("ok"));
                },
            };
            if *action == "get".to_owned() || *action == "set".to_owned() {
                let args = match json {
                    Some(params) => pick_util_cli_params(params, action, &group),
                    None => {
                        let v: Vec<String> = Vec::new();
                        assert(texts(v@) =~= Seq::<Seq<char>>::empty());
                        v
                    },
                };
                ControlOutcome::RunUtil(args)
            } else {
                ControlOutcome::Reply(status("ok"))
            }
        },
        None => ControlOutcome::Reply(status("ok")),
    }
}

/// Handles a request to the connect (or record) page: "stop" stops the
/// lidar application, "start" starts it with the arguments that the body
/// gives; the answer is "ok" either way.
pub fn handle_connect_post(query: Option<&Dict<String>>, json: Option<&Vec<Dict<ParamValue>>>) -> (out: RequestOutcome)
    requires
        names_action(query),
    ensures
        command_for(out.command, action_of(query), body_args(json)),
        out.reply@ == status_reply("ok"@),
{
    let args = args_of_body(json);
    let command = command_of(requested_action(query), args);
    RequestOutcome { reply: status("ok"), command }
}

/// Handles a request to the merge page, as the connect page does.
pub fn handle_merge_post(query: Option<&Dict<String>>, json: Option<&Vec<Dict<ParamValue>>>) -> (out: RequestOutcome)
    requires
        names_action(query),
    ensures
        command_for(out.command, action_of(query), body_args(json)),
        out.reply@ == status_reply("ok"@),
{
    let args = args_of_body(json);
    let command = command_of(requested_action(query), args);
    RequestOutcome { reply: status("ok"), command }
}

} // verus!
