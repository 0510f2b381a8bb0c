use rayz_edge::dict::Dict;
use rayz_edge::handlers::{
    handle_connect_post, handle_control_post, handle_log_get, handle_merge_post,
    handle_register_post, handle_settings_post, handle_view_post, ControlOutcome, LogOutcome,
};
use rayz_edge::json::{status, JsonNumber, ParamValue, Reply, Scalar};
use rayz_edge::mock::generate_mock_data;
use rayz_edge::replay::{handle_replay_post, replay_fits, replay_rate, AppState};
use rayz_edge::request::AppCommand;

fn query(pairs: &[(&str, &str)]) -> Dict<String> {
    let mut d = Dict::new();
    for (k, v) in pairs {
        d.insert(k.to_string(), v.to_string());
    }
    d
}

fn action(a: &str) -> Dict<String> {
    query(&[("action", a)])
}

fn body(pairs: &[(&str, ParamValue)]) -> Dict<ParamValue> {
    let mut d = Dict::new();
    for (k, v) in pairs {
        d.insert(k.to_string(), v.clone());
    }
    d
}

fn text_object(fields: &[(&str, &str)]) -> Reply {
    Reply::Object(
        fields
            .iter()
            .map(|(k, v)| (k.to_string(), Scalar::Text(v.to_string())))
            .collect(),
    )
}

fn frame(key: &str, f: i32) -> Reply {
    Reply::Object(vec![(key.to_string(), Scalar::Frame(f))])
}

fn fresh() -> AppState {
    AppState::new("bin/app".to_string(), "bin/util".to_string())
}

fn rate_body(rate: ParamValue) -> Vec<Dict<ParamValue>> {
    vec![body(&[("play_rate", rate)])]
}

#[test]
fn status_replies() {
    assert_eq!(status("ok"), text_object(&[("status", "ok")]));
}

#[test]
fn settings_page() {
    assert_eq!(
        handle_settings_post(Some(&action("get"))),
        text_object(&[
            ("IP", "192.168.0.2"),
            ("DIP", "192.168.0.3"),
            ("DPort", "2368"),
            ("BIP", "192.168.0.255"),
            ("Mask", "255.255.255.0"),
            ("Gateway", "192.168.0.1"),
            ("MAC", "00:0A:35:00:EB:2A"),
            ("HPort", "56789"),
        ])
    );
    assert_eq!(
        handle_settings_post(Some(&action("address_get"))),
        text_object(&[("address_value", "123007")])
    );
    assert_eq!(handle_settings_post(Some(&action("set"))), status("ok"));
    assert_eq!(handle_settings_post(Some(&action("address_set"))), status("ok"));
    assert_eq!(handle_settings_post(None), status("ok"));
}

#[test]
fn register_page() {
    match handle_register_post(Some(&action("get"))) {
        Reply::Object(fields) => {
            assert_eq!(fields.len(), 36);
            for (i, (k, v)) in fields.iter().enumerate() {
                assert_eq!(k, &format!("input{}", i + 1));
                assert_eq!(v, &Scalar::Text("0x00000000".to_string()));
            }
        }
        Reply::Text(_) => panic!("an object was expected"),
    }
    assert_eq!(handle_register_post(Some(&action("set"))), status("ok"));
    assert_eq!(handle_register_post(None), status("ok"));
}

#[test]
fn view_page() {
    assert_eq!(
        handle_view_post(Some(&action("lidarInfo_get"))),
        text_object(&[
            ("spin_rate", "200rmp"),
            ("ptp", "FreeRun/Tracking/Locked/Frozen"),
            ("gps", "Locked/Unlock"),
            ("model", "AT128E2X"),
            ("sn", "AT3ECE52923ECE52"),
            ("mac_address", "EC:9F:1E:CD:1F"),
            ("software_version", "1.0.1.2"),
            ("controller_firmware_version", "1.0.1.2"),
            ("startup_count", "5"),
            ("internal_temperature", "36.63&deg;C"),
            ("total_operation_time", "1h32min"),
        ])
    );
    assert_eq!(handle_view_post(Some(&action("set"))), status("ok"));
    assert_eq!(handle_view_post(None), status("ok"));
}

#[test]
fn log_page() {
    assert_eq!(handle_log_get(Some(&action("log_get"))), LogOutcome::Table(101));
    assert_eq!(handle_log_get(Some(&action("x"))), LogOutcome::Reply(status("ok")));
    assert_eq!(handle_log_get(None), LogOutcome::Reply(status("ok")));
}

#[test]
fn mock_log_rows() {
    let dates: Vec<String> = (0..101).map(|i| format!("2021-01-01T00:00:{:02}+00:00", i % 60)).collect();
    let rows = generate_mock_data(101, &dates);
    assert_eq!(rows.len(), 101);
    for (i, row) in rows.iter().enumerate() {
        assert_eq!(row.index, i + 1);
        assert_eq!(row.date, dates[i]);
        assert!(["error", "warn", "info"].contains(&row.info_levels.as_str()));
        assert_eq!(row.content, format!("No. {}, Grove St, Los Angeles", i + 100));
    }
    assert_eq!(rows[0].content, "No. 100, Grove St, Los Angeles");
    // the level is drawn at random for each row: over 101 rows each of the
    // three levels turns up
    for level in ["error", "warn", "info"] {
        assert!(rows.iter().any(|r| r.info_levels == level));
    }
    assert!(generate_mock_data(0, &vec![]).is_empty());
}

#[test]
fn control_runs_the_utility() {
    let p = body(&[("ipv4", ParamValue::Text("10.0.0.1".to_string()))]);
    let q = query(&[("action", "get"), ("group", "sn")]);
    assert_eq!(
        handle_control_post(Some(&q), Some(&p)),
        ControlOutcome::RunUtil(vec![
            "10.0.0.1".to_string(),
            "debug".to_string(),
            "get".to_string(),
            "sn".to_string()
        ])
    );
    let q = query(&[("action", "set"), ("group", "reboot")]);
    assert_eq!(
        handle_control_post(Some(&q), Some(&p)),
        ControlOutcome::RunUtil(vec!["10.0.0.1".to_string(), "reboot".to_string()])
    );
    // without a group no arguments come out, and without a body neither
    assert_eq!(handle_control_post(Some(&action("get")), Some(&p)), ControlOutcome::RunUtil(vec![]));
    let q = query(&[("action", "get"), ("group", "sn")]);
    assert_eq!(handle_control_post(Some(&q), None), ControlOutcome::RunUtil(vec![]));
    assert_eq!(
        handle_control_post(Some(&action("reset")), Some(&p)),
        ControlOutcome::Reply(status("ok"))
    );
    assert_eq!(handle_control_post(None, Some(&p)), ControlOutcome::Reply(status("ok")));
}

#[test]
fn connect_and_merge_commands() {
    let groups = vec![body(&[("url", ParamValue::Text("udp://x".to_string()))])];
    for handler in [handle_connect_post, handle_merge_post] {
        let out = handler(Some(&action("start")), Some(&groups));
        assert_eq!(out.reply, status("ok"));
        assert_eq!(out.command, AppCommand::Start(vec!["-i".to_string(), "udp://x".to_string()]));
        let out = handler(Some(&action("stop")), Some(&groups));
        assert_eq!(out.command, AppCommand::Stop);
        let out = handler(Some(&action("other")), None);
        assert_eq!(out.command, AppCommand::Keep);
        assert_eq!(out.reply, status("ok"));
        let out = handler(None, Some(&groups));
        assert_eq!(out.command, AppCommand::Keep);
    }
}

#[test]
fn replay_loading_completes_at_sixty_thousand() {
    let mut state = fresh();
    for k in 1..=7u32 {
        let out = handle_replay_post(&mut state, Some(&action("loaded_state")), None);
        assert_eq!(state.loaded_frame, 10000 * k);
        assert_eq!(state.loaded_state, k == 6);
        assert_eq!(
            out.reply,
            Reply::Object(vec![
                ("loaded_state".to_string(), Scalar::Flag(k == 6)),
                ("loaded_frame".to_string(), Scalar::Count(10000 * k)),
            ])
        );
        assert_eq!(out.command, AppCommand::Keep);
    }
}

#[test]
fn replay_play_state_stops_at_the_last_frame() {
    let mut state = fresh();
    for f in 1..=60 {
        let out = handle_replay_post(&mut state, Some(&action("play_state")), None);
        assert_eq!(out.reply, frame("current_frame", f));
    }
    let out = handle_replay_post(&mut state, Some(&action("play_state")), None);
    assert_eq!(out.reply, frame("current_frame", 60));
    assert_eq!(state.current_frame, 60);
}

#[test]
fn replay_steps_move_by_the_rate() {
    let mut state = fresh();
    let five = rate_body(ParamValue::Number(JsonNumber::PosInt(5)));
    let out = handle_replay_post(&mut state, Some(&action("forword")), Some(&five));
    assert_eq!(out.reply, frame("target_frame", 5));
    let out = handle_replay_post(&mut state, Some(&action("forword")), Some(&five));
    assert_eq!(out.reply, frame("target_frame", 10));
    let out = handle_replay_post(&mut state, Some(&action("backword")), Some(&five));
    assert_eq!(out.reply, frame("target_frame", 5));
    assert_eq!(state.current_frame, 5);
    // back past the start stops at 0, forward past the end at the last frame
    let big = rate_body(ParamValue::Number(JsonNumber::PosInt(100)));
    let out = handle_replay_post(&mut state, Some(&action("backword")), Some(&big));
    assert_eq!(out.reply, frame("target_frame", 0));
    assert_eq!(state.current_frame, 0);
    let out = handle_replay_post(&mut state, Some(&action("forword")), Some(&big));
    assert_eq!(out.reply, frame("target_frame", 60));
    assert_eq!(state.current_frame, 60);
}

#[test]
fn replay_rate_that_is_no_unsigned_integer_counts_as_zero() {
    let mut state = fresh();
    state.current_frame = 7;
    for rate in [
        ParamValue::Number(JsonNumber::NegInt(-3)),
        ParamValue::Number(JsonNumber::Float("2.5".to_string())),
        ParamValue::Text("5".to_string()),
    ] {
        let out = handle_replay_post(&mut state, Some(&action("forword")), Some(&rate_body(rate)));
        assert_eq!(out.reply, frame("target_frame", 7));
    }
    // the rate comes from the first group only
    let groups = vec![body(&[]), body(&[("play_rate", ParamValue::Number(JsonNumber::PosInt(3)))])];
    let out = handle_replay_post(&mut state, Some(&action("forword")), Some(&groups));
    assert_eq!(out.reply, frame("target_frame", 7));
}

#[test]
fn replay_start_stop_and_others() {
    let mut state = fresh();
    let groups = vec![body(&[("filePath", ParamValue::Text("/a".to_string()))])];
    let out = handle_replay_post(&mut state, Some(&action("start")), Some(&groups));
    assert_eq!(out.reply, status("success"));
    assert_eq!(out.command, AppCommand::Start(vec!["-i".to_string(), "/a".to_string()]));
    let out = handle_replay_post(&mut state, Some(&action("stop")), None);
    assert_eq!(out.reply, status("success"));
    assert_eq!(out.command, AppCommand::Stop);
    for a in ["skip", "rate", "loopplay", "unknown"] {
        let out = handle_replay_post(&mut state, Some(&action(a)), None);
        assert_eq!(out.reply, status("ok"));
        assert_eq!(out.command, AppCommand::Keep);
    }
    let out = handle_replay_post(&mut state, None, None);
    assert_eq!(out.reply, status("ok"));
    assert_eq!(state, fresh());
}

#[test]
fn replay_rate_wraps_into_a_signed_step() {
    // a rate of 2^32 - 1 steps by -1, as the cast to i32 makes it
    let mut state = fresh();
    state.current_frame = 7;
    let groups = rate_body(ParamValue::Number(JsonNumber::PosInt(4294967295)));
    assert_eq!(replay_rate(Some(&groups)), 4294967295);
    let out = handle_replay_post(&mut state, Some(&action("forword")), Some(&groups));
    assert_eq!(out.reply, frame("target_frame", 6));
    assert_eq!(state.current_frame, 6);
}

#[test]
fn replay_range_checks() {
    let mut state = fresh();
    state.current_frame = 5;
    assert!(replay_fits(&state, &"forword".to_string(), 100));
    assert!(!replay_fits(&state, &"forword".to_string(), i32::MAX));
    assert!(replay_fits(&state, &"backword".to_string(), i32::MAX));
    state.current_frame = -5;
    assert!(!replay_fits(&state, &"backword".to_string(), i32::MAX));
    state.loaded_frame = u32::MAX - 9999;
    assert!(!replay_fits(&state, &"loaded_state".to_string(), 0));
    assert!(replay_fits(&state, &"play_state".to_string(), 0));
    state.current_frame = i32::MAX;
    assert!(!replay_fits(&state, &"play_state".to_string(), 0));
    assert!(replay_fits(&state, &"stop".to_string(), 0));
    assert_eq!(replay_rate(None), 0);
}
