use vstd::prelude::*;
use vstd::string::*;
use crate::dict::Dict;
use crate::json::{ParamValue, Reply, ReplyView, Scalar, ScalarView, as_u64, value_as_u64, status, status_reply, push_field, fields_view};
use crate::request::{
    names_action, action_of, requested_action, body_args, args_of_body, AppCommand, command_for,
    command_of, RequestOutcome,
};

verus! {

/// The state that the request handlers share: where the lidar application
/// and utility live, and the progress of the replay that the page shows.
#[derive(Debug, Clone, PartialEq, Eq)]
pub struct AppState {
    pub app_path: String,
    pub util_path: String,
    pub loaded_state: bool,
    pub loaded_frame: u32,
    pub current_frame: i32,
}

impl AppState {
    /// The state of a freshly started server: nothing loaded, at frame 0.
    pub fn new(app_path: String, util_path: String) -> (s: Self)
        ensures
            s.app_path == app_path,
            s.util_path == util_path,
            !s.loaded_state,
            s.loaded_frame == 0,
            s.current_frame == 0,
    {
        AppState { app_path, util_path, loaded_state: false, loaded_frame: 0, current_frame: 0 }
    }
}

/// The last frame of a replay.
pub open spec fn last_frame() -> int {
    60
}

/// The play rate that a replay request body gives: the "play_rate" of its
/// first entry group when that is a non-negative integer, 0 otherwise.
pub open spec fn play_rate(json: Option<&Vec<Dict<ParamValue>>>) -> u64 {
    match json {
        Some(groups) => if groups@.len() > 0 && groups@[0].map().dom().contains("play_rate"@) {
            match as_u64(groups@[0].map()["play_rate"@]) {
                Some(r) => r,
                None => 0,
            }
        } else {
            0
        },
        None => 0,
    }
}

/// The frame that a step back by `rate` frames aims at.
pub open spec fn backward_target(current: i32, rate: i32) -> int {
    if current - rate <= 0 {
        0
    } else {
        current - rate
    }
}

/// The frame that a step forward by `rate` frames aims at.
pub open spec fn forward_target(current: i32, rate: i32) -> int {
    if current + rate >= last_frame() {
        last_frame()
    } else {
        current + rate
    }
}

/// The replay action `action` with rate `rate` keeps every number in
/// range in state `s`.
pub open spec fn replay_in_range(s: AppState, action: Seq<char>, rate: i32) -> bool {
    &&& action == "loaded_state"@ ==> s.loaded_frame + 10000 <= u32::MAX
    &&& action == "play_state"@ && s.current_frame != last_frame() ==> s.current_frame + 1 <= i32::MAX
    &&& action == "backword"@ ==> i32::MIN <= s.current_frame - rate <= i32::MAX
    &&& action == "forword"@ ==> i32::MIN <= s.current_frame + rate <= i32::MAX
}

/// The state after the replay action `action` with rate `rate`.
pub open spec fn replay_next(s: AppState, action: Seq<char>, rate: i32) -> AppState {
    if action == "loaded_state"@ {
        AppState {
            loaded_frame: (s.loaded_frame + 10000) as u32,
            loaded_state: s.loaded_frame + 10000 == 60000,
            ..s
        }
    } else if action == "play_state"@ {
        AppState {
            current_frame: if s.current_frame == last_frame() {
                s.current_frame
            } else {
                (s.current_frame + 1) as i32
            },
            ..s
        }
    } else if action == "backword"@ {
        AppState { current_frame: backward_target(s.current_frame, rate) as i32, ..s }
    } else if action == "forword"@ {
        AppState { current_frame: forward_target(s.current_frame, rate) as i32, ..s }
    } else {
        s
    }
}

/// The reply to the replay action `action` with rate `rate` in state `s`.
pub open spec fn replay_reply(s: AppState, action: Seq<char>, rate: i32) -> ReplyView {
    let t = replay_next(s, action, rate);
    if action == "stop"@ || action == "start"@ {
        status_reply("success"@)
    } else if action == "loaded_state"@ {
        ReplyView::Object(
            seq![
                ("loaded_state"@, ScalarView::Flag(t.loaded_state)),
                ("loaded_frame"@, ScalarView::Count(t.loaded_frame)),
            ],
        )
    } else if action == "play_state"@ {
        ReplyView::Object(seq![("current_frame"@, ScalarView::Frame(t.current_frame))])
    } else if action == "backword"@ || action == "forword"@ {
        ReplyView::Object(seq![("target_frame"@, ScalarView::Frame(t.current_frame))])
    } else {
        status_reply("ok"@)
    }
}

/// A replay that starts within its frames stays within them: from a
/// current frame between 0 and the last frame, every replay action with a
/// non-negative step leaves the current frame between 0 and the last frame.
pub proof fn lemma_replay_stays_in_frames(s: AppState, action: Seq<char>, rate: i32)
    requires
        0 <= s.current_frame <= last_frame(),
        rate >= 0,
        replay_in_range(s, action, rate),
    ensures
        0 <= replay_next(s, action, rate).current_frame <= last_frame(),
{
}

/// A step back never moves forward: from a frame between 0 and the last
/// frame, a "backword" request with a non-negative rate `r` moves the
/// current frame to the larger of `current - r` and 0, and answers that
/// frame as the target.
pub proof fn lemma_backward_step(s: AppState, rate: i32)
    requires
        0 <= s.current_frame <= last_frame(),
        rate >= 0,
    ensures
        replay_next(s, "backword"@, rate).current_frame == (if s.current_frame - rate > 0 {
            s.current_frame - rate
        } else {
            0
        }),
        replay_next(s, "backword"@, rate).current_frame <= s.current_frame,
        replay_reply(s, "backword"@, rate) == ReplyView::Object(
            seq![("target_frame"@, ScalarView::Frame(replay_next(s, "backword"@, rate).current_frame))],
        ),
{
    reveal_strlit("stop");
    reveal_strlit("start");
    reveal_strlit("loaded_state");
    reveal_strlit("play_state");
    reveal_strlit("backword");
    assert("stop"@.len() == 4);
    assert("start"@.len() == 5);
    assert("loaded_state"@.len() == 12);
    assert("play_state"@.len() == 10);
    assert("backword"@.len() == 8);
}

/// The state after `k` loading requests ("loaded_state") from state `s`.
pub open spec fn after_loading(s: AppState, k: nat) -> AppState
    decreases k,
{
    if k == 0 {
        s
    } else {
        replay_next(after_loading(s, (k - 1) as nat), "loaded_state"@, 0)
    }
}

/// Loading advances by 10000 frames per request and is reported done at
/// exactly the sixth request after a fresh start, and at no other.
pub proof fn lemma_loading_done_at_sixth_request(s: AppState, k: nat)
    requires
        s.loaded_frame == 0,
        1 <= k,
        k * 10000 <= u32::MAX,
    ensures
        after_loading(s, k).loaded_frame == k * 10000,
        after_loading(s, k).loaded_state == (k == 6),
    decreases k,
{
    let prev = after_loading(s, (k - 1) as nat);
    if k > 1 {
        lemma_loading_done_at_sixth_request(s, (k - 1) as nat);
    }
    assert(prev.loaded_frame == (k - 1) * 10000);
    assert(prev.loaded_frame + 10000 == k * 10000);
    assert(((prev.loaded_frame + 10000) as u32) == k * 10000);
}

/// The play rate that a replay request body gives.
pub fn replay_rate(json: Option<&Vec<Dict<ParamValue>>>) -> (rate: u64)
    ensures
        rate == play_rate(json),
{
    match json {
        Some(groups) => {
            if groups.len() > 0 {
                match groups[0].get("play_rate") {
                    Some(v) => match value_as_u64(v) {
                        Some(r) => r,
                        None => 0,
                    },
                    None => 0,
                }
            } else {
                0
            }
        },
        None => 0,
    }
}

/// Whether the replay action `action` with rate `rate` keeps every number
/// in range in state `state`.
pub fn replay_fits(state: &AppState, action: &String, rate: i32) -> (b: bool)
    ensures
        b == replay_in_range(*state, action@, rate),
{
    let loading_fits = *action != "loaded_state".to_owned() || state.loaded_frame <= u32::MAX - 10000;
    let play_fits = *action != "play_state".to_owned() || state.current_frame == 60
        || state.current_frame < i32::MAX;
    let back = state.current_frame as i64 - rate as i64;
    let back_fits = *action != "backword".to_owned() || (i32::MIN as i64 <= back && back
        <= i32::MAX as i64);
    let forth = state.current_frame as i64 + rate as i64;
    let forth_fits = *action != "forword".to_owned() || (i32::MIN as i64 <= forth && forth
        <= i32::MAX as i64);
    loading_fits && play_fits && back_fits && forth_fits
}

fn frame_reply(key: &str, frame: i32) -> (r: Reply)
    ensures
        r@ == ReplyView::Object(seq![(key@, ScalarView::Frame(frame))]),
{
    let mut fs: Vec<(String, Scalar)> = Vec::new();
    assert(fields_view(fs@) =~= Seq::empty());
    push_field(&mut fs, key, Scalar::Frame(frame));
    Reply::Object(fs)
}

/// Handles a request to the replay page. The body's entry groups give the
/// arguments of the lidar application and, in the first group, the play
/// rate. The query's action: "stop" and "start" act on the application
/// and answer "success"; "loaded_state" advances loading by 10000 frames,
/// and loading is done at exactly 60000; "play_state" advances the current
/// frame by one up to the last frame; "backword" and "forword" move it by
/// the play rate, no lower than 0 and no higher than the last frame, and
/// answer the frame reached; anything else, or no query, answers "ok".
pub fn handle_replay_post(
    state: &mut AppState,
    query: Option<&Dict<String>>,
    json: Option<&Vec<Dict<ParamValue>>>,
) -> (out: RequestOutcome)
    requires
        names_action(query),
        action_of(query) matches Some(a) ==> replay_in_range(*old(state), a, play_rate(json) as i32),
    ensures
        command_for(out.command, action_of(query), body_args(json)),
        match action_of(query) {
            Some(a) => {
                &&& *final(state) == replay_next(*old(state), a, play_rate(json) as i32)
                &&& out.reply@ == replay_reply(*old(state), a, play_rate(json) as i32)
            },
            None => {
                &&& *final(state) == *old(state)
                &&& out.reply@ == status_reply("ok"@)
            },
        },
{
    let rate = replay_rate(json);
    let step: i32 = rate as i32;
    let args = args_of_body(json);
    let action = requested_action(query);
    let command = command_of(action, args);
    let reply = match action {
        Some(a) => {
            proof {
                reveal_strlit("stop");
                reveal_strlit("start");
                reveal_strlit("loaded_state");
                reveal_strlit("play_state");
                reveal_strlit("backword");
                reveal_strlit("forword");
                assert("stop"@.len() == 4);
                assert("start"@.len() == 5);
                assert("loaded_state"@.len() == 12);
                assert("play_state"@.len() == 10);
                assert("backword"@.len() == 8);
                assert("forword"@.len() == 7);
            }
            if *a == "stop".to_owned() || *a == "start".to_owned() {
                status("success")
            } else if *a == "loaded_state".to_owned() {
                state.loaded_frame = state.loaded_frame + 10000;
                if state.loaded_frame == 60000 {
                    state.loaded_state = true;
                } else {
                    state.loaded_state = false;
                }
                let mut fs: Vec<(String, Scalar)> = Vec::new();
                assert(fields_view(fs@) =~= Seq::empty());
                push_field(&mut fs, "loaded_state", Scalar::Flag(state.loaded_state));
                push_field(&mut fs, "loaded_frame", Scalar::Count(state.loaded_frame));
                assert(fields_view(fs@) =~= seq![
                    ("loaded_state"@, ScalarView::Flag(state.loaded_state)),
                    ("loaded_frame"@, ScalarView::Count(state.loaded_frame)),
                ]);
                Reply::Object(fs)
            } else if *a == "play_state".to_owned() {
                if state.current_frame == 60 {
                    state.current_frame = 60;
                } else {
                    state.current_frame = state.current_frame + 1;
                }
                frame_reply("current_frame", state.current_frame)
            } else if *a == "backword".to_owned() {
                let target_frame = state.current_frame - step;
                if target_frame <= 0 {
                    state.current_frame = 0;
                    frame_reply("target_frame", 0)
                } else {
                    state.current_frame = target_frame;
                    frame_reply("target_frame", target_frame)
                }
            } else if *a == "forword".to_owned() {
                let target_frame = state.current_frame + step;
                if target_frame >= 60 {
                    state.current_frame = 60;
                    frame_reply("target_frame", 60)
                } else {
                    state.current_frame = target_frame;
                    frame_reply("target_frame", target_frame)
                }
            } else {
                status("ok")
            }
        },
        None => status("ok"),
    };
    RequestOutcome { reply, command }
}

} // verus!
