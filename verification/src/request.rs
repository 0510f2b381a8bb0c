use vstd::prelude::*;
use vstd::string::*;
use crate::dict::Dict;
use crate::json::{ParamValue, Reply};
use crate::cli::{texts, app_args, pick_app_cli_params};

verus! {

/// A request's query names its action whenever there is a query.
pub open spec fn names_action(query: Option<&Dict<String>>) -> bool {
    match query {
        Some(q) => q.map().dom().contains("action"@),
        None => true,
    }
}

/// The action that a request's query names.
pub open spec fn action_of(query: Option<&Dict<String>>) -> Option<Seq<char>> {
    match query {
        Some(q) => Some(q.map()["action"@]@),
        None => None,
    }
}

/// The action that a request's query names, if there is a query.
pub fn requested_action<'a>(query: Option<&'a Dict<String>>) -> (r: Option<&'a String>)
    requires
        names_action(query),
    ensures
        r is Some <==> query is Some,
        r is Some ==> Some(r->0@) == action_of(query),
{
    match query {
        Some(q) => match q.get("action") {
            Some(a) => Some(a),
            None => None,
        },
        None => None,
    }
}

/// The arguments of the lidar application that a request body gives (none
/// without a body).
pub open spec fn body_args(json: Option<&Vec<Dict<ParamValue>>>) -> Seq<Seq<char>> {
    match json {
        Some(groups) => app_args(groups@),
        None => seq![],
    }
}

/// The arguments of the lidar application that a request body gives.
pub fn args_of_body(json: Option<&Vec<Dict<ParamValue>>>) -> (args: Vec<String>)
    ensures
        texts(args@) == body_args(json),
{
    match json {
        Some(groups) => pick_app_cli_params(groups),
        None => {
            let v: Vec<String> = Vec::new();
            assert(texts(v@) =~= Seq::<Seq<char>>::empty());
            v
        },
    }
}

/// What a request asks of the lidar application process.
#[derive(Debug, Clone, PartialEq, Eq)]
pub enum AppCommand {
    /// Leave the process as it is.
    Keep,
    /// Stop the running process, if any.
    Stop,
    /// Start the process with these arguments, once the defaults are in.
    Start(Vec<String>),
}

/// The process command that the action `action` with body arguments
/// `args` asks for: "stop" stops, "start" starts, anything else keeps.
pub open spec fn command_for(c: AppCommand, action: Option<Seq<char>>, args: Seq<Seq<char>>) -> bool {
    match action {
        Some(a) => if a == "stop"@ {
            c is Stop
        } else if a == "start"@ {
            c matches AppCommand::Start(v) && texts(v@) == args
        } else {
            c is Keep
        },
        None => c is Keep,
    }
}

/// The answer to a request, and what it asks of the lidar application.
pub struct RequestOutcome {
    pub reply: Reply,
    pub command: AppCommand,
}

/// The process command for `action` with body arguments `args`.
pub fn command_of(action: Option<&String>, args: Vec<String>) -> (c: AppCommand)
    ensures
        command_for(c, match action {
            Some(a) => Some(a@),
            None => None,
        }, texts(args@)),
{
    match action {
        Some(a) => {
            if *a == "stop".to_owned() {
                AppCommand::Stop
            } else if *a == "start".to_owned() {
                AppCommand::Start(args)
            } else {
                AppCommand::Keep
            }
        },
        None => AppCommand::Keep,
    }
}

} // verus!
