use vstd::prelude::*;
use vstd::string::*;
use crate::dict::Dict;
use crate::json::{ParamValue, param_text, number_text, as_text, val_to_string, number_to_string};

verus! {

/// A list of strings, taken by their text.
pub open spec fn texts(v: Seq<String>) -> Seq<Seq<char>> {
    v.map_values(|s: String| s@)
}

/// Appends a copy of `s` to `args`.
pub fn push_text(args: &mut Vec<String>, s: &str)
    ensures
        texts(final(args)@) == texts(old(args)@).push(s@),
{
    args.push(s.to_owned());
    assert(texts(args@) =~= texts(old(args)@).push(s@));
}

/// Appends `s` to `args`.
pub fn push_string(args: &mut Vec<String>, s: String)
    ensures
        texts(final(args)@) == texts(old(args)@).push(s@),
{
    let ghost v = s@;
    args.push(s);
    assert(texts(args@) =~= texts(old(args)@).push(v));
}

/// Whether some element of `args` reads as `lit`.
pub fn has_text(args: &Vec<String>, lit: &str) -> (b: bool)
    ensures
        b == texts(args@).contains(lit@),
{
    let l = lit.to_owned();
    let n = args.len();
    let mut i: usize = 0;
    while i < n
        invariant
            n == args@.len(),
            l@ == lit@,
            i <= n,
            forall|j: int| 0 <= j < i ==> args@[j]@ != lit@,
        decreases n - i,
    {
        if args[i] == l {
            assert(texts(args@)[i as int] == lit@);
            return true;
        }
        i += 1;
    }
    assert(!texts(args@).contains(lit@)) by {
        if texts(args@).contains(lit@) {
            let j = choose|j: int| 0 <= j < texts(args@).len() && texts(args@)[j] == lit@;
            assert(args@[j]@ == lit@);
        }
    }
    false
}

/// The text of the request value stored under `key`, empty when there is none.
pub open spec fn lookup_text(m: Map<Seq<char>, ParamValue>, key: Seq<char>) -> Seq<char> {
    param_text(
        if m.dom().contains(key) {
            Some(m[key])
        } else {
            None
        },
    )
}

fn text_of(params: &Dict<ParamValue>, key: &str) -> (s: String)
    ensures
        s@ == lookup_text(params.map(), key@),
{
    val_to_string(params.get(key))
}

/// The arguments of the lidar utility for a request of `group` and `action`
/// ("get" or "set") with request values `m`.
pub open spec fn util_args(m: Map<Seq<char>, ParamValue>, action: Seq<char>, group: Seq<char>) -> Seq<Seq<char>> {
    let ipv4 = lookup_text(m, "ipv4"@);
    if group == "net"@ {
        if action == "get"@ {
            seq![ipv4, "get"@, "all"@]
        } else if action == "set"@ {
            seq![
                lookup_text(m, "IP_old"@),
                "debug"@,
                "set"@,
                "net"@,
                lookup_text(m, "IP"@),
                lookup_text(m, "destinationIP"@),
                lookup_text(m, "destinationPort"@),
                lookup_text(m, "broudcastIP"@),
                lookup_text(m, "Gateway"@),
                lookup_text(m, "Mask"@),
                lookup_text(m, "HeartPort"@),
                lookup_text(m, "Mac"@),
            ]
        } else {
            seq![]
        }
    } else if group == "sn"@ {
        if action == "get"@ {
            seq![ipv4, "debug"@, "get"@, "sn"@]
        } else if action == "set"@ {
            seq![ipv4, "debug"@, "set"@, "sn"@]
        } else {
            seq![]
        }
    } else if group == "reg"@ {
        if action == "get"@ {
            seq![ipv4, "debug"@, "get"@, "reg"@, lookup_text(m, "regAddr"@)]
        } else if action == "set"@ {
            seq![
                ipv4,
                "debug"@,
                "set"@,
                "reg"@,
                lookup_text(m, "regAddr"@),
                lookup_text(m, "regValue"@),
            ]
        } else {
            seq![]
        }
    } else if group == "fps"@ {
        if action == "get"@ {
            seq![ipv4, "debug"@, "get"@, "fps"@]
        } else if action == "set"@ {
            seq![ipv4, "debug"@, "set"@, "fps"@, lookup_text(m, "frameRate"@)]
        } else {
            seq![]
        }
    } else if group == "reboot"@ {
        seq![ipv4, "reboot"@]
    } else {
        seq![]
    }
}

/// The command-line arguments of the lidar utility for a request of
/// `group` ("net", "sn", "reg", "fps" or "reboot") and `action` ("get" or
/// "set"), read from the request values `params`. An unknown group or
/// action gives no arguments.
pub fn pick_util_cli_params(params: &Dict<ParamValue>, action: &String, group: &String) -> (args: Vec<String>)
    ensures
        texts(args@) == util_args(params.map(), action@, group@),
{
    let mut args: Vec<String> = Vec::new();
    let ghost m = params.map();
    assert(texts(args@) =~= Seq::<Seq<char>>::empty());
    if *group == "net".to_owned() {
        if *action == "get".to_owned() {
            push_string(&mut args, text_of(params, "ipv4"));
            push_text(&mut args, "get");
            push_text(&mut args, "all");
        } else if *action == "set".to_owned() {
            push_string(&mut args, text_of(params, "IP_old"));
            push_text(&mut args, "debug");
            push_text(&mut args, "set");
            push_text(&mut args, "net");
            push_string(&mut args, text_of(params, "IP"));
            push_string(&mut args, text_of(params, "destinationIP"));
            push_string(&mut args, text_of(params, "destinationPort"));
            push_string(&mut args, text_of(params, "broudcastIP"));
            push_string(&mut args, text_of(params, "Gateway"));
            push_string(&mut args, text_of(params, "Mask"));
            push_string(&mut args, text_of(params, "HeartPort"));
            push_string(&mut args, text_of(params, "Mac"));
        }
    } else if *group == "sn".to_owned() {
        if *action == "get".to_owned() {
            push_string(&mut args, text_of(params, "ipv4"));
            push_text(&mut args, "debug");
            push_text(&mut args, "get");
            push_text(&mut args, "sn");
        } else if *action == "set".to_owned() {
            push_string(&mut args, text_of(params, "ipv4"));
            push_text(&mut args, "debug");
            push_text(&mut args, "set");
            push_text(&mut args, "sn");
        }
    } else if *group == "reg".to_owned() {
        if *action == "get".to_owned() {
            push_string(&mut args, text_of(params, "ipv4"));
            push_text(&mut args, "debug");
            push_text(&mut args, "get");
            push_text(&mut args, "reg");
            push_string(&mut args, text_of(params, "regAddr"));
        } else if *action == "set".to_owned() {
            push_string(&mut args, text_of(params, "ipv4"));
            push_text(&mut args, "debug");
            push_text(&mut args, "set");
            push_text(&mut args, "reg");
            push_string(&mut args, text_of(params, "regAddr"));
            push_string(&mut args, text_of(params, "regValue"));
        }
    } else if *group == "fps".to_owned() {
        if *action == "get".to_owned() {
            push_string(&mut args, text_of(params, "ipv4"));
            push_text(&mut args, "debug");
            push_text(&mut args, "get");
            push_text(&mut args, "fps");
        } else if *action == "set".to_owned() {
            push_string(&mut args, text_of(params, "ipv4"));
            push_text(&mut args, "debug");
            push_text(&mut args, "set");
            push_text(&mut args, "fps");
            push_string(&mut args, text_of(params, "frameRate"));
        }
    } else if *group == "reboot".to_owned() {
        push_string(&mut args, text_of(params, "ipv4"));
        push_text(&mut args, "reboot");
    }
    assert(texts(args@) =~= util_args(m, action@, group@));
    args
}

/// The name under which the lidar application knows a lidar model.
pub open spec fn model_alias(v: Seq<char>) -> Seq<char> {
    if v == "H260"@ {
        "h2a+"@
    } else if v == "H260R"@ {
        "h2a"@
    } else if v == "W100"@ {
        "m2w"@
    } else if v == "W100P"@ {
        "m2w+"@
    } else if v == "V80"@ {
        "m2v"@
    } else {
        v
    }
}

/// The arguments of the lidar application that one request entry gives.
pub open spec fn entry_args(key: Seq<char>, v: ParamValue) -> Seq<Seq<char>> {
    if key == "filePath"@ {
        match as_text(v) {
            Some(t) => seq!["-i"@, t],
            None => seq![],
        }
    } else if key == "lidarModel"@ {
        match as_text(v) {
            Some(t) => seq!["--model"@, model_alias(t)],
            None => seq!["--model"@],
        }
    } else if key == "url"@ {
        match as_text(v) {
            Some(t) => seq!["-i"@, t],
            None => seq!["-i"@],
        }
    } else if key == "recordPath"@ {
        match as_text(v) {
            Some(t) => seq!["--record"@, t],
            None => seq!["--record"@],
        }
    } else if key == "uid"@ {
        match v {
            ParamValue::Text(t) => seq!["--id"@, t@],
            ParamValue::Number(n) => seq!["--id"@, number_text(n)],
            ParamValue::Other => seq!["--id"@],
        }
    } else {
        seq![]
    }
}

/// The arguments that the entries `s` give, in their order.
pub open spec fn group_args(s: Seq<(Seq<char>, ParamValue)>) -> Seq<Seq<char>>
    decreases s.len(),
{
    if s.len() == 0 {
        seq![]
    } else {
        group_args(s.drop_last()) + entry_args(s.last().0, s.last().1)
    }
}

/// The arguments that the request groups `groups` give, in their order.
pub open spec fn app_args(groups: Seq<Dict<ParamValue>>) -> Seq<Seq<char>>
    decreases groups.len(),
{
    if groups.len() == 0 {
        seq![]
    } else {
        app_args(groups.drop_last()) + group_args(groups.last().seq())
    }
}

fn model_name(v: &String) -> (r: String)
    ensures
        r@ == model_alias(v@),
{
    if *v == "H260".to_owned() {
        "h2a+".to_owned()
    } else if *v == "H260R".to_owned() {
        "h2a".to_owned()
    } else if *v == "W100".to_owned() {
        "m2w".to_owned()
    } else if *v == "W100P".to_owned() {
        "m2w+".to_owned()
    } else if *v == "V80".to_owned() {
        "m2v".to_owned()
    } else {
        v.clone()
    }
}

fn push_entry_args(args: &mut Vec<String>, key: &String, v: &ParamValue)
    ensures
        texts(final(args)@) == texts(old(args)@) + entry_args(key@, *v),
{
    let ghost before = texts(args@);
    if *key == "filePath".to_owned() {
        match v {
            ParamValue::Text(t) => {
                push_text(args, "-i");
                push_string(args, t.clone());
            },
            _ => {},
        }
    } else if *key == "lidarModel".to_owned() {
        push_text(args, "--model");
        match v {
            ParamValue::Text(t) => {
                push_string(args, model_name(t));
            },
            _ => {},
        }
    } else if *key == "url".to_owned() {
        push_text(args, "-i");
        match v {
            ParamValue::Text(t) => {
                push_string(args, t.clone());
            },
            _ => {},
        }
    } else if *key == "recordPath".to_owned() {
        push_text(args, "--record");
        match v {
            ParamValue::Text(t) => {
                push_string(args, t.clone());
            },
            _ => {},
        }
    } else if *key == "uid".to_owned() {
        push_text(args, "--id");
        match v {
            ParamValue::Text(t) => {
                push_string(args, t.clone());
            },
            ParamValue::Number(n) => {
                push_string(args, number_to_string(n));
            },
            ParamValue::Other => {},
        }
    }
    assert(texts(args@) =~= before + entry_args(key@, *v));
}

/// The command-line arguments of the lidar application that the request
/// groups `params` give: each entry, in order, adds the arguments of its
/// key ("filePath", "lidarModel", "url", "recordPath" or "uid"); other keys
/// add nothing.
pub fn pick_app_cli_params(params: &Vec<Dict<ParamValue>>) -> (args: Vec<String>)
    ensures
        texts(args@) == app_args(params@),
{
    let mut args: Vec<String> = Vec::new();
    assert(texts(args@) =~= Seq::<Seq<char>>::empty());
    let n = params.len();
    let mut g: usize = 0;
    while g < n
        invariant
            n == params@.len(),
            g <= n,
            texts(args@) == app_args(params@.take(g as int)),
        decreases n - g,
    {
        let group = &params[g];
        let m = group.len();
        let mut e: usize = 0;
        let ghost base = texts(args@);
        assert(group_args(group.seq().take(0)) =~= Seq::<Seq<char>>::empty());
        assert(base =~= base + group_args(group.seq().take(0)));
        while e < m
            invariant
                m == group.seq().len(),
                e <= m,
                texts(args@) == base + group_args(group.seq().take(e as int)),
            decreases m - e,
        {
            let (k, v) = group.entry(e);
            push_entry_args(&mut args, k, v);
            e += 1;
            assert(group.seq().take(e as int).drop_last() =~= group.seq().take(e - 1));
            assert(texts(args@) =~= base + group_args(group.seq().take(e as int)));
        }
        assert(group.seq().take(m as int) =~= group.seq());
        g += 1;
        assert(params@.take(g as int).drop_last() =~= params@.take(g - 1));
    }
    assert(params@.take(n as int) =~= params@);
    args
}

/// The arguments of the lidar application once the defaults are in: a
/// model ("--model osprey") unless one is named, the frame output
/// ("-o ws://0.0.0.0:12369") unless both its words are there, and endless
/// looping ("-l -1") unless "-l" or "://" is there.
pub open spec fn completed_args(a: Seq<Seq<char>>) -> Seq<Seq<char>> {
    let a1 = if !a.contains("--model"@) {
        a + seq!["--model"@, "osprey"@]
    } else {
        a
    };
    let a2 = if !a1.contains("-o"@) || !a1.contains("ws://0.0.0.0:12369"@) {
        a1 + seq!["-o"@, "ws://0.0.0.0:12369"@]
    } else {
        a1
    };
    if !a2.contains("-l"@) && !a2.contains("://"@) {
        a2 + seq!["-l"@, "-1"@]
    } else {
        a2
    }
}

/// Completion keeps the given arguments in front, and the completed
/// arguments name a model, name the frame output, and loop or read a
/// stream; completing them again changes nothing.
pub proof fn lemma_completion_is_idempotent(a: Seq<Seq<char>>)
    ensures
        completed_args(a).subrange(0, a.len() as int) == a,
        completed_args(a).contains("--model"@),
        completed_args(a).contains("-o"@),
        completed_args(a).contains("ws://0.0.0.0:12369"@),
        completed_args(a).contains("-l"@) || completed_args(a).contains("://"@),
        completed_args(completed_args(a)) == completed_args(a),
{
    let a1 = if !a.contains("--model"@) {
        a + seq!["--model"@, "osprey"@]
    } else {
        a
    };
    assert(a1.contains("--model"@)) by {
        if !a.contains("--model"@) {
            assert(a1[a.len() as int] == "--model"@);
        }
    }
    let a2 = if !a1.contains("-o"@) || !a1.contains("ws://0.0.0.0:12369"@) {
        a1 + seq!["-o"@, "ws://0.0.0.0:12369"@]
    } else {
        a1
    };
    assert(a2.contains("--model"@) && a2.contains("-o"@) && a2.contains("ws://0.0.0.0:12369"@)) by {
        let i = choose|i: int| 0 <= i < a1.len() && a1[i] == "--model"@;
        assert(a2[i] == "--model"@);
        if !a1.contains("-o"@) || !a1.contains("ws://0.0.0.0:12369"@) {
            assert(a2[a1.len() as int] == "-o"@);
            assert(a2[a1.len() + 1int] == "ws://0.0.0.0:12369"@);
        }
    }
    let a3 = completed_args(a);
    assert(a3.contains("--model"@) && a3.contains("-o"@) && a3.contains("ws://0.0.0.0:12369"@)
        && (a3.contains("-l"@) || a3.contains("://"@))) by {
        let i = choose|i: int| 0 <= i < a2.len() && a2[i] == "--model"@;
        let j = choose|j: int| 0 <= j < a2.len() && a2[j] == "-o"@;
        let k = choose|k: int| 0 <= k < a2.len() && a2[k] == "ws://0.0.0.0:12369"@;
        assert(a3[i] == "--model"@ && a3[j] == "-o"@ && a3[k] == "ws://0.0.0.0:12369"@);
        if !a2.contains("-l"@) && !a2.contains("://"@) {
            assert(a3[a2.len() as int] == "-l"@);
        } else if a2.contains("-l"@) {
            let m = choose|m: int| 0 <= m < a2.len() && a2[m] == "-l"@;
            assert(a3[m] == "-l"@);
        } else {
            let m = choose|m: int| 0 <= m < a2.len() && a2[m] == "://"@;
            assert(a3[m] == "://"@);
        }
    }
    assert(a3.subrange(0, a.len() as int) =~= a);
}

/// A utility request of a group other than "net", "sn", "reg", "fps" and
/// "reboot" gives no arguments, and the utility is then not started.
pub proof fn lemma_unknown_group_is_refused(m: Map<Seq<char>, ParamValue>, action: Seq<char>, group: Seq<char>)
    requires
        group != "net"@,
        group != "sn"@,
        group != "reg"@,
        group != "fps"@,
        group != "reboot"@,
    ensures
        util_args(m, action, group) == Seq::<Seq<char>>::empty(),
        !util_args_ok(util_args(m, action, group)),
{
}

/// The lidar utility is started exactly when it has at least one argument
/// and every argument, the first included, is non-empty.
pub proof fn lemma_util_args_ok_iff_all_nonempty(a: Seq<Seq<char>>)
    ensures
        util_args_ok(a) <==> (a.len() > 0 && forall|i: int| 0 <= i < a.len() ==> a[i].len() > 0),
{
    if a.len() > 0 && forall|i: int| 0 <= i < a.len() ==> a[i].len() > 0 {
        assert(!a.contains(Seq::<char>::empty())) by {
            if a.contains(Seq::<char>::empty()) {
                let j = choose|j: int| 0 <= j < a.len() && a[j] == Seq::<char>::empty();
                assert(a[j].len() == 0);
            }
        }
    }
    if util_args_ok(a) {
        assert forall|i: int| 0 <= i < a.len() implies a[i].len() > 0 by {
            if a[i].len() == 0 {
                assert(a[i] =~= Seq::<char>::empty());
                assert(a.contains(Seq::<char>::empty()));
            }
        }
    }
}

/// Arguments lacking a model get exactly "--model osprey" right after
/// them, whatever else they hold.
pub proof fn lemma_missing_model_is_osprey(a: Seq<Seq<char>>)
    requires
        !a.contains("--model"@),
    ensures
        completed_args(a).len() >= a.len() + 2,
        completed_args(a).subrange(0, a.len() as int) == a,
        completed_args(a)[a.len() as int] == "--model"@,
        completed_args(a)[a.len() + 1int] == "osprey"@,
{
    let a1 = a + seq!["--model"@, "osprey"@];
    let a2 = if !a1.contains("-o"@) || !a1.contains("ws://0.0.0.0:12369"@) {
        a1 + seq!["-o"@, "ws://0.0.0.0:12369"@]
    } else {
        a1
    };
    assert(a2[a.len() as int] == "--model"@);
    assert(a2[a.len() + 1int] == "osprey"@);
    assert(completed_args(a)[a.len() as int] == a2[a.len() as int]);
    assert(completed_args(a)[a.len() + 1int] == a2[a.len() + 1int]);
    assert(completed_args(a).subrange(0, a.len() as int) =~= a);
}

/// An entry under a key other than "filePath", "lidarModel", "url",
/// "recordPath" and "uid" adds no argument to its group.
pub proof fn lemma_other_keys_add_nothing(s: Seq<(Seq<char>, ParamValue)>, k: Seq<char>, v: ParamValue)
    requires
        k != "filePath"@,
        k != "lidarModel"@,
        k != "url"@,
        k != "recordPath"@,
        k != "uid"@,
    ensures
        group_args(s.push((k, v))) == group_args(s),
{
    assert(s.push((k, v)).drop_last() =~= s);
    assert(group_args(s) + Seq::<Seq<char>>::empty() =~= group_args(s));
}

/// The utility's arguments depend on the request values only through their
/// text: values of any JSON type with the same text give the same arguments.
pub proof fn lemma_util_args_see_only_text(
    m1: Map<Seq<char>, ParamValue>,
    m2: Map<Seq<char>, ParamValue>,
    action: Seq<char>,
    group: Seq<char>,
)
    requires
        forall|k: Seq<char>| lookup_text(m1, k) == lookup_text(m2, k),
    ensures
        util_args(m1, action, group) == util_args(m2, action, group),
{
}

/// A string value is passed on as it is: in particular a frame rate sent as
/// a string is the fifth argument of "fps" "set".
pub proof fn lemma_text_value_passes_through(m: Map<Seq<char>, ParamValue>, k: Seq<char>, s: String)
    ensures
        lookup_text(m.insert(k, ParamValue::Text(s)), k) == s@,
        util_args(m.insert("frameRate"@, ParamValue::Text(s)), "set"@, "fps"@).len() == 5,
        util_args(m.insert("frameRate"@, ParamValue::Text(s)), "set"@, "fps"@)[4] == s@,
{
    reveal_strlit("fps");
    reveal_strlit("net");
    reveal_strlit("sn");
    reveal_strlit("reg");
    reveal_strlit("get");
    reveal_strlit("set");
    assert("fps"@.len() == 3 && "net"@.len() == 3 && "sn"@.len() == 2 && "reg"@.len() == 3);
    assert("fps"@[0] == 'f' && "net"@[0] == 'n' && "reg"@[0] == 'r');
    assert("get"@.len() == 3 && "set"@[0] == 's' && "get"@[0] == 'g');
}

/// Completes the arguments of the lidar application with its defaults.
pub fn complete_app_args(args: Vec<String>) -> (out: Vec<String>)
    ensures
        texts(out@) == completed_args(texts(args@)),
{
    let mut args = args;
    let ghost a = texts(args@);
    if !has_text(&args, "--model") {
        push_text(&mut args, "--model");
        push_text(&mut args, "osprey");
    }
    assert(texts(args@) =~= (if !a.contains("--model"@) {
        a + seq!["--model"@, "osprey"@]
    } else {
        a
    }));
    let ghost a1 = texts(args@);
    if !has_text(&args, "-o") || !has_text(&args, "ws://0.0.0.0:12369") {
        push_text(&mut args, "-o");
        push_text(&mut args, "ws://0.0.0.0:12369");
    }
    assert(texts(args@) =~= (if !a1.contains("-o"@) || !a1.contains("ws://0.0.0.0:12369"@) {
        a1 + seq!["-o"@, "ws://0.0.0.0:12369"@]
    } else {
        a1
    }));
    let ghost a2 = texts(args@);
    if !has_text(&args, "-l") && !has_text(&args, "://") {
        push_text(&mut args, "-l");
        push_text(&mut args, "-1");
    }
    assert(texts(args@) =~= completed_args(a));
    args
}

/// The utility is only started with at least one argument and no empty one.
pub open spec fn util_args_ok(a: Seq<Seq<char>>) -> bool {
    a.len() > 0 && !a.contains(Seq::<char>::empty())
}

/// Whether the lidar utility may be started with `args`.
pub fn util_args_valid(args: &Vec<String>) -> (b: bool)
    ensures
        b == util_args_ok(texts(args@)),
{
    proof {
        reveal_strlit("");
        assert(""@ =~= Seq::<char>::empty());
    }
    assert(texts(args@).len() == args@.len());
    args.len() != 0 && !has_text(args, "")
}

} // verus!
