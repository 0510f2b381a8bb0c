use rayz_edge::cli::{complete_app_args, pick_app_cli_params, pick_util_cli_params, util_args_valid};
use rayz_edge::dict::Dict;
use rayz_edge::json::{val_to_string, JsonNumber, ParamValue};
use rayz_edge::text::{decimal_i64, decimal_u64};

fn text(s: &str) -> ParamValue {
    ParamValue::Text(s.to_string())
}

fn params(entries: &[(&str, ParamValue)]) -> Dict<ParamValue> {
    let mut d = Dict::new();
    for (k, v) in entries {
        d.insert(k.to_string(), v.clone());
    }
    d
}

fn strings(v: &[&str]) -> Vec<String> {
    v.iter().map(|s| s.to_string()).collect()
}

#[test]
fn decimal_rendering() {
    assert_eq!(decimal_u64(0), "0");
    assert_eq!(decimal_u64(7), "7");
    assert_eq!(decimal_u64(2368), "2368");
    assert_eq!(decimal_u64(u64::MAX), u64::MAX.to_string());
    assert_eq!(decimal_i64(-42), "-42");
    assert_eq!(decimal_i64(0), "0");
    assert_eq!(decimal_i64(i64::MIN), i64::MIN.to_string());
}

#[test]
fn value_texts() {
    assert_eq!(val_to_string(None), "");
    assert_eq!(val_to_string(Some(&text("abc"))), "abc");
    assert_eq!(val_to_string(Some(&ParamValue::Number(JsonNumber::PosInt(56789)))), "56789");
    assert_eq!(val_to_string(Some(&ParamValue::Number(JsonNumber::NegInt(-5)))), "-5");
    assert_eq!(val_to_string(Some(&ParamValue::Number(JsonNumber::Float("2.5".to_string())))), "2.5");
    assert_eq!(val_to_string(Some(&ParamValue::Other)), "");
}

#[test]
fn dict_reads_back_what_was_written() {
    let mut d: Dict<String> = Dict::new();
    d.insert("a".to_string(), "1".to_string());
    d.insert("b".to_string(), "2".to_string());
    d.insert("a".to_string(), "3".to_string());
    assert_eq!(d.len(), 2);
    assert_eq!(d.get("a"), Some(&"3".to_string()));
    assert_eq!(d.get("b"), Some(&"2".to_string()));
    assert_eq!(d.get("c"), None);
    assert!(d.contains_key("b"));
    assert!(!d.contains_key("c"));
    let (k, v) = d.entry(0);
    assert_eq!((k.as_str(), v.as_str()), ("a", "3"));
}

#[test]
fn util_net_get() {
    let p = params(&[("ipv4", text("192.168.0.2"))]);
    let args = pick_util_cli_params(&p, &"get".to_string(), &"net".to_string());
    assert_eq!(args, strings(&["192.168.0.2", "get", "all"]));
}

#[test]
fn util_net_set() {
    let p = params(&[
        ("IP_old", text("192.168.0.2")),
        ("IP", text("192.168.0.9")),
        ("destinationIP", text("192.168.0.3")),
        ("destinationPort", ParamValue::Number(JsonNumber::PosInt(2368))),
        ("broudcastIP", text("192.168.0.255")),
        ("Gateway", text("192.168.0.1")),
        ("Mask", text("255.255.255.0")),
        ("HeartPort", ParamValue::Number(JsonNumber::PosInt(56789))),
        ("Mac", text("00:0A:35:00:EB:2A")),
    ]);
    let args = pick_util_cli_params(&p, &"set".to_string(), &"net".to_string());
    assert_eq!(
        args,
        strings(&[
            "192.168.0.2",
            "debug",
            "set",
            "net",
            "192.168.0.9",
            "192.168.0.3",
            "2368",
            "192.168.0.255",
            "192.168.0.1",
            "255.255.255.0",
            "56789",
            "00:0A:35:00:EB:2A",
        ])
    );
}

#[test]
fn util_other_groups() {
    let p = params(&[
        ("ipv4", text("10.0.0.1")),
        ("regAddr", text("0x10")),
        ("regValue", text("0xff")),
        ("frameRate", ParamValue::Number(JsonNumber::PosInt(10))),
    ]);
    let pick = |a: &str, g: &str| pick_util_cli_params(&p, &a.to_string(), &g.to_string());
    assert_eq!(pick("get", "sn"), strings(&["10.0.0.1", "debug", "get", "sn"]));
    assert_eq!(pick("set", "sn"), strings(&["10.0.0.1", "debug", "set", "sn"]));
    assert_eq!(pick("get", "reg"), strings(&["10.0.0.1", "debug", "get", "reg", "0x10"]));
    assert_eq!(pick("set", "reg"), strings(&["10.0.0.1", "debug", "set", "reg", "0x10", "0xff"]));
    assert_eq!(pick("get", "fps"), strings(&["10.0.0.1", "debug", "get", "fps"]));
    assert_eq!(pick("set", "fps"), strings(&["10.0.0.1", "debug", "set", "fps", "10"]));
    assert_eq!(pick("get", "reboot"), strings(&["10.0.0.1", "reboot"]));
    assert_eq!(pick("set", "reboot"), strings(&["10.0.0.1", "reboot"]));
    assert!(pick("get", "gps").is_empty());
    assert!(!util_args_valid(&pick("get", "gps")));
    assert!(pick("delete", "net").is_empty());
    assert!(pick("delete", "reg").is_empty());
}

#[test]
fn util_missing_values_are_empty_and_refused() {
    let p = params(&[("ipv4", ParamValue::Other)]);
    let args = pick_util_cli_params(&p, &"get".to_string(), &"reg".to_string());
    assert_eq!(args, strings(&["", "debug", "get", "reg", ""]));
    assert!(!util_args_valid(&args));
}

#[test]
fn util_argument_validity() {
    assert!(!util_args_valid(&vec![]));
    assert!(!util_args_valid(&strings(&["a", ""])));
    assert!(util_args_valid(&strings(&["10.0.0.1", "reboot"])));
}

#[test]
fn app_arguments_from_entries() {
    let groups = vec![
        params(&[("filePath", text("/data/a.pcap")), ("lidarModel", text("W100P"))]),
        params(&[("url", text("udp://0.0.0.0:2368")), ("recordPath", text("/rec"))]),
        params(&[("uid", ParamValue::Number(JsonNumber::PosInt(42))), ("other", text("x"))]),
    ];
    let args = pick_app_cli_params(&groups);
    assert_eq!(
        args,
        strings(&[
            "-i",
            "/data/a.pcap",
            "--model",
            "m2w+",
            "-i",
            "udp://0.0.0.0:2368",
            "--record",
            "/rec",
            "--id",
            "42",
        ])
    );
}

#[test]
fn app_model_names() {
    let model = |m: &str| pick_app_cli_params(&vec![params(&[("lidarModel", text(m))])]);
    assert_eq!(model("H260"), strings(&["--model", "h2a+"]));
    assert_eq!(model("H260R"), strings(&["--model", "h2a"]));
    assert_eq!(model("W100"), strings(&["--model", "m2w"]));
    assert_eq!(model("W100P"), strings(&["--model", "m2w+"]));
    assert_eq!(model("V80"), strings(&["--model", "m2v"]));
    assert_eq!(model("osprey"), strings(&["--model", "osprey"]));
}

#[test]
fn app_non_string_values() {
    let groups = vec![params(&[
        ("filePath", ParamValue::Number(JsonNumber::PosInt(1))),
        ("lidarModel", ParamValue::Other),
        ("url", ParamValue::Other),
        ("recordPath", ParamValue::Number(JsonNumber::PosInt(2))),
        ("uid", text("u-7")),
    ])];
    assert_eq!(
        pick_app_cli_params(&groups),
        strings(&["--model", "-i", "--record", "--id", "u-7"])
    );
    let groups = vec![params(&[("uid", ParamValue::Other)])];
    assert_eq!(pick_app_cli_params(&groups), strings(&["--id"]));
    assert!(pick_app_cli_params(&vec![]).is_empty());
}

#[test]
fn app_defaults_are_added() {
    assert_eq!(
        complete_app_args(vec![]),
        strings(&["--model", "osprey", "-o", "ws://0.0.0.0:12369", "-l", "-1"])
    );
    assert_eq!(
        complete_app_args(strings(&["--model", "m2v", "-l", "3"])),
        strings(&["--model", "m2v", "-l", "3", "-o", "ws://0.0.0.0:12369"])
    );
    // an "-o" without the default address still gets the default output
    assert_eq!(
        complete_app_args(strings(&["-o", "ws://1.2.3.4:1", "--model", "x", "://"])),
        strings(&["-o", "ws://1.2.3.4:1", "--model", "x", "://", "-o", "ws://0.0.0.0:12369"])
    );
}

#[test]
fn app_defaults_complete_once() {
    let once = complete_app_args(strings(&["-i", "/data/a.pcap"]));
    let twice = complete_app_args(once.clone());
    assert_eq!(once, twice);
}
