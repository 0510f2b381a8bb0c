use rayz_edge::util_log::{parse_report_line, ReportLine, UtilReport};
use rayz_edge::json::{Reply, Scalar};

const PATTERN: &str = r#"^\[(?P<time>.*) (?P<level>.*)\] - (?P<key>.*): \"?(?P<val>.*?)\"?$"#;

fn parts(r: &ReportLine) -> (String, String, String, String) {
    (r.time.clone(), r.level.clone(), r.key.clone(), r.val.clone())
}

fn by_regex(re: &regex::Regex, line: &str) -> Option<(String, String, String, String)> {
    re.captures(line).map(|c| {
        (
            c["time"].to_string(),
            c["level"].to_string(),
            c["key"].to_string(),
            c["val"].to_string(),
        )
    })
}

#[test]
fn parses_a_plain_report_line() {
    let r = parse_report_line("[2024-01-01 12:00:00 INFO] - ip: \"192.168.0.2\"").unwrap();
    assert_eq!(r.time, "2024-01-01 12:00:00");
    assert_eq!(r.level, "INFO");
    assert_eq!(r.key, "ip");
    assert_eq!(r.val, "192.168.0.2");
}

#[test]
fn parses_an_unquoted_value() {
    let r = parse_report_line("[t WARN] - sn: AT3ECE52").unwrap();
    assert_eq!(parts(&r), ("t".into(), "WARN".into(), "sn".into(), "AT3ECE52".into()));
}

#[test]
fn greedy_parts_take_the_last_separators() {
    // the key runs to the last ": ", the level to the last "] - " before it
    let r = parse_report_line("[a b c] - k: v: w").unwrap();
    assert_eq!(parts(&r), ("a b".into(), "c".into(), "k: v".into(), "w".into()));
}

#[test]
fn rejects_lines_without_the_shape() {
    assert!(parse_report_line("").is_none());
    assert!(parse_report_line("plain output").is_none());
    assert!(parse_report_line("[t INFO] - no separator").is_none());
    assert!(parse_report_line("t INFO] - k: v").is_none());
    assert!(parse_report_line("[tINFO] - k: v").is_none());
    assert!(parse_report_line("[t INFO] - k: v\nmore").is_none());
}

#[test]
fn strips_one_quote_each_side() {
    let r = parse_report_line("[t L] - k: \"\"x\"\"").unwrap();
    assert_eq!(r.val, "\"x\"");
    let r = parse_report_line("[t L] - k: \"").unwrap();
    assert_eq!(r.val, "");
}

#[test]
fn agrees_with_the_regex_on_generated_lines() {
    let re = regex::Regex::new(PATTERN).unwrap();
    let pieces = [
        "[", "]", " ", "-", ":", "\"", "a", "] - ", ": ", "\n", "é", "\r", "x y", "[a b] - ", "k: ",
    ];
    let mut seed: u64 = 0x2545F4914F6CDD1D;
    let mut next = || {
        seed ^= seed << 13;
        seed ^= seed >> 7;
        seed ^= seed << 17;
        seed
    };
    for _ in 0..200_000 {
        let mut line = String::new();
        if next() % 4 != 0 {
            line.push('[');
        }
        let count = next() % 12;
        for _ in 0..count {
            line.push_str(pieces[(next() % pieces.len() as u64) as usize]);
        }
        let mine = parse_report_line(&line).map(|r| parts(&r));
        assert_eq!(mine, by_regex(&re, &line), "line {:?}", line);
    }
}

#[test]
fn report_keeps_the_last_value_of_each_key() {
    let mut report = UtilReport::new();
    report.absorb_line("[t INFO] - ip: \"1.1.1.1\"");
    report.absorb_line("noise");
    report.absorb_line("[t INFO] - sn: ABC");
    report.absorb_line("[t INFO] - ip: \"2.2.2.2\"");
    match report.to_reply() {
        Reply::Object(fields) => {
            assert_eq!(
                fields,
                vec![
                    ("ip".to_string(), Scalar::Text("2.2.2.2".to_string())),
                    ("sn".to_string(), Scalar::Text("ABC".to_string())),
                ]
            );
        }
        Reply::Text(_) => panic!("an object was expected"),
    }
}

#[test]
fn report_from_lines_matches_line_by_line() {
    let lines = vec![
        "[t I] - a: 1".to_string(),
        "[t I] - b: \"2\"".to_string(),
        "[t I] - a: 3".to_string(),
    ];
    let report = UtilReport::from_lines(&lines);
    assert_eq!(
        report.to_reply(),
        Reply::Object(vec![
            ("a".to_string(), Scalar::Text("3".to_string())),
            ("b".to_string(), Scalar::Text("2".to_string())),
        ])
    );
}

#[test]
fn empty_output_gives_an_empty_report() {
    assert_eq!(UtilReport::from_lines(&vec![]).to_reply(), Reply::Object(vec![]));
}

#[test]
fn written_report_line_reads_back() {
    let (time, level, key, val) = ("2024-05-06 07:08:09.123", "DEBUG", "reg[0x10]", "0x0000 beef");
    let line = format!("[{} {}] - {}: \"{}\"", time, level, key, val);
    let r = parse_report_line(&line).unwrap();
    assert_eq!(parts(&r), (time.into(), level.into(), key.into(), val.into()));
}
