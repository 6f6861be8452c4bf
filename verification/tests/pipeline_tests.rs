use bunyan_view::dispatch::{needs_condition, process_line, LogFormat, LoggerOutputConfig};
use bunyan_view::record::BunyanLine;
use bunyan_view::value::JsonValue;

fn config(format: LogFormat) -> LoggerOutputConfig {
    LoggerOutputConfig {
        indent: 0,
        is_strict: false,
        is_debug: false,
        level: None,
        display_local_time: false,
        format,
    }
}

const LINE: &str = "{\"v\":0,\"level\":30,\"name\":\"svc\",\"hostname\":\"h1\",\"pid\":1,\"time\":\"2020-01-01T00:00:00.000Z\",\"msg\":\"hello\"}";

#[test]
fn minimal_record_renders_a_single_header_line() {
    let r = process_line(LINE, &config(LogFormat::Long), true, 1);
    assert_eq!(
        r.out,
        "[2020-01-01T00:00:00.000Z]  INFO: svc/1 on h1: hello\n"
    );
    assert_eq!(r.diag, None);
}

#[test]
fn malformed_line_passes_through_unchanged() {
    let r = process_line("not json", &config(LogFormat::Long), true, 1);
    assert_eq!(r.out, "not json\n");
    assert_eq!(r.diag, None);
}

#[test]
fn malformed_line_echoes_verbatim_with_leading_whitespace() {
    let r = process_line("   not json", &config(LogFormat::Long), true, 1);
    assert_eq!(r.out, "   not json\n");
    assert_eq!(r.diag, None);
}

#[test]
fn oversized_line_for_indented_json_is_recovered() {
    let line = "x".repeat(1000001);
    let r = process_line(&line, &config(LogFormat::Json(4)), true, 1);
    assert_eq!(r.out, format!("{}\n", line));
    assert_eq!(r.diag, None);
}

#[test]
fn candidate_records_are_recognised_for_the_condition_gate() {
    let cfg = config(LogFormat::Long);
    assert!(needs_condition(LINE, &cfg));
    assert!(!needs_condition("not json", &cfg));
    assert!(!needs_condition(LINE, &config(LogFormat::Json(0))));
    let mut quiet = config(LogFormat::Long);
    quiet.level = Some(40);
    assert!(!needs_condition(LINE, &quiet));
}

#[test]
fn malformed_line_vanishes_under_strict_mode() {
    let mut cfg = config(LogFormat::Long);
    cfg.is_strict = true;
    let r = process_line("not json", &cfg, true, 1);
    assert_eq!(r.out, "");
    assert_eq!(r.diag, None);
}

#[test]
fn debug_mode_reports_line_and_column() {
    let mut cfg = config(LogFormat::Long);
    cfg.is_debug = true;
    let r = process_line("not json", &cfg, true, 7);
    assert_eq!(r.out, "not json\n");
    let diag = r.diag.expect("debug mode must report a diagnostic");
    assert!(diag.contains(" on line 7 column: "), "diagnostic was: {}", diag);
}

#[test]
fn level_threshold_suppresses_quieter_records() {
    let mut cfg = config(LogFormat::Long);
    cfg.level = Some(40);
    let r = process_line(LINE, &cfg, true, 1);
    assert_eq!(r.out, "");
    assert_eq!(r.diag, None);
    // A later, louder record is unaffected.
    let loud = LINE.replace("\"level\":30", "\"level\":50");
    let r2 = process_line(&loud, &cfg, true, 2);
    assert_eq!(
        r2.out,
        "[2020-01-01T00:00:00.000Z] ERROR: svc/1 on h1: hello\n"
    );
}

#[test]
fn condition_verdict_suppresses_records() {
    let r = process_line(LINE, &config(LogFormat::Long), false, 1);
    assert_eq!(r.out, "");
}

#[test]
fn blank_line_echoes_one_line_break() {
    let r = process_line("   ", &config(LogFormat::Long), true, 1);
    assert_eq!(r.out, "\n");
    assert_eq!(r.diag, None);
}

#[test]
fn json_zero_reserializes_compactly() {
    let r = process_line(
        "  {\"a\": 1, \"b\": [1, 2], \"c\": \"x\"}",
        &config(LogFormat::Json(0)),
        true,
        1,
    );
    assert_eq!(r.out, "{\"a\":1,\"b\":[1,2],\"c\":\"x\"}\n");
}

#[test]
fn inspect_renders_complete_records() {
    let r = process_line(
        "{\"v\":0,\"level\":30,\"hostname\":\"h1\",\"pid\":1,\"time\":\"t\",\"msg\":\"m\"}",
        &config(LogFormat::Inspect),
        true,
        1,
    );
    assert_eq!(
        r.out,
        "{\n  \"v\": 0,\n  \"level\": 30,\n  \"hostname\": \"h1\",\n  \"pid\": 1,\n  \"time\": \"t\",\n  \"msg\": \"m\"\n}\n"
    );
}

#[test]
fn inspect_degrades_to_compact_json_on_missing_fields() {
    let r = process_line(
        "{\"level\":30, \"pid\": 1}",
        &config(LogFormat::Inspect),
        true,
        1,
    );
    assert_eq!(r.out, "{\"level\":30,\"pid\":1}\n");
}

#[test]
fn missing_required_field_is_a_decode_error() {
    let v = JsonValue::Obj(vec![(String::from("level"), JsonValue::Num(String::from("30")))]);
    match BunyanLine::from_json(v) {
        Ok(_) => panic!("a record without a name must not decode"),
        Err(m) => assert_eq!(m, "invalid or missing field: name"),
    }
    let not_obj = JsonValue::Num(String::from("5"));
    match BunyanLine::from_json(not_obj) {
        Ok(_) => panic!("a number is no record"),
        Err(m) => assert_eq!(m, "log line is not a JSON object"),
    }
}

#[test]
fn wrongly_shaped_fields_name_the_first_offender() {
    let line = "{\"v\":0,\"level\":30,\"name\":\"svc\",\"hostname\":\"h1\",\"pid\":\"x\",\"time\":\"t\",\"msg\":\"m\"}";
    let r = process_line(line, &config(LogFormat::Long), true, 3);
    // the undecodable line is echoed, not dropped
    assert_eq!(r.out, format!("{}\n", line));
    let mut cfg = config(LogFormat::Long);
    cfg.is_debug = true;
    let r2 = process_line(line, &cfg, true, 3);
    assert_eq!(
        r2.diag,
        Some(String::from("invalid or missing field: pid on line 3"))
    );
}

#[test]
fn format_names_include_the_indent() {
    assert_eq!(LogFormat::Json(2).as_string(), "json-2");
    assert_eq!(LogFormat::Inspect.as_string(), "inspect");
    assert_eq!(LogFormat::Long.as_string(), "long");
}

#[test]
fn extra_fields_survive_decoding_in_order() {
    let line = "{\"v\":0,\"level\":30,\"name\":\"svc\",\"hostname\":\"h1\",\"pid\":1,\"time\":\"t\",\"msg\":\"m\",\"zz\":1,\"aa\":2}";
    let r = process_line(line, &config(LogFormat::Long), true, 1);
    assert_eq!(r.out, "[t]  INFO: svc/1 on h1: m (zz=1, aa=2)\n");
}
