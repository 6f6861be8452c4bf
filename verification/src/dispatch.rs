//! The per-line pipeline: format selection, the level and condition
//! filter gate, and the recovery policy for lines that do not parse or
//! decode. Every line yields exactly one outcome: text for the output
//! stream and, in debug mode, a diagnostic for the error channel.

use vstd::prelude::*;
use crate::value::{JsonValue, compact, push_compact, has_key, get, lookup};
use crate::record::{BunyanLine, valid_record, decode_error_msg, decoded};
use crate::text::{trim_start_spec, trim_start, is_blank, blank, prefix_before,
    take_prefix_before, dec_str_of, push_dec_u64};
use crate::render::{render_value, push_render_value};
use crate::outside::{parsed_json_of, parse_json_line, pretty_json_of, pretty_json, ParseFailure};

verus! {

/// The output formats: raw re-indented JSON, the inspection dump, and
/// the long, short and simple record renderings.
pub enum LogFormat {
    Json(i32),
    Inspect,
    Long,
    Short,
    Simple,
}

impl LogFormat {
    /// The name of this format; an indented JSON format carries its
    /// indent in the name.
    pub open spec fn spec_name(&self) -> Seq<char> {
        match *self {
            LogFormat::Json(indent) => "json-"@ + (if indent < 0 {
                "-"@ + dec_str_of((-(indent as int)) as nat)
            } else {
                dec_str_of(indent as nat)
            }),
            LogFormat::Inspect => "inspect"@,
            LogFormat::Long => "long"@,
            LogFormat::Short => "short"@,
            LogFormat::Simple => "simple"@,
        }
    }

    pub fn as_string(&self) -> (name: String)
        ensures
            name@ == self.spec_name(),
    {
        match *self {
            LogFormat::Json(indent) => {
                let mut s = String::from_str("json-");
                if indent < 0 {
                    s.append("-");
                    let mag = (-(indent as i64)) as u64;
                    push_dec_u64(&mut s, mag);
                } else {
                    push_dec_u64(&mut s, indent as u64);
                }
                proof {
                    assert(s@ =~= self.spec_name());
                }
                s
            },
            LogFormat::Inspect => String::from_str("inspect"),
            LogFormat::Long => String::from_str("long"),
            LogFormat::Short => String::from_str("short"),
            LogFormat::Simple => String::from_str("simple"),
        }
    }
}

/// The per-run output configuration. The condition predicate is owned by
/// the caller, who hands its verdict to the pipeline per line.
pub struct LoggerOutputConfig {
    pub indent: usize,
    pub is_strict: bool,
    pub is_debug: bool,
    pub level: Option<u16>,
    pub display_local_time: bool,
    pub format: LogFormat,
}

impl LogFormat {
    /// Writes the record in the format the configuration selects — the
    /// configuration's, whatever format the method is called on. The
    /// JSON and inspect formats bypass record decoding and are handled
    /// before a record exists, so they are not accepted here.
    pub fn write_log(&self, out: &mut String, log: &BunyanLine, config: &LoggerOutputConfig)
        requires
            config.format is Long || config.format is Short || config.format is Simple,
        ensures
            final(out)@ == old(out)@ + (match config.format {
                LogFormat::Long => crate::long::long_format(log),
                LogFormat::Short => crate::long::short_format(log),
                _ => crate::long::simple_format(log),
            }),
    {
        match config.format {
            LogFormat::Long => log.write_long_format(out),
            LogFormat::Short => log.write_short_format(out),
            _ => log.write_simple_format(out),
        }
    }
}

// ---------------------------------------------------------------------------
// Error/recovery policy
// ---------------------------------------------------------------------------

/// What a failed line leaves in the output stream: outside strict mode
/// the offending line itself, so no data is lost; under strict mode
/// nothing.
pub open spec fn recovery_echo(line: Seq<char>, strict: bool) -> Seq<char> {
    if strict {
        Seq::<char>::empty()
    } else {
        line + "\n"@
    }
}

/// What a failed line leaves on the error channel: in debug mode the
/// message — any ` line N` tail from the underlying parser cut off —
/// with the authoritative line number and, when known, the column.
pub open spec fn recovery_diag(
    msg: Seq<char>,
    line_no: nat,
    column: Option<nat>,
    debug: bool,
) -> Option<Seq<char>> {
    if debug {
        Some(
            prefix_before(msg, " line "@) + " on line "@ + dec_str_of(line_no) + (match column {
                Some(c) => " column: "@ + dec_str_of(c),
                None => Seq::<char>::empty(),
            }),
        )
    } else {
        None
    }
}

/// One processed line's outcome: what goes to the output stream, and
/// what goes to the error channel.
pub struct LineOutput {
    pub out: String,
    pub diag: Option<String>,
}

pub open spec fn opt_view(o: Option<String>) -> Option<Seq<char>> {
    match o {
        Some(s) => Some(s@),
        None => None,
    }
}

fn make_recovery(line: &str, msg: &str, line_no: usize, column: Option<usize>, config: &LoggerOutputConfig) -> (r: LineOutput)
    ensures
        r.out@ == recovery_echo(line@, config.is_strict),
        opt_view(r.diag) == recovery_diag(
            msg@,
            line_no as nat,
            match column {
                Some(c) => Some(c as nat),
                None => None,
            },
            config.is_debug,
        ),
{
    let mut out = String::new();
    if !config.is_strict {
        out.append(line);
        out.append("\n");
        proof {
            assert(out@ =~= recovery_echo(line@, config.is_strict));
        }
    }
    let diag = if config.is_debug {
        let mut d = take_prefix_before(msg, " line ");
        d.append(" on line ");
        push_dec_u64(&mut d, line_no as u64);
        match column {
            Some(c) => {
                d.append(" column: ");
                push_dec_u64(&mut d, c as u64);
            },
            None => {},
        }
        proof {
            assert(Some(d@) =~= recovery_diag(
                msg@,
                line_no as nat,
                match column {
                    Some(c) => Some(c as nat),
                    None => None,
                },
                config.is_debug,
            ));
        }
        Some(d)
    } else {
        None
    };
    LineOutput { out, diag }
}

// ---------------------------------------------------------------------------
// The per-line pipeline
// ---------------------------------------------------------------------------

/// The fields a line must carry for the inspect format; a line missing
/// one degrades to compact JSON instead. This set asks for `v` but not
/// `name`, unlike the record model's required fields: the inspect path
/// reads a plain map, not a record.
pub open spec fn inspect_fields_ok(entries: Seq<(String, JsonValue)>) -> bool {
    &&& has_key(entries, "v"@)
    &&& has_key(entries, "level"@)
    &&& has_key(entries, "hostname"@)
    &&& has_key(entries, "pid"@)
    &&& has_key(entries, "time"@)
    &&& has_key(entries, "msg"@)
}

fn check_inspect_fields(entries: &Vec<(String, JsonValue)>) -> (r: bool)
    ensures
        r == inspect_fields_ok(entries@),
{
    get(entries, "v").is_some() && get(entries, "level").is_some() && get(
        entries,
        "hostname",
    ).is_some() && get(entries, "pid").is_some() && get(entries, "time").is_some() && get(
        entries,
        "msg",
    ).is_some()
}

/// Whether a decoded record passes the filter gate: the level threshold,
/// then the caller's condition verdict.
pub open spec fn passes_filter(level: u16, threshold: Option<u16>, cond: bool) -> bool {
    (match threshold {
        Some(t) => t <= level,
        None => true,
    }) && cond
}

/// What the zero-indent JSON path leaves in the output stream for a
/// parsed value: its compact text on one line.
pub open spec fn zero_indent_out(v: JsonValue) -> Seq<char> {
    compact(v) + "\n"@
}

/// The widest indent and the longest line the indented-JSON path hands
/// to the pretty-printer; see `pretty_json` for why they are bounded.
pub open spec fn clamped_indent(indent: i32) -> i32 {
    if indent > 1000 {
        1000
    } else {
        indent
    }
}

/// What the output stream gets for one line. The text is a function of
/// the line, the configuration, the caller's condition verdict, and what
/// the JSON parser and the pretty-printer return for the line. A line
/// that fails echoes back whole — untrimmed — so no data is lost.
pub open spec fn line_out_spec(
    line: Seq<char>,
    config: LoggerOutputConfig,
    cond: bool,
) -> Seq<char> {
    let trimmed = trim_start_spec(line);
    if !config.is_strict && is_blank(trimmed) {
        "\n"@
    } else {
        match config.format {
            LogFormat::Json(indent) => if indent < 1 {
                match parsed_json_of(trimmed) {
                    Ok(v) => zero_indent_out(v),
                    Err(f) => recovery_echo(line, config.is_strict),
                }
            } else if trimmed.len() > 1000000 {
                recovery_echo(line, config.is_strict)
            } else {
                pretty_json_of(trimmed, clamped_indent(indent)) + "\n"@
            },
            LogFormat::Inspect => match parsed_json_of(trimmed) {
                Ok(v) => match v {
                    JsonValue::Obj(entries) => if inspect_fields_ok(entries@) {
                        render_value(v, 0) + "\n"@
                    } else {
                        zero_indent_out(v)
                    },
                    _ => recovery_echo(line, config.is_strict),
                },
                Err(f) => recovery_echo(line, config.is_strict),
            },
            _ => match parsed_json_of(trimmed) {
                Ok(v) => match v {
                    JsonValue::Obj(entries) => if valid_record(entries@) {
                        if passes_filter(
                            crate::record::decoded_level(entries@),
                            config.level,
                            cond,
                        ) {
                            match config.format {
                                LogFormat::Long => crate::long::long_format_of(entries@),
                                LogFormat::Short => crate::long::short_format_of(entries@),
                                _ => crate::long::simple_format_of(entries@),
                            }
                        } else {
                            Seq::<char>::empty()
                        }
                    } else {
                        recovery_echo(line, config.is_strict)
                    },
                    _ => recovery_echo(line, config.is_strict),
                },
                Err(f) => recovery_echo(line, config.is_strict),
            },
        }
    }
}

/// What the error channel gets for one line: nothing outside debug mode,
/// and nothing for a line that parses and decodes.
pub open spec fn line_diag_spec(
    line: Seq<char>,
    config: LoggerOutputConfig,
    line_no: nat,
) -> Option<Seq<char>> {
    let trimmed = trim_start_spec(line);
    if !config.is_strict && is_blank(trimmed) {
        None
    } else {
        match config.format {
            LogFormat::Json(indent) => if indent < 1 {
                match parsed_json_of(trimmed) {
                    Ok(v) => None,
                    Err(f) => recovery_diag(f.msg@, line_no, Some(f.column as nat), config.is_debug),
                }
            } else if trimmed.len() > 1000000 {
                recovery_diag("line too long to re-indent"@, line_no, None, config.is_debug)
            } else {
                None
            },
            LogFormat::Inspect => match parsed_json_of(trimmed) {
                Ok(v) => match v {
                    JsonValue::Obj(entries) => None,
                    _ => recovery_diag(
                        "log line is not a JSON object"@,
                        line_no,
                        None,
                        config.is_debug,
                    ),
                },
                Err(f) => recovery_diag(f.msg@, line_no, Some(f.column as nat), config.is_debug),
            },
            _ => match parsed_json_of(trimmed) {
                Ok(v) => match v {
                    JsonValue::Obj(entries) => if valid_record(entries@) {
                        None
                    } else {
                        recovery_diag(decode_error_msg(entries@), line_no, None, config.is_debug)
                    },
                    _ => recovery_diag(
                        "log line is not a JSON object"@,
                        line_no,
                        None,
                        config.is_debug,
                    ),
                },
                Err(f) => recovery_diag(f.msg@, line_no, Some(f.column as nat), config.is_debug),
            },
        }
    }
}

/// Processes one input line: trims it, handles blank lines, dispatches
/// on the configured format, gates records through the filter, and
/// recovers locally from parse and decode failures. `cond` is the
/// condition predicate's verdict on the raw line; pass `true` when no
/// predicate is configured.
pub fn process_line(line: &str, config: &LoggerOutputConfig, cond: bool, line_no: usize) -> (r:
    LineOutput)
    ensures
        r.out@ == line_out_spec(line@, *config, cond),
        opt_view(r.diag) == line_diag_spec(line@, *config, line_no as nat),
{
    let trimmed = trim_start(line);
    if !config.is_strict && blank(trimmed.as_str()) {
        return LineOutput { out: String::from_str("\n"), diag: None };
    }
    match config.format {
        LogFormat::Json(indent) => {
            if indent < 1 {
                match parse_json_line(trimmed.as_str()) {
                    Ok(v) => {
                        let mut out = String::new();
                        push_compact(&mut out, &v);
                        out.append("\n");
                        LineOutput { out, diag: None }
                    },
                    Err(f) => make_recovery(
                        line,
                        f.msg.as_str(),
                        line_no,
                        Some(f.column),
                        config,
                    ),
                }
            } else if trimmed.as_str().unicode_len() > 1000000 {
                make_recovery(line, "line too long to re-indent", line_no, None, config)
            } else {
                let used: i32 = if indent > 1000 {
                    1000
                } else {
                    indent
                };
                let mut out = pretty_json(trimmed.as_str(), used);
                out.append("\n");
                LineOutput { out, diag: None }
            }
        },
        LogFormat::Inspect => {
            match parse_json_line(trimmed.as_str()) {
                Ok(v) => {
                    let is_obj_ok = match &v {
                        JsonValue::Obj(entries) => Some(check_inspect_fields(entries)),
                        _ => None,
                    };
                    match is_obj_ok {
                        Some(true) => {
                            let mut out = String::new();
                            push_render_value(&mut out, &v, 0);
                            out.append("\n");
                            LineOutput { out, diag: None }
                        },
                        Some(false) => {
                            let mut out = String::new();
                            push_compact(&mut out, &v);
                            out.append("\n");
                            LineOutput { out, diag: None }
                        },
                        None => make_recovery(
                            line,
                            "log line is not a JSON object",
                            line_no,
                            None,
                            config,
                        ),
                    }
                },
                Err(f) => make_recovery(
                    line,
                    f.msg.as_str(),
                    line_no,
                    Some(f.column),
                    config,
                ),
            }
        },
        _ => {
            match parse_json_line(trimmed.as_str()) {
                Ok(v) => {
                    let ghost parsed = v;
                    let is_obj = match &v {
                        JsonValue::Obj(_) => true,
                        _ => false,
                    };
                    if !is_obj {
                        return make_recovery(
                            line,
                            "log line is not a JSON object",
                            line_no,
                            None,
                            config,
                        );
                    }
                    match BunyanLine::from_json(v) {
                        Ok(rec) => {
                            let pass = (match config.level {
                                Some(t) => t <= rec.level,
                                None => true,
                            }) && cond;
                            if pass {
                                let mut out = String::new();
                                config.format.write_log(&mut out, &rec, config);
                                proof {
                                    crate::long::lemma_format_of_decoded(
                                        parsed->Obj_0@,
                                        rec,
                                    );
                                }
                                LineOutput { out, diag: None }
                            } else {
                                LineOutput { out: String::new(), diag: None }
                            }
                        },
                        Err(m) => make_recovery(
                            line,
                            m.as_str(),
                            line_no,
                            None,
                            config,
                        ),
                    }
                },
                Err(f) => make_recovery(
                    line,
                    f.msg.as_str(),
                    line_no,
                    Some(f.column),
                    config,
                ),
            }
        },
    }
}

/// Whether a line is a candidate record under the configuration: a
/// record-bearing format is selected and the line parses, decodes and
/// passes the level threshold, so only the condition predicate's verdict
/// still decides it. The predicate is externally owned and opaque, so
/// the pipeline takes its verdict as a plain argument; this test lets
/// the caller evaluate the predicate once per candidate record, after
/// the decode and level check.
pub open spec fn needs_condition_spec(line: Seq<char>, config: LoggerOutputConfig) -> bool {
    let trimmed = trim_start_spec(line);
    if !config.is_strict && is_blank(trimmed) {
        false
    } else {
        match config.format {
            LogFormat::Json(indent) => false,
            LogFormat::Inspect => false,
            _ => match parsed_json_of(trimmed) {
                Ok(v) => match v {
                    JsonValue::Obj(entries) => valid_record(entries@) && (match config.level {
                        Some(t) => t <= crate::record::decoded_level(entries@),
                        None => true,
                    }),
                    _ => false,
                },
                Err(f) => false,
            },
        }
    }
}

pub fn needs_condition(line: &str, config: &LoggerOutputConfig) -> (r: bool)
    ensures
        r == needs_condition_spec(line@, *config),
{
    let trimmed = trim_start(line);
    if !config.is_strict && blank(trimmed.as_str()) {
        return false;
    }
    match config.format {
        LogFormat::Json(indent) => false,
        LogFormat::Inspect => false,
        _ => {
            match parse_json_line(trimmed.as_str()) {
                Ok(v) => {
                    let ghost parsed = v;
                    let is_obj = match &v {
                        JsonValue::Obj(_) => true,
                        _ => false,
                    };
                    if !is_obj {
                        return false;
                    }
                    match BunyanLine::from_json(v) {
                        Ok(rec) => {
                            proof {
                                crate::long::lemma_format_of_decoded(parsed->Obj_0@, rec);
                            }
                            match config.level {
                                Some(t) => t <= rec.level,
                                None => true,
                            }
                        },
                        Err(m) => false,
                    }
                },
                Err(f) => false,
            }
        },
    }
}

} // verus!
