use bunyan_view::record::BunyanLine;
use bunyan_view::value::JsonValue;
use bunyan_view::res::render_res;

fn entries(pairs: Vec<(&str, JsonValue)>) -> Vec<(String, JsonValue)> {
    pairs.into_iter().map(|(k, v)| (String::from(k), v)).collect()
}

fn base_record() -> BunyanLine {
    BunyanLine {
        name: String::from("svc"),
        hostname: String::from("h1"),
        pid: 1,
        component: None,
        level: 30,
        msg: String::from("hello"),
        time: String::from("2020-01-01T00:00:00.000Z"),
        v: Some(0),
        src: None,
        req_id: None,
        req: None,
        client_req: None,
        res: None,
        client_res: None,
        err: None,
        other: Vec::new(),
    }
}

fn long(rec: &BunyanLine) -> String {
    let mut out = String::new();
    rec.write_long_format(&mut out);
    out
}

const HEADER: &str = "[2020-01-01T00:00:00.000Z]  INFO: svc/1 on h1: hello";

#[test]
fn bare_record_renders_as_one_header_line() {
    assert_eq!(long(&base_record()), format!("{}\n", HEADER));
}

#[test]
fn component_and_src_decorate_the_header() {
    let mut rec = base_record();
    rec.component = Some(String::from("db"));
    rec.src = Some(entries(vec![
        ("file", JsonValue::Str(String::from("a.rs"))),
        ("line", JsonValue::Num(String::from("42"))),
        ("func", JsonValue::Str(String::from("go"))),
    ]));
    assert_eq!(
        long(&rec),
        "[2020-01-01T00:00:00.000Z]  INFO: svc/db/1 on h1 (a.rs:42 in go): hello\n"
    );
}

#[test]
fn inline_params_keep_insertion_order_with_req_id_first() {
    let mut rec = base_record();
    rec.req_id = Some(JsonValue::Str(String::from("abc")));
    rec.other = entries(vec![
        ("zeta", JsonValue::Num(String::from("7"))),
        ("alpha", JsonValue::Str(String::from("one two"))),
        ("empty", JsonValue::Obj(vec![])),
    ]);
    assert_eq!(
        long(&rec),
        format!("{} (req_id=abc, zeta=7, alpha=\"one two\", empty={{}})\n", HEADER)
    );
}

#[test]
fn raw_body_key_collapses_to_the_sub_object_name() {
    let mut rec = base_record();
    rec.req = Some(entries(vec![
        ("raw_body", JsonValue::Str(String::from("x"))),
        ("trailer", JsonValue::Null),
        ("header", JsonValue::Bool(true)),
    ]));
    // The request section renders its summary line; raw_body collapses,
    // and the singular trailer key is outside the request's consumed set.
    assert_eq!(
        long(&rec),
        format!(
            "{} (req=x, req.trailer=null, req.header=true)\n    undefined undefined HTTP/1.1\n",
            HEADER
        )
    );
}

#[test]
fn trailers_key_never_renders_inline() {
    let mut rec = base_record();
    rec.req = Some(entries(vec![
        ("trailers", JsonValue::Null),
        ("header", JsonValue::Bool(true)),
    ]));
    // `trailers` sits in the request's consumed set, and the
    // trailer/trailers pair is never shown as an inline parameter.
    assert_eq!(
        long(&rec),
        format!("{} (req.header=true)\n    undefined undefined HTTP/1.1\n", HEADER)
    );
}

#[test]
fn multiline_req_body_lines_are_indented() {
    let mut rec = base_record();
    rec.req = Some(entries(vec![
        ("method", JsonValue::Str(String::from("PUT"))),
        ("body", JsonValue::Str(String::from("b1\nb2"))),
    ]));
    assert_eq!(
        long(&rec),
        format!("{}\n    PUT undefined HTTP/1.1\n    b1\n    b2\n", HEADER)
    );
}

#[test]
fn multiline_extra_renders_as_a_block_not_inline() {
    let mut rec = base_record();
    rec.other = entries(vec![(
        "note",
        JsonValue::Str(String::from(
            "a very long line exceeding fifty characters in total length for sure",
        )),
    )]);
    assert_eq!(
        long(&rec),
        format!(
            "{}\n    note: a very long line exceeding fifty characters in total length for sure\n",
            HEADER
        )
    );
}

#[test]
fn divider_stands_exactly_between_nonempty_sections() {
    let mut rec = base_record();
    rec.req = Some(entries(vec![("method", JsonValue::Str(String::from("GET")))]));
    rec.err = Some(entries(vec![(
        "stack",
        JsonValue::Str(String::from("e1\ne2")),
    )]));
    assert_eq!(
        long(&rec),
        format!(
            "{}\n    GET undefined HTTP/1.1\n    --\n    e1\n    e2\n",
            HEADER
        )
    );
}

#[test]
fn object_extras_render_recursively_with_dividers() {
    let mut rec = base_record();
    rec.other = entries(vec![
        ("one", JsonValue::Obj(entries(vec![("a", JsonValue::Num(String::from("1")))]))),
        ("two", JsonValue::Arr(vec![JsonValue::Num(String::from("2"))])),
    ]);
    assert_eq!(
        long(&rec),
        format!(
            "{}\n    one: {{\n      \"a\": 1\n    }}\n    --\n    two: [\n      2\n    ]\n",
            HEADER
        )
    );
}

#[test]
fn client_req_writes_host_line() {
    let mut rec = base_record();
    rec.client_req = Some(entries(vec![
        ("method", JsonValue::Str(String::from("GET"))),
        ("url", JsonValue::Str(String::from("/x"))),
        ("address", JsonValue::Str(String::from("a.com"))),
        ("port", JsonValue::Num(String::from("8080"))),
    ]));
    assert_eq!(
        long(&rec),
        format!(
            "{}\n    GET /x HTTP/1.1\n    Host: a.com:8080\n",
            HEADER
        )
    );
}

#[test]
fn req_details_flatten_headers_and_body() {
    let mut rec = base_record();
    rec.req = Some(entries(vec![
        ("method", JsonValue::Str(String::from("POST"))),
        ("url", JsonValue::Str(String::from("/y"))),
        ("httpVersion", JsonValue::Str(String::from("1.0"))),
        (
            "headers",
            JsonValue::Obj(entries(vec![
                ("content-type", JsonValue::Str(String::from("text/plain"))),
                ("x-n", JsonValue::Num(String::from("3"))),
            ])),
        ),
        ("body", JsonValue::Str(String::from("payload"))),
    ]));
    assert_eq!(
        long(&rec),
        format!(
            "{}\n    POST /y HTTP/1.0\n    content-type: text/plain\n    x-n: 3\n    payload\n",
            HEADER
        )
    );
}

#[test]
fn res_header_wins_over_headers() {
    let res = Some(entries(vec![
        ("statusCode", JsonValue::Num(String::from("200"))),
        ("header", JsonValue::Obj(entries(vec![("a", JsonValue::Str(String::from("b")))]))),
        ("headers", JsonValue::Obj(entries(vec![("c", JsonValue::Str(String::from("d")))]))),
    ]));
    assert_eq!(render_res(&res), "    HTTP/1.1 200 OK\n    a: b\n");
}

#[test]
fn res_raw_string_header_supplies_the_version() {
    let res = Some(entries(vec![
        ("statusCode", JsonValue::Str(String::from("404"))),
        (
            "header",
            JsonValue::Str(String::from("HTTP/1.0 404 Not Found\r\nx: y\r\n\r\n")),
        ),
    ]));
    assert_eq!(
        render_res(&res),
        "    HTTP/1.0 404 Not Found\n    HTTP/1.0 404 Not Found\n    x: y\n"
    );
}

#[test]
fn res_status_line_omitted_for_unusable_codes() {
    let res = Some(entries(vec![
        ("statusCode", JsonValue::Num(String::from("70000"))),
        ("header", JsonValue::Obj(entries(vec![("a", JsonValue::Str(String::from("b")))]))),
    ]));
    assert_eq!(render_res(&res), "    a: b\n");
    let res2 = Some(entries(vec![
        ("statusCode", JsonValue::Str(String::from("20x"))),
        ("header", JsonValue::Obj(entries(vec![("a", JsonValue::Str(String::from("b")))]))),
    ]));
    assert_eq!(render_res(&res2), "    a: b\n");
}

#[test]
fn res_body_follows_a_blank_line() {
    let res = Some(entries(vec![
        ("statusCode", JsonValue::Num(String::from("204"))),
        ("body", JsonValue::Str(String::from("b1\nb2"))),
        ("detail", JsonValue::Obj(entries(vec![("k", JsonValue::Null)]))),
    ]));
    assert_eq!(
        render_res(&res),
        "    HTTP/1.1 204 No Content\n\n    b1\n    b2\n    res.detail: {\n      \"k\": null\n    }\n"
    );
}

#[test]
fn err_stack_array_renders_one_element_per_line() {
    let mut rec = base_record();
    rec.err = Some(entries(vec![(
        "stack",
        JsonValue::Arr(vec![
            JsonValue::Str(String::from("frame one")),
            JsonValue::Num(String::from("2")),
        ]),
    )]));
    assert_eq!(
        long(&rec),
        format!("{}\n    frame one\n    2\n", HEADER)
    );
}

#[test]
fn short_and_simple_formats_reduce_the_header() {
    let mut out = String::new();
    base_record().write_short_format(&mut out);
    assert_eq!(out, "[2020-01-01T00:00:00.000Z]  INFO: svc: hello\n");
    let mut out2 = String::new();
    base_record().write_simple_format(&mut out2);
    assert_eq!(out2, " INFO: hello\n");
}
