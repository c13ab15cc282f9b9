use httpie::error::ClientError;
use httpie::header::Header;
use httpie::request::describe_get;
use httpie::request::Method;
use httpie::response::finish_json;
use httpie::response::format_for;
use httpie::response::lay_out;
use httpie::response::negotiate;
use httpie::response::BodyFormat;
use httpie::response::Line;
use httpie::response::ResponseView;
use httpie::response::Span;
use httpie::response::Style;

fn named(name: &str, value: &str) -> Header {
    Header { name: name.to_string(), value: value.to_string() }
}

fn response(headers: Vec<Header>, body: &str) -> ResponseView {
    ResponseView {
        version: "HTTP/1.1".to_string(),
        status: "200 OK".to_string(),
        headers,
        body: body.to_string(),
    }
}

#[test]
fn json_body_is_laid_out() {
    let view = response(vec![named("Content-Type", "application/json")], "{\"x\":1}");
    assert_eq!(view.body_format(), BodyFormat::Json);
    assert_eq!(view.render_body(), Ok(Line::JsonBody { text: "{\n  \"x\": 1\n}".to_string() }));
}

#[test]
fn plain_body_is_left_alone() {
    let view = response(vec![named("Content-Type", "text/plain")], "{\"x\":1}");
    assert_eq!(view.body_format(), BodyFormat::Raw);
    assert_eq!(view.render_body(), Ok(Line::RawBody { text: "{\"x\":1}".to_string() }));
}

#[test]
fn body_without_content_type_is_left_alone() {
    let view = response(vec![named("Server", "test")], "{\"x\":1}");
    assert_eq!(view.render_body(), Ok(Line::RawBody { text: "{\"x\":1}".to_string() }));
    let bare = response(Vec::new(), "");
    assert_eq!(bare.render_body(), Ok(Line::RawBody { text: String::new() }));
}

#[test]
fn unparseable_content_type_means_raw() {
    assert_eq!(negotiate(&vec![named("content-type", "not a media type")]), BodyFormat::Raw);
    assert_eq!(negotiate(&vec![named("content-type", "")]), BodyFormat::Raw);
    assert_eq!(negotiate(&vec![named("content-type", "json")]), BodyFormat::Raw);
}

#[test]
fn only_application_json_means_json() {
    assert_eq!(negotiate(&vec![named("content-type", "application/json")]), BodyFormat::Json);
    assert_eq!(negotiate(&vec![named("CONTENT-TYPE", "Application/JSON")]), BodyFormat::Json);
    assert_eq!(negotiate(&vec![named("content-type", "application/xml")]), BodyFormat::Raw);
    assert_eq!(negotiate(&vec![named("content-type", "text/json")]), BodyFormat::Raw);
    assert_eq!(negotiate(&vec![named("content-type", "application/ld+json")]), BodyFormat::Raw);
    assert_eq!(negotiate(&vec![named("content-type", "*/*")]), BodyFormat::Raw);
}

#[test]
fn parameters_make_another_media_type() {
    assert_eq!(
        negotiate(&vec![named("content-type", "application/json; charset=utf-8")]),
        BodyFormat::Raw
    );
}

#[test]
fn first_content_type_decides() {
    let headers =
        vec![named("content-type", "text/html"), named("content-type", "application/json")];
    assert_eq!(negotiate(&headers), BodyFormat::Raw);
    let headers =
        vec![named("content-type", "application/json"), named("content-type", "text/html")];
    assert_eq!(negotiate(&headers), BodyFormat::Json);
}

#[test]
fn verdict_picks_the_format() {
    assert_eq!(format_for(Some(true)), BodyFormat::Json);
    assert_eq!(format_for(Some(false)), BodyFormat::Raw);
    assert_eq!(format_for(None), BodyFormat::Raw);
}

#[test]
fn formatter_failure_is_a_body_format_error() {
    assert_eq!(
        finish_json(Err("unexpected end".to_string())),
        Err(ClientError::BodyFormatError { reason: "unexpected end".to_string() })
    );
    assert_eq!(
        finish_json(Ok("{}".to_string())),
        Ok(Line::JsonBody { text: "{}".to_string() })
    );
}

#[test]
fn nested_json_is_indented_by_level() {
    assert_eq!(
        lay_out("{\"a\":{\"b\":[1,2]},\"c\":\"d\"}", BodyFormat::Json),
        Ok(Line::JsonBody {
            text: "{\n  \"a\": {\n    \"b\": [\n      1,\n      2\n    ]\n  },\n  \"c\": \"d\"\n}"
                .to_string()
        })
    );
    assert_eq!(
        lay_out("{\"a\":{\"b\":[1,2]}}", BodyFormat::Raw),
        Ok(Line::RawBody { text: "{\"a\":{\"b\":[1,2]}}".to_string() })
    );
}

#[test]
fn status_line_joins_version_and_status() {
    let view = ResponseView {
        version: "HTTP/2.0".to_string(),
        status: "404 Not Found".to_string(),
        headers: Vec::new(),
        body: String::new(),
    };
    assert_eq!(view.status_line(), Line::Status { text: "HTTP/2.0 404 Not Found".to_string() });
}

#[test]
fn head_is_status_blank_headers_blank() {
    let view = response(vec![named("server", "test"), named("x-id", "7")], "ignored");
    assert_eq!(
        view.render_head(),
        vec![
            Line::Status { text: "HTTP/1.1 200 OK".to_string() },
            Line::Blank,
            Line::Header { name: "server".to_string(), value: "test".to_string() },
            Line::Header { name: "x-id".to_string(), value: "7".to_string() },
            Line::Blank,
        ]
    );
    let bare = response(Vec::new(), "ignored");
    assert_eq!(
        bare.render_head(),
        vec![Line::Status { text: "HTTP/1.1 200 OK".to_string() }, Line::Blank, Line::Blank]
    );
}

#[test]
fn repeated_headers_each_get_a_line() {
    let view = response(vec![named("set-cookie", "a=1"), named("set-cookie", "b=2")], "");
    let lines = view.render().unwrap();
    assert_eq!(lines.len(), 6);
    assert_eq!(
        lines[2],
        Line::Header { name: "set-cookie".to_string(), value: "a=1".to_string() }
    );
    assert_eq!(
        lines[3],
        Line::Header { name: "set-cookie".to_string(), value: "b=2".to_string() }
    );
}

#[test]
fn status_precedes_headers_precede_body() {
    let view = response(
        vec![named("content-type", "application/json"), named("server", "test")],
        "[1]",
    );
    let lines = view.render().unwrap();
    let status: Vec<usize> =
        (0..lines.len()).filter(|&i| matches!(lines[i], Line::Status { .. })).collect();
    let headers: Vec<usize> =
        (0..lines.len()).filter(|&i| matches!(lines[i], Line::Header { .. })).collect();
    let body: Vec<usize> = (0..lines.len())
        .filter(|&i| matches!(lines[i], Line::JsonBody { .. } | Line::RawBody { .. }))
        .collect();
    assert_eq!(status, vec![0]);
    assert_eq!(headers, vec![2, 3]);
    assert_eq!(body, vec![5]);
    assert_eq!(lines[1], Line::Blank);
    assert_eq!(lines[4], Line::Blank);
    assert_eq!(lines[5], Line::JsonBody { text: "[\n  1\n]".to_string() });
}

#[test]
fn rendering_leaves_the_response_as_it_was() {
    let view = response(vec![named("content-type", "application/json")], "{\"x\":1}");
    let before = view.clone();
    let first = view.render();
    let second = view.render();
    assert_eq!(view, before);
    assert_eq!(first, second);
}

#[test]
fn line_text_is_the_line_without_styling() {
    assert_eq!(Line::Status { text: "HTTP/1.1 200 OK".to_string() }.text(), "HTTP/1.1 200 OK");
    assert_eq!(Line::Blank.text(), "");
    assert_eq!(
        Line::Header { name: "content-type".to_string(), value: "text/html".to_string() }.text(),
        "content-type: text/html"
    );
    assert_eq!(Line::JsonBody { text: "{}".to_string() }.text(), "{}");
    assert_eq!(Line::RawBody { text: "<p>".to_string() }.text(), "<p>");
}

#[test]
fn get_of_a_json_resource_from_arguments_to_display() {
    let request = describe_get("https://httpbin.example/get").unwrap().plan();
    assert_eq!(request.method, Method::Get);
    assert_eq!(request.url, "https://httpbin.example/get");
    assert_eq!(request.json_body, None);

    let answer = ResponseView {
        version: "HTTP/1.1".to_string(),
        status: "200 OK".to_string(),
        headers: vec![named("content-type", "application/json"), named("content-length", "30")],
        body: "{\"args\":{},\"url\":\"/get\"}".to_string(),
    };
    let lines = answer.render().unwrap();
    assert!(lines[0].text().contains("200"));
    assert_eq!(
        lines,
        vec![
            Line::Status { text: "HTTP/1.1 200 OK".to_string() },
            Line::Blank,
            Line::Header { name: "content-type".to_string(), value: "application/json".to_string() },
            Line::Header { name: "content-length".to_string(), value: "30".to_string() },
            Line::Blank,
            Line::JsonBody { text: "{\n  \"args\": {},\n  \"url\": \"/get\"\n}".to_string() },
        ]
    );
}

#[test]
fn error_status_is_rendered_like_any_other() {
    let answer = ResponseView {
        version: "HTTP/1.1".to_string(),
        status: "500 Internal Server Error".to_string(),
        headers: vec![named("content-type", "text/plain")],
        body: "boom".to_string(),
    };
    assert_eq!(
        answer.render(),
        Ok(vec![
            Line::Status { text: "HTTP/1.1 500 Internal Server Error".to_string() },
            Line::Blank,
            Line::Header { name: "content-type".to_string(), value: "text/plain".to_string() },
            Line::Blank,
            Line::RawBody { text: "boom".to_string() },
        ])
    );
}

#[test]
fn lines_are_cut_into_styled_spans() {
    assert_eq!(
        Line::Status { text: "HTTP/1.1 200 OK".to_string() }.spans(),
        vec![Span { style: Style::Status, text: "HTTP/1.1 200 OK".to_string() }]
    );
    assert_eq!(Line::Blank.spans(), Vec::new());
    assert_eq!(
        Line::Header { name: "server".to_string(), value: "test".to_string() }.spans(),
        vec![
            Span { style: Style::HeaderName, text: "server".to_string() },
            Span { style: Style::Plain, text: ": test".to_string() },
        ]
    );
    assert_eq!(
        Line::JsonBody { text: "{}".to_string() }.spans(),
        vec![Span { style: Style::Json, text: "{}".to_string() }]
    );
    assert_eq!(
        Line::RawBody { text: "<p>".to_string() }.spans(),
        vec![Span { style: Style::Plain, text: "<p>".to_string() }]
    );
}

#[test]
fn spans_spell_the_text_of_their_line() {
    let lines = vec![
        Line::Status { text: "HTTP/1.1 200 OK".to_string() },
        Line::Blank,
        Line::Header { name: "content-type".to_string(), value: "text/html".to_string() },
        Line::JsonBody { text: "[\n  1\n]".to_string() },
        Line::RawBody { text: "raw".to_string() },
    ];
    for line in lines {
        let spelled: String = line.spans().into_iter().map(|span| span.text).collect();
        assert_eq!(spelled, line.text());
    }
}
