//! A response as received, and how it is laid out for a reader.

use vstd::prelude::*;
use crate::error::ClientError;
use crate::error::ErrorView;
use crate::header::find_header;
use crate::header::header_value;
use crate::header::header_views;
use crate::header::Header;

verus! {

/// What came back from the server: the protocol version and the status as
/// they are to be shown, the headers in the order received (a name that
/// came twice stands twice), and the body as text.
#[derive(Clone, Debug, PartialEq, Eq)]
pub struct ResponseView {
    pub version: String,
    pub status: String,
    pub headers: Vec<Header>,
    pub body: String,
}

/// A response as contracts speak of it.
pub struct ResponseModel {
    pub version: Seq<char>,
    pub status: Seq<char>,
    pub headers: Seq<(Seq<char>, Seq<char>)>,
    pub body: Seq<char>,
}

impl View for ResponseView {
    type V = ResponseModel;

    open spec fn view(&self) -> ResponseModel {
        ResponseModel {
            version: self.version@,
            status: self.status@,
            headers: header_views(self.headers@),
            body: self.body@,
        }
    }
}

/// One piece of the display, with the part it plays: the part decides how
/// the terminal styles it.
#[derive(Clone, Debug, PartialEq, Eq)]
pub enum Line {
    /// Version and status, styled as one unit.
    Status { text: String },
    /// An empty line.
    Blank,
    /// One header, shown as `name: value`, the name styled apart from the
    /// value.
    Header { name: String, value: String },
    /// A JSON body, laid out over several indented lines.
    JsonBody { text: String },
    /// A body shown as it was received.
    RawBody { text: String },
}

/// The part that a run of characters plays in the display. The terminal
/// gives each part its own look; `Plain` text is shown as it is.
#[derive(Clone, Copy, Debug, PartialEq, Eq, Structural)]
pub enum Style {
    Status,
    HeaderName,
    Json,
    Plain,
}

/// A run of characters of one line that is styled as one.
#[derive(Clone, Debug, PartialEq, Eq)]
pub struct Span {
    pub style: Style,
    pub text: String,
}

impl View for Span {
    type V = (Style, Seq<char>);

    open spec fn view(&self) -> (Style, Seq<char>) {
        (self.style, self.text@)
    }
}

/// The spans of a line as contracts speak of them, in order.
pub open spec fn span_views(spans: Seq<Span>) -> Seq<(Style, Seq<char>)> {
    spans.map_values(|s: Span| s@)
}

/// The characters that a sequence of spans puts on the terminal, styling
/// left aside.
pub open spec fn spelled(spans: Seq<(Style, Seq<char>)>) -> Seq<char>
    decreases spans.len(),
{
    if spans.len() == 0 {
        Seq::empty()
    } else {
        spelled(spans.drop_last()) + spans.last().1
    }
}

/// A line as contracts speak of it.
pub enum LineView {
    Status(Seq<char>),
    Blank,
    Header(Seq<char>, Seq<char>),
    JsonBody(Seq<char>),
    RawBody(Seq<char>),
}

impl LineView {
    /// Whether the line shows a body, laid out or raw.
    pub open spec fn is_body(self) -> bool {
        self is JsonBody || self is RawBody
    }

    /// The characters of the line, without styling.
    pub open spec fn text(self) -> Seq<char> {
        match self {
            LineView::Status(text) => text,
            LineView::Blank => Seq::empty(),
            LineView::Header(name, value) => name + seq![':', ' '] + value,
            LineView::JsonBody(text) => text,
            LineView::RawBody(text) => text,
        }
    }

    /// The line cut into spans: the status line and a JSON body are styled
    /// as one unit each, the name of a header apart from the rest of its
    /// line, and a raw body not at all.
    pub open spec fn spans(self) -> Seq<(Style, Seq<char>)> {
        match self {
            LineView::Status(text) => seq![(Style::Status, text)],
            LineView::Blank => Seq::empty(),
            LineView::Header(name, value) => seq![
                (Style::HeaderName, name),
                (Style::Plain, seq![':', ' '] + value),
            ],
            LineView::JsonBody(text) => seq![(Style::Json, text)],
            LineView::RawBody(text) => seq![(Style::Plain, text)],
        }
    }
}

/// Styling changes no character: the spans of a line spell its text.
pub proof fn lemma_spans_spell_text(line: LineView)
    ensures
        spelled(line.spans()) == line.text(),
{
    reveal_with_fuel(spelled, 3);
}

impl View for Line {
    type V = LineView;

    open spec fn view(&self) -> LineView {
        match self {
            Line::Status { text } => LineView::Status(text@),
            Line::Blank => LineView::Blank,
            Line::Header { name, value } => LineView::Header(name@, value@),
            Line::JsonBody { text } => LineView::JsonBody(text@),
            Line::RawBody { text } => LineView::RawBody(text@),
        }
    }
}

impl Line {
    /// The characters of the line, without styling.
    pub fn text(&self) -> (text: String)
        ensures
            text@ == self@.text(),
    {
        match self {
            Line::Status { text } => text.clone(),
            Line::Blank => String::new(),
            Line::Header { name, value } => {
                proof {
                    reveal_strlit(": ");
                }
                let text = name.clone().concat(": ").concat(value.as_str());
                text
            },
            Line::JsonBody { text } => text.clone(),
            Line::RawBody { text } => text.clone(),
        }
    }

    /// The line cut into the spans that the terminal styles.
    pub fn spans(&self) -> (spans: Vec<Span>)
        ensures
            span_views(spans@) == self@.spans(),
            spelled(span_views(spans@)) == self@.text(),
    {
        proof {
            lemma_spans_spell_text(self@);
        }
        let mut spans: Vec<Span> = Vec::new();
        match self {
            Line::Status { text } => {
                spans.push(Span { style: Style::Status, text: text.clone() });
            },
            Line::Blank => {},
            Line::Header { name, value } => {
                proof {
                    reveal_strlit(": ");
                }
                let rest = String::from_str(": ").concat(value.as_str());
                assert(rest@ =~= seq![':', ' '] + value@);
                spans.push(Span { style: Style::HeaderName, text: name.clone() });
                spans.push(Span { style: Style::Plain, text: rest });
            },
            Line::JsonBody { text } => {
                spans.push(Span { style: Style::Json, text: text.clone() });
            },
            Line::RawBody { text } => {
                spans.push(Span { style: Style::Plain, text: text.clone() });
            },
        }
        spans
    }
}

/// The lines of a display as contracts speak of them, in order.
pub open spec fn line_views(lines: Seq<Line>) -> Seq<LineView> {
    lines.map_values(|l: Line| l@)
}

/// The verdict of the media type parser on the value of a `Content-Type`
/// header: `None` where the value is no media type, else whether the media
/// type it names is `application/json` and nothing else.
pub uninterp spec fn media_type_is_json(content_type: Seq<char>) -> Option<bool>;

/// What the JSON formatter makes of a text: the text laid out for
/// reading, or the reason why it gave up.
pub uninterp spec fn pretty_printed(json: Seq<char>) -> Result<Seq<char>, Seq<char>>;

/// Parses `content_type` with `mime::Mime`'s `FromStr` and compares what
/// came out with the constant `mime::APPLICATION_JSON`, through `Mime`'s
/// `PartialEq`. `None` stands for a parse error.
///
/// Trusted: the verdict is taken to depend on the characters of
/// `content_type` alone, and `media_type_is_json` is the name of that
/// dependency. Of the values that pass one is taken over: the text
/// `application/json` itself parses, and equals the constant.
#[verifier::external_body]
fn json_media_type(content_type: &str) -> (verdict: Option<bool>)
    ensures
        verdict == media_type_is_json(content_type@),
        content_type@ == "application/json"@ ==> verdict == Some(true),
{
    match content_type.parse::<mime::Mime>() {
        Ok(media_type) => Some(media_type == mime::APPLICATION_JSON),
        Err(_) => None,
    }
}

/// Calls `jsonxf::pretty_print` on `json`.
///
/// Trusted: the outcome is taken to depend on the characters of `json`
/// alone, and `pretty_printed` is the name of that dependency. Nothing is
/// claimed of which texts the formatter accepts, nor of the layout.
#[verifier::external_body]
fn pretty_print(json: &str) -> (outcome: Result<String, String>)
    ensures
        match outcome {
            Ok(text) => pretty_printed(json@) == Ok::<Seq<char>, Seq<char>>(text@),
            Err(reason) => pretty_printed(json@) == Err::<Seq<char>, Seq<char>>(reason@),
        },
{
    jsonxf::pretty_print(json)
}

/// How a body is shown.
#[derive(Clone, Copy, Debug, PartialEq, Eq, Structural)]
pub enum BodyFormat {
    /// As it was received.
    Raw,
    /// Laid out as JSON.
    Json,
}

/// The name of the header that declares the media type of the body.
pub open spec fn content_type_name() -> Seq<char> {
    "content-type"@
}

/// The format that a verdict on the media type calls for: JSON layout for a
/// media type that is exactly `application/json`, the raw body for any
/// other and for a value that names none.
pub open spec fn format_of(verdict: Option<bool>) -> BodyFormat {
    if verdict == Some(true) {
        BodyFormat::Json
    } else {
        BodyFormat::Raw
    }
}

/// The format in which the body under `headers` is shown. The first
/// `Content-Type` header decides; without one the body is shown raw.
pub open spec fn negotiated(headers: Seq<(Seq<char>, Seq<char>)>) -> BodyFormat {
    match header_value(headers, content_type_name()) {
        Some(value) => format_of(media_type_is_json(value)),
        None => BodyFormat::Raw,
    }
}

/// What becomes of a body that is to be laid out as JSON, given the
/// formatter's outcome: the laid-out text, or a format error with the
/// formatter's reason.
pub open spec fn json_line(outcome: Result<Seq<char>, Seq<char>>) -> Result<LineView, ErrorView> {
    match outcome {
        Ok(text) => Ok(LineView::JsonBody(text)),
        Err(reason) => Err(ErrorView::BodyFormatError(reason)),
    }
}

/// The line that shows `body` in `format`.
pub open spec fn body_line(body: Seq<char>, format: BodyFormat) -> Result<LineView, ErrorView> {
    match format {
        BodyFormat::Raw => Ok(LineView::RawBody(body)),
        BodyFormat::Json => json_line(pretty_printed(body)),
    }
}

/// The status line: the protocol version, a space, and the status.
pub open spec fn status_text(version: Seq<char>, status: Seq<char>) -> Seq<char> {
    version + seq![' '] + status
}

/// All that is shown before the body: the status line, an empty line, one
/// line for each header in the order received, and an empty line.
pub open spec fn head_lines(response: ResponseModel) -> Seq<LineView> {
    seq![LineView::Status(status_text(response.version, response.status)), LineView::Blank]
        + response.headers.map_values(|h: (Seq<char>, Seq<char>)| LineView::Header(h.0, h.1))
        + seq![LineView::Blank]
}

/// The whole display of a response: the head, then the body in the format
/// that its headers call for. Where the body cannot be laid out, there is
/// no display but the error.
pub open spec fn rendered(response: ResponseModel) -> Result<Seq<LineView>, ErrorView> {
    match body_line(response.body, negotiated(response.headers)) {
        Ok(line) => Ok(head_lines(response).push(line)),
        Err(e) => Err(e),
    }
}

/// Whether the lines stand in display order: a status line before every
/// header line, every header line before the body, and so the status line
/// before the body.
pub open spec fn in_display_order(lines: Seq<LineView>) -> bool {
    forall|i: int, j: int|
        0 <= i < lines.len() && 0 <= j < lines.len() ==> {
            &&& (#[trigger] lines[i]) is Status && (#[trigger] lines[j]) is Header ==> i < j
            &&& lines[i] is Header && lines[j].is_body() ==> i < j
            &&& lines[i] is Status && lines[j].is_body() ==> i < j
        }
}

/// The head of a display opens with the one status line and holds every
/// header after it, in the order received, between two empty lines.
pub proof fn lemma_head_layout(response: ResponseModel)
    ensures
        head_lines(response).len() == response.headers.len() + 3,
        head_lines(response)[0] == LineView::Status(
            status_text(response.version, response.status),
        ),
        head_lines(response)[1] == LineView::Blank,
        forall|k: int|
            0 <= k < response.headers.len() ==> #[trigger] head_lines(response)[k + 2]
                == LineView::Header(response.headers[k].0, response.headers[k].1),
        head_lines(response).last() == LineView::Blank,
{
}

/// Every display that rendering gives is in display order, and ends with
/// its only body line, which follows the whole head.
pub proof fn lemma_rendered_in_order(response: ResponseModel)
    requires
        rendered(response) is Ok,
    ensures
        in_display_order(rendered(response)->Ok_0),
        rendered(response)->Ok_0.drop_last() == head_lines(response),
        rendered(response)->Ok_0.last().is_body(),
        forall|i: int|
            0 <= i < head_lines(response).len() ==> !(#[trigger] head_lines(response)[i]).is_body(),
{
    let head = head_lines(response);
    assert forall|i: int| 0 <= i < head.len() implies !(#[trigger] head[i]).is_body() && (head[i]
        is Status ==> i == 0) && (head[i] is Header ==> 2 <= i) by {}
}

/// Picks the format for a verdict of the media type parser.
pub fn format_for(verdict: Option<bool>) -> (format: BodyFormat)
    ensures
        format == format_of(verdict),
{
    match verdict {
        Some(true) => BodyFormat::Json,
        _ => BodyFormat::Raw,
    }
}

/// Makes the body line of a JSON body from the formatter's outcome.
pub fn finish_json(outcome: Result<String, String>) -> (r: Result<Line, ClientError>)
    ensures
        match outcome {
            Ok(text) => r is Ok && r->Ok_0@ == LineView::JsonBody(text@),
            Err(reason) => r is Err && r->Err_0@ == ErrorView::BodyFormatError(reason@),
        },
{
    match outcome {
        Ok(text) => Ok(Line::JsonBody { text }),
        Err(reason) => Err(ClientError::BodyFormatError { reason }),
    }
}

/// Decides from the headers of a response how its body is shown.
///
/// A first `Content-Type` header whose value is `application/json` to the
/// letter makes it JSON; no such header at all makes it raw.
pub fn negotiate(headers: &Vec<Header>) -> (format: BodyFormat)
    ensures
        format == negotiated(header_views(headers@)),
        header_value(header_views(headers@), content_type_name()) == Some("application/json"@)
            ==> format == BodyFormat::Json,
        header_value(header_views(headers@), content_type_name()) is None ==> format
            == BodyFormat::Raw,
{
    match find_header(headers, "content-type") {
        Some(value) => format_for(json_media_type(value)),
        None => BodyFormat::Raw,
    }
}

/// Lays `body` out in `format`.
///
/// A raw body is shown unchanged. A JSON body goes through the formatter,
/// and a body that the formatter gives up on is a format error.
pub fn lay_out(body: &str, format: BodyFormat) -> (r: Result<Line, ClientError>)
    ensures
        match body_line(body@, format) {
            Ok(line) => r is Ok && r->Ok_0@ == line,
            Err(e) => r is Err && r->Err_0@ == e,
        },
{
    match format {
        BodyFormat::Raw => Ok(Line::RawBody { text: String::from_str(body) }),
        BodyFormat::Json => finish_json(pretty_print(body)),
    }
}

impl ResponseView {
    /// The status line of the response.
    pub fn status_line(&self) -> (line: Line)
        ensures
            line@ == LineView::Status(status_text(self@.version, self@.status)),
    {
        proof {
            reveal_strlit(" ");
        }
        let text = self.version.clone().concat(" ").concat(self.status.as_str());
        assert(text@ =~= status_text(self@.version, self@.status));
        Line::Status { text }
    }

    /// The format in which the body of the response is shown.
    pub fn body_format(&self) -> (format: BodyFormat)
        ensures
            format == negotiated(self@.headers),
            header_value(self@.headers, content_type_name()) == Some("application/json"@)
                ==> format == BodyFormat::Json,
            header_value(self@.headers, content_type_name()) is None ==> format
                == BodyFormat::Raw,
    {
        negotiate(&self.headers)
    }

    /// Renders what precedes the body. This cannot fail, so the head can be
    /// shown before the body is looked at.
    pub fn render_head(&self) -> (lines: Vec<Line>)
        ensures
            line_views(lines@) == head_lines(self@),
    {
        let ghost shown = self@.headers.map_values(
            |h: (Seq<char>, Seq<char>)| LineView::Header(h.0, h.1),
        );
        let ghost opening = seq![
            LineView::Status(status_text(self@.version, self@.status)),
            LineView::Blank,
        ];
        let mut lines: Vec<Line> = Vec::new();
        lines.push(self.status_line());
        lines.push(Line::Blank);
        let mut i: usize = 0;
        while i < self.headers.len()
            invariant
                i <= self.headers.len(),
                shown == self@.headers.map_values(
                    |h: (Seq<char>, Seq<char>)| LineView::Header(h.0, h.1),
                ),
                line_views(lines@) == opening + shown.take(i as int),
            decreases self.headers.len() - i,
        {
            let header = &self.headers[i];
            let line = Line::Header { name: header.name.clone(), value: header.value.clone() };
            let ghost before = line_views(lines@);
            lines.push(line);
            assert(line_views(lines@) =~= before.push(shown[i as int]));
            i = i + 1;
        }
        let ghost before = line_views(lines@);
        lines.push(Line::Blank);
        assert(line_views(lines@) =~= before.push(LineView::Blank));
        lines
    }

    /// Renders the body in the format that the headers call for.
    pub fn render_body(&self) -> (r: Result<Line, ClientError>)
        ensures
            match body_line(self@.body, negotiated(self@.headers)) {
                Ok(line) => r is Ok && r->Ok_0@ == line,
                Err(e) => r is Err && r->Err_0@ == e,
            },
    {
        lay_out(self.body.as_str(), self.body_format())
    }

    /// Renders the whole response: status line, empty line, headers, empty
    /// line, body. The response itself is left as it was.
    pub fn render(&self) -> (r: Result<Vec<Line>, ClientError>)
        ensures
            match rendered(self@) {
                Ok(lines) => r is Ok && line_views(r->Ok_0@) == lines,
                Err(e) => r is Err && r->Err_0@ == e,
            },
            r is Ok ==> in_display_order(line_views(r->Ok_0@)),
    {
        proof {
            if rendered(self@) is Ok {
                lemma_rendered_in_order(self@);
            }
        }
        let mut lines = self.render_head();
        match self.render_body() {
            Ok(line) => {
                lines.push(line);
                Ok(lines)
            },
            Err(e) => Err(e),
        }
    }
}

} // verus!
