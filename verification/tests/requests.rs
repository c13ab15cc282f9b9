use httpie::header::default_headers;
use httpie::header::find_header;
use httpie::header::names_match;
use httpie::header::Header;
use httpie::kv::KvItem;
use httpie::request::body_fields;
use httpie::request::describe_post;
use httpie::request::Method;
use httpie::request::OutboundRequest;
use httpie::request::RequestDescriptor;

fn field(key: &str, value: &str) -> KvItem {
    KvItem { key: key.to_string(), value: value.to_string() }
}

fn named(name: &str, value: &str) -> Header {
    Header { name: name.to_string(), value: value.to_string() }
}

#[test]
fn get_goes_out_without_a_body() {
    let descriptor = RequestDescriptor::Get { url: "https://example.com/".to_string() };
    assert_eq!(
        descriptor.plan(),
        OutboundRequest {
            method: Method::Get,
            url: "https://example.com/".to_string(),
            json_body: None,
        }
    );
}

#[test]
fn post_body_holds_each_pair() {
    let descriptor = RequestDescriptor::Post {
        url: "https://example.com/".to_string(),
        fields: vec![field("a", "1"), field("b", "2")],
    };
    let request = descriptor.plan();
    assert_eq!(request.method, Method::Post);
    assert_eq!(request.url, "https://example.com/");
    assert_eq!(request.json_body, Some(vec![field("a", "1"), field("b", "2")]));
}

#[test]
fn duplicate_key_keeps_the_last_value() {
    let descriptor = RequestDescriptor::Post {
        url: "https://example.com/".to_string(),
        fields: vec![field("a", "1"), field("a", "2")],
    };
    assert_eq!(descriptor.plan().json_body, Some(vec![field("a", "2")]));
}

#[test]
fn folding_keeps_keys_in_order_of_first_occurrence() {
    let fields =
        vec![field("x", "1"), field("y", "2"), field("x", "3"), field("z", "4"), field("y", "5")];
    assert_eq!(body_fields(&fields), vec![field("x", "3"), field("y", "5"), field("z", "4")]);
    assert_eq!(body_fields(&Vec::new()), Vec::new());
}

#[test]
fn keys_differ_by_case() {
    let fields = vec![field("a", "1"), field("A", "2")];
    assert_eq!(body_fields(&fields), vec![field("a", "1"), field("A", "2")]);
}

#[test]
fn empty_post_has_an_empty_object() {
    let descriptor = describe_post("https://example.com", &Vec::new()).unwrap();
    let request = descriptor.plan();
    assert_eq!(request.method, Method::Post);
    assert_eq!(request.json_body, Some(Vec::new()));
}

#[test]
fn arguments_to_outbound_request() {
    let tokens = vec!["name=ada".to_string(), "lang=en=us".to_string(), "name=grace".to_string()];
    let request = describe_post("http://localhost:3000/people", &tokens).unwrap().plan();
    assert_eq!(
        request,
        OutboundRequest {
            method: Method::Post,
            url: "http://localhost:3000/people".to_string(),
            json_body: Some(vec![field("name", "grace"), field("lang", "en")]),
        }
    );
}

#[test]
fn default_headers_are_fixed() {
    assert_eq!(
        default_headers(),
        vec![named("X-POWERED-BY", "Rust"), named("user-agent", "Rust Httpie")]
    );
    assert_eq!(default_headers(), default_headers());
}

#[test]
fn header_names_ignore_ascii_case() {
    assert!(names_match("Content-Type", "content-type"));
    assert!(names_match("CONTENT-TYPE", "Content-type"));
    assert!(names_match("", ""));
    assert!(!names_match("content-type", "content_type"));
    assert!(!names_match("content-type", "content-typ"));
    assert!(!names_match("@", "`"));
    assert!(!names_match("[", "{"));
    assert!(!names_match("é", "É"));
}

#[test]
fn first_header_of_a_name_is_found() {
    let headers = vec![
        named("Server", "test"),
        named("Set-Cookie", "a=1"),
        named("set-cookie", "b=2"),
    ];
    assert_eq!(find_header(&headers, "set-cookie"), Some("a=1"));
    assert_eq!(find_header(&headers, "SERVER"), Some("test"));
    assert_eq!(find_header(&headers, "content-type"), None);
    assert_eq!(find_header(&Vec::new(), "server"), None);
}

fn sent_body(request: &OutboundRequest) -> String {
    let members = request.json_body.as_ref().unwrap();
    let object: std::collections::HashMap<&String, &String> =
        members.iter().map(|member| (&member.key, &member.value)).collect();
    let built = reqwest::Client::new().post(&request.url).json(&object).build().unwrap();
    String::from_utf8(built.body().unwrap().as_bytes().unwrap().to_vec()).unwrap()
}

#[test]
fn sent_body_is_the_object_of_the_pairs() {
    let descriptor = RequestDescriptor::Post {
        url: "https://example.com/".to_string(),
        fields: vec![field("a", "1"), field("b", "2")],
    };
    let body = sent_body(&descriptor.plan());
    assert!(
        body == "{\"a\":\"1\",\"b\":\"2\"}" || body == "{\"b\":\"2\",\"a\":\"1\"}",
        "unexpected body {}",
        body
    );
}

#[test]
fn sent_body_has_the_last_value_of_a_repeated_key() {
    let descriptor = RequestDescriptor::Post {
        url: "https://example.com/".to_string(),
        fields: vec![field("a", "1"), field("a", "2")],
    };
    assert_eq!(sent_body(&descriptor.plan()), "{\"a\":\"2\"}");
    let empty =
        RequestDescriptor::Post { url: "https://example.com/".to_string(), fields: Vec::new() };
    assert_eq!(sent_body(&empty.plan()), "{}");
}
