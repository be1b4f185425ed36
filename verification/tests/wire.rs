use honeybadger::honeybadger::{create_payload_with_config, serialize, user_agent};
use honeybadger::json::{push_dec, push_json_string};
use honeybadger::notice::{normalize, SourceError};
use honeybadger::{ConfigBuilder, EnvData};

fn boom() -> SourceError {
    SourceError::Opaque {
        display: "boom".to_owned(),
        debug: "boom!".to_owned(),
    }
}

#[test]
fn document_is_exactly_the_wire_format() {
    let config = ConfigBuilder::new("dummy-api-key", EnvData::empty())
        .with_root("/tmp/build")
        .with_env("test")
        .with_hostname("hickyblue")
        .build();
    let error = normalize(&boom());
    let cgi = vec![("HOME".to_owned(), "/root".to_owned())];
    let bytes = serialize(&config, error, None, cgi, 0, 42);
    let doc = String::from_utf8(bytes).expect("utf8");
    assert_eq!(
        "{\"api_key\":\"dummy-api-key\",\
         \"notifier\":{\"name\":\"honeybadger\",\
         \"url\":\"https://github.com/fussybeaver/honeybader-rs\",\
         \"version\":\"0.1.3\"},\
         \"error\":{\"class\":\"boom\",\"message\":\"boom!\",\"causes\":null},\
         \"request\":{\"context\":null,\"cgi_data\":{\"HOME\":\"/root\"}},\
         \"server\":{\"project_root\":\"/tmp/build\",\
         \"environment_name\":\"test\",\"hostname\":\"hickyblue\",\
         \"time\":0,\"pid\":42}}",
        doc
    );
}

#[test]
fn strings_are_escaped() {
    let mut out: Vec<u8> = Vec::new();
    push_json_string(&mut out, "a\"b\\c\nd\re\tf\u{1}g\u{e9}h\u{1F600}");
    let text = String::from_utf8(out).expect("utf8");
    assert_eq!(
        "\"a\\\"b\\\\c\\nd\\re\\tf\\u0001g\\u00e9h\\ud83d\\ude00\"",
        text
    );
}

#[test]
fn escaped_strings_decode_back() {
    let original = "a\"b\\c\nd\re\tf\u{1}g\u{e9}h\u{1F600}";
    let mut out: Vec<u8> = Vec::new();
    push_json_string(&mut out, original);
    let decoded: serde_json::Value = serde_json::from_slice(&out).expect("valid JSON");
    assert_eq!(Some(original), decoded.as_str());
}

#[test]
fn numbers_render_in_decimal() {
    let mut out: Vec<u8> = Vec::new();
    push_dec(&mut out, 0);
    assert_eq!(b"0".to_vec(), out);

    let mut out: Vec<u8> = Vec::new();
    push_dec(&mut out, 18446744073709551615);
    assert_eq!(b"18446744073709551615".to_vec(), out);
}

#[test]
fn round_trip() {
    let config = ConfigBuilder::new("dummy-api-key", EnvData::empty())
        .with_env("test")
        .build();
    let error = normalize(&SourceError::Opaque {
        display: "cl\"ass with escapes\n".to_owned(),
        debug: "debug".to_owned(),
    });
    let context = Some(vec![("request_id".to_owned(), "r-1".to_owned())]);
    let cgi = vec![
        ("PATH".to_owned(), "/usr/bin".to_owned()),
        ("LANG".to_owned(), "C.UTF-8".to_owned()),
    ];
    let bytes = serialize(&config, error, context, cgi, 1700000000, 4242);
    let decoded: serde_json::Value = serde_json::from_slice(&bytes).expect("valid JSON");

    assert_eq!(
        Some("cl\"ass with escapes\n"),
        decoded["error"]["class"].as_str()
    );
    assert_eq!(Some(4242), decoded["server"]["pid"].as_u64());
    assert_eq!(Some(1700000000), decoded["server"]["time"].as_u64());
    assert_eq!(Some("dummy-api-key"), decoded["api_key"].as_str());
    assert_eq!(Some("r-1"), decoded["request"]["context"]["request_id"].as_str());
    assert_eq!(Some("/usr/bin"), decoded["request"]["cgi_data"]["PATH"].as_str());
    assert_eq!(Some("honeybadger"), decoded["notifier"]["name"].as_str());
    assert!(decoded["error"]["causes"].is_null());
}

#[test]
fn nested_causes_serialize_as_a_list() {
    let config = ConfigBuilder::new("dummy-api-key", EnvData::empty()).build();
    let error = normalize(&SourceError::Chained {
        description: "outer".to_owned(),
        display_chain: "outer: inner".to_owned(),
        chain: vec!["outer".to_owned(), "inner".to_owned()],
        backtrace: None,
    });
    let bytes = serialize(&config, error, None, vec![], 1, 2);
    let decoded: serde_json::Value = serde_json::from_slice(&bytes).expect("valid JSON");

    let causes = decoded["error"]["causes"].as_array().expect("cause list");
    assert_eq!(2, causes.len());
    assert_eq!(Some("outer"), causes[0]["class"].as_str());
    assert_eq!(
        Some("inner"),
        causes[0]["causes"][0]["class"].as_str()
    );
    assert!(causes[0]["message"].is_null());
    assert_eq!(Some("inner"), causes[1]["class"].as_str());
    assert!(causes[1]["causes"].is_null());
}

#[test]
fn payload_carries_endpoint_headers_and_body() {
    let config = ConfigBuilder::new("dummy-api-key", EnvData::empty()).build();
    let agent = user_agent("0.1.3", "Linux", "6.1");
    assert_eq!("HB-rust 0.1.3; Linux/6.1", agent);

    let request = create_payload_with_config(
        &config,
        &agent,
        normalize(&boom()),
        None,
        vec![],
        7,
        9,
    );
    assert_eq!("POST", request.method);
    assert_eq!("https://api.honeybadger.io/v1/notices", request.uri);
    assert_eq!("application/json", request.accept);
    assert_eq!("dummy-api-key", request.api_key);
    assert_eq!("HB-rust 0.1.3; Linux/6.1", request.user_agent);
    let body: serde_json::Value = serde_json::from_slice(&request.body).expect("valid JSON");
    assert_eq!(Some("boom"), body["error"]["class"].as_str());
}

#[test]
fn notify_payload_is_idempotent() {
    let config = ConfigBuilder::new("dummy-api-key", EnvData::empty()).build();
    let cgi = vec![("A".to_owned(), "1".to_owned())];
    let first = serialize(&config, normalize(&boom()), None, cgi.clone(), 5, 6);
    let second = serialize(&config, normalize(&boom()), None, cgi, 5, 6);
    assert_eq!(first, second);
}
