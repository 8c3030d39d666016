use kv_explorer::error::KvError;
use kv_explorer::json::{Json, JsonMember, JsonNumber};
use kv_explorer::models::cloudflare::{
    CloudflareError, CloudflareKey, CloudflareKeysResponse, CloudflareListResponse,
    CloudflareNamespace, CloudflareResultInfo,
};
use kv_explorer::models::kv::{
    default_namespace_type, KVEntry, KVNamespace, NamespaceKind, RemoteConnection,
};
use kv_explorer::remote::counts::{
    find_count, needs_probes, read_analytics_response, read_probe_response, record_probe,
    with_counts, NamespaceCount,
};
use kv_explorer::remote::envelope::{read_key_envelope, read_namespace_envelope};
use kv_explorer::remote::request::list_keys_request;
use kv_explorer::remote::survey::{Answer, NamespaceSurvey, SurveyStep};
use kv_explorer::remote::response::{
    answered, check_status, check_token, join_errors, read_keys_response,
    read_namespaces_response, read_value_response, status_is_success, value_from, HttpResponse,
};

fn response(status: u16, body: &str) -> HttpResponse {
    HttpResponse { status, body: body.to_string() }
}

fn remote_namespace(id: &str, name: &str) -> KVNamespace {
    KVNamespace {
        id: id.to_string(),
        entries: vec![],
        name: name.to_string(),
        kind: NamespaceKind::Remote,
        account_id: Some("acct1".to_string()),
        folder_id: None,
        count: None,
    }
}

fn remote_entry(namespace: &str, index: usize, key: &str) -> KVEntry {
    KVEntry {
        id: format!("{}-{}", namespace, index),
        key: key.to_string(),
        blob_id: format!("remote-{}", index),
        expiration: None,
        metadata: None,
        value: None,
    }
}

#[test]
fn success_is_any_2xx() {
    assert!(status_is_success(200));
    assert!(status_is_success(204));
    assert!(status_is_success(299));
    assert!(!status_is_success(199));
    assert!(!status_is_success(300));
    assert!(!status_is_success(404));
}

#[test]
fn token_probe_fails_with_the_status() {
    assert_eq!(check_token(200), Ok(()));
    assert_eq!(check_token(401), Err(KvError::AuthFailed(401)));
    assert_eq!(check_token(500), Err(KvError::AuthFailed(500)));
}

#[test]
fn write_fails_with_the_status() {
    assert_eq!(check_status(201), Ok(()));
    assert_eq!(check_status(429), Err(KvError::RequestFailed(429)));
}

#[test]
fn missing_answer_is_a_transport_error() {
    assert_eq!(answered(Ok(response(200, "x"))), Ok(response(200, "x")));
    assert_eq!(
        answered(Err("connection refused".to_string())),
        Err(KvError::Transport("connection refused".to_string()))
    );
}

#[test]
fn namespaces_map_one_to_one() {
    let body = "{\"success\":true,\"errors\":[],\"messages\":[],\"result\":[{\"id\":\"n1\",\"title\":\"First\",\"supports_url_encoding\":true},{\"id\":\"n2\",\"title\":\"Second\"}],\"result_info\":{\"count\":2,\"page\":1}}";
    assert_eq!(
        read_namespaces_response("acct1", &response(200, body)),
        Ok(vec![remote_namespace("n1", "First"), remote_namespace("n2", "Second")])
    );
}

#[test]
fn namespaces_of_an_empty_listing() {
    let body = "{\"success\":true,\"errors\":[],\"messages\":[],\"result\":[]}";
    assert_eq!(read_namespaces_response("acct1", &response(200, body)), Ok(vec![]));
}

#[test]
fn namespaces_fail_on_status() {
    assert_eq!(
        read_namespaces_response("acct1", &response(403, "{\"success\":true}")),
        Err(KvError::RequestFailed(403))
    );
}

#[test]
fn namespaces_fail_on_a_body_that_is_no_envelope() {
    for body in [
        "not json",
        "[]",
        "{\"success\":true}",
        "{\"success\":true,\"errors\":[],\"messages\":[],\"result\":null}",
        "{\"success\":\"yes\",\"errors\":[],\"messages\":[],\"result\":[]}",
        "{\"success\":true,\"errors\":[],\"messages\":[1],\"result\":[]}",
        "{\"success\":true,\"errors\":[],\"messages\":[],\"result\":[{\"id\":\"n1\"}]}",
        "{\"success\":true,\"errors\":[{\"code\":\"x\",\"message\":\"m\"}],\"messages\":[],\"result\":[]}",
        "{\"success\":true,\"errors\":[{\"code\":2147483648,\"message\":\"m\"}],\"messages\":[],\"result\":[]}",
        "{\"success\":true,\"errors\":[],\"messages\":[],\"result\":[],\"result_info\":{\"cursor\":\"c\"}}",
        "{\"success\":true,\"errors\":[],\"messages\":[],\"result\":[],\"result_info\":{\"count\":-1}}",
        "{\"success\":true,\"errors\":[],\"messages\":[],\"result\":[],\"result_info\":{\"count\":1,\"cursor\":5}}",
    ] {
        assert_eq!(
            read_namespaces_response("acct1", &response(200, body)),
            Err(KvError::MalformedResponse),
            "{}",
            body
        );
    }
}

#[test]
fn error_envelope_joins_code_and_message() {
    let body = "{\"success\":false,\"errors\":[{\"code\":10000,\"message\":\"Authentication error\"},{\"code\":-7,\"message\":\"second\"}],\"messages\":[],\"result\":[]}";
    assert_eq!(
        read_namespaces_response("acct1", &response(200, body)),
        Err(KvError::ApiError("10000: Authentication error, -7: second".to_string()))
    );
    assert_eq!(
        read_keys_response("ns", &response(200, body)),
        Err(KvError::ApiError("10000: Authentication error, -7: second".to_string()))
    );
}

#[test]
fn errors_are_joined() {
    assert_eq!(join_errors(&vec![]), "");
    assert_eq!(
        join_errors(&vec![CloudflareError { code: 1, message: "one".to_string() }]),
        "1: one"
    );
    assert_eq!(
        join_errors(&vec![
            CloudflareError { code: 1, message: "one".to_string() },
            CloudflareError { code: i32::MIN, message: "".to_string() },
            CloudflareError { code: i32::MAX, message: "three".to_string() },
        ]),
        "1: one, -2147483648: , 2147483647: three"
    );
}

#[test]
fn envelope_is_read_in_full() {
    let body = Json::from_text(
        "{\"success\":true,\"errors\":[{\"code\":5,\"message\":\"e\"}],\"messages\":[\"m1\",\"m2\"],\"result\":[{\"id\":\"a\",\"title\":\"A\"}],\"result_info\":{\"count\":1,\"cursor\":null}}",
    )
    .unwrap();
    assert_eq!(
        read_namespace_envelope(&body),
        Some(CloudflareListResponse {
            success: true,
            errors: vec![CloudflareError { code: 5, message: "e".to_string() }],
            messages: vec!["m1".to_string(), "m2".to_string()],
            result: vec![CloudflareNamespace { id: "a".to_string(), title: "A".to_string() }],
            result_info: Some(CloudflareResultInfo { count: 1, cursor: None }),
        })
    );
}

#[test]
fn key_envelope_reads_optional_members() {
    let body = Json::from_text(
        "{\"success\":true,\"errors\":[],\"messages\":[],\"result\":[{\"name\":\"k1\"},{\"name\":\"k2\",\"expiration\":1700000000,\"metadata\":{\"b\":1,\"a\":[true]}},{\"name\":\"k3\",\"expiration\":null,\"metadata\":null}],\"result_info\":{\"count\":3,\"cursor\":\"next\"}}",
    )
    .unwrap();
    let envelope = read_key_envelope(&body).unwrap();
    assert_eq!(
        envelope.result,
        vec![
            CloudflareKey { name: "k1".to_string(), expiration: None, metadata: None },
            CloudflareKey {
                name: "k2".to_string(),
                expiration: Some(1700000000),
                metadata: Some(Json::Object(vec![
                    JsonMember {
                        name: "a".to_string(),
                        value: Json::Array(vec![Json::Bool(true)]),
                    },
                    JsonMember { name: "b".to_string(), value: Json::Number(JsonNumber::PosInt(1)) },
                ])),
            },
            CloudflareKey { name: "k3".to_string(), expiration: None, metadata: None },
        ]
    );
    assert_eq!(
        envelope.result_info,
        Some(CloudflareResultInfo { count: 3, cursor: Some("next".to_string()) })
    );
}

#[test]
fn key_with_a_wrong_expiration_is_refused() {
    let body = Json::from_text(
        "{\"success\":true,\"errors\":[],\"messages\":[],\"result\":[{\"name\":\"k1\",\"expiration\":\"soon\"}]}",
    )
    .unwrap();
    assert_eq!(read_key_envelope(&body), None);
}

#[test]
fn keys_page_has_placeholders_and_no_values() {
    let body = "{\"success\":true,\"errors\":[],\"messages\":[],\"result\":[{\"name\":\"k1\"},{\"name\":\"k2\",\"expiration\":1700000000,\"metadata\":{\"b\":1,\"a\":\"x\"}}],\"result_info\":{\"count\":2,\"cursor\":\"abc\"}}";
    let page = read_keys_response("ns9", &response(200, body)).unwrap();
    assert_eq!(
        page,
        CloudflareKeysResponse {
            entries: vec![
                remote_entry("ns9", 0, "k1"),
                KVEntry {
                    id: "ns9-1".to_string(),
                    key: "k2".to_string(),
                    blob_id: "remote-1".to_string(),
                    expiration: Some(1700000000),
                    metadata: Some("{\"a\":\"x\",\"b\":1}".to_string()),
                    value: None,
                },
            ],
            cursor: Some("abc".to_string()),
            total: 2,
        }
    );
}

#[test]
fn keys_page_without_paging_part_counts_its_entries() {
    let body = "{\"success\":true,\"errors\":[],\"messages\":[],\"result\":[{\"name\":\"a\"},{\"name\":\"b\"},{\"name\":\"c\"}]}";
    let page = read_keys_response("ns9", &response(200, body)).unwrap();
    assert_eq!(page.total, 3);
    assert_eq!(page.cursor, None);
    assert_eq!(page.entries.len(), 3);
}

#[test]
fn keys_fail_on_status_and_on_malformed_body() {
    assert_eq!(read_keys_response("ns9", &response(500, "{}")), Err(KvError::RequestFailed(500)));
    assert_eq!(read_keys_response("ns9", &response(200, "{}")), Err(KvError::MalformedResponse));
    assert_eq!(read_keys_response("ns9", &response(200, "<html>")), Err(KvError::MalformedResponse));
}

#[test]
fn pagination_enumerates_every_key_once() {
    let connection = RemoteConnection { account_id: "acct1".to_string(), api_token: "t".to_string() };
    let first_body = "{\"success\":true,\"errors\":[],\"messages\":[],\"result\":[{\"name\":\"k1\"},{\"name\":\"k2\"}],\"result_info\":{\"count\":2,\"cursor\":\"abc\"}}";
    let second_body = "{\"success\":true,\"errors\":[],\"messages\":[],\"result\":[{\"name\":\"k3\"}],\"result_info\":{\"count\":1}}";

    let mut seen: Vec<String> = Vec::new();
    let mut cursor: Option<String> = None;
    let mut requests: Vec<String> = Vec::new();
    let mut calls = 0;
    loop {
        let request = list_keys_request(&connection, "ns9", cursor.as_deref());
        requests.push(request.url.clone());
        let body = if request.url.ends_with("&cursor=abc") { second_body } else { first_body };
        let page = read_keys_response("ns9", &response(200, body)).unwrap();
        for entry in &page.entries {
            seen.push(entry.key.clone());
        }
        calls += 1;
        cursor = page.cursor;
        if cursor.is_none() {
            break;
        }
    }
    assert_eq!(calls, 2);
    assert_eq!(cursor, None);
    assert_eq!(seen, vec!["k1".to_string(), "k2".to_string(), "k3".to_string()]);
    assert_eq!(
        requests,
        vec![
            "https://api.cloudflare.com/client/v4/accounts/acct1/storage/kv/namespaces/ns9/keys?limit=1000"
                .to_string(),
            "https://api.cloudflare.com/client/v4/accounts/acct1/storage/kv/namespaces/ns9/keys?limit=1000&cursor=abc"
                .to_string(),
        ]
    );
}

#[test]
fn value_that_is_not_json_is_a_string() {
    assert_eq!(
        read_value_response(&response(200, "hello")),
        Ok(Json::Text("hello".to_string()))
    );
}

#[test]
fn value_that_is_json_is_read() {
    assert_eq!(
        read_value_response(&response(200, "{\"x\":1}")),
        Ok(Json::Object(vec![JsonMember {
            name: "x".to_string(),
            value: Json::Number(JsonNumber::PosInt(1)),
        }]))
    );
    assert_eq!(
        read_value_response(&response(200, "\"hello\"")),
        Ok(Json::Text("hello".to_string()))
    );
}

#[test]
fn value_fails_on_status() {
    assert_eq!(read_value_response(&response(404, "hello")), Err(KvError::RequestFailed(404)));
}

#[test]
fn value_from_parsed_result() {
    assert_eq!(value_from(200, Some(Json::Null), "null"), Ok(Json::Null));
    assert_eq!(value_from(200, None, "raw"), Ok(Json::Text("raw".to_string())));
    assert_eq!(value_from(301, Some(Json::Null), "null"), Err(KvError::RequestFailed(301)));
}

#[test]
fn usage_figures_give_counts() {
    let body = "{\"result\":{\"data\":[{\"dimensions\":[\"n1\"],\"metrics\":[[12]]},{\"dimensions\":[],\"metrics\":[[1]]},{\"dimensions\":[\"n2\"],\"metrics\":[[\"x\"]]},{\"dimensions\":[\"n3\"],\"metrics\":[[0, 5]]},{\"dimensions\":[\"n1\"],\"metrics\":[[13]]}]}}";
    let counts = read_analytics_response(&response(200, body));
    assert_eq!(
        counts,
        vec![
            NamespaceCount { namespace_id: "n1".to_string(), stored_keys: 12 },
            NamespaceCount { namespace_id: "n3".to_string(), stored_keys: 0 },
            NamespaceCount { namespace_id: "n1".to_string(), stored_keys: 13 },
        ]
    );
    assert_eq!(find_count(&counts, "n1"), Some(13));
    assert_eq!(find_count(&counts, "n3"), Some(0));
    assert_eq!(find_count(&counts, "n2"), None);
    assert!(!needs_probes(&counts));
}

#[test]
fn usage_figures_that_give_nothing() {
    assert_eq!(read_analytics_response(&response(500, "{}")), vec![]);
    assert_eq!(read_analytics_response(&response(200, "nope")), vec![]);
    assert_eq!(read_analytics_response(&response(200, "{\"result\":{}}")), vec![]);
    assert_eq!(read_analytics_response(&response(200, "{\"result\":{\"data\":5}}")), vec![]);
    assert!(needs_probes(&vec![]));
}

#[test]
fn probe_gives_the_total_count() {
    assert_eq!(
        read_probe_response(&response(200, "{\"result\":[],\"result_info\":{\"total_count\":41}}")),
        Some(41)
    );
    assert_eq!(read_probe_response(&response(200, "{\"result\":[]}")), Some(0));
    assert_eq!(
        read_probe_response(&response(200, "{\"result_info\":{\"total_count\":\"x\"}}")),
        Some(0)
    );
    assert_eq!(read_probe_response(&response(200, "oops")), None);
    assert_eq!(read_probe_response(&response(404, "{\"result_info\":{\"total_count\":41}}")), None);
}

#[test]
fn counts_are_shown_with_their_namespaces() {
    let mut counts = Vec::new();
    record_probe(&mut counts, "n1", Some(4));
    record_probe(&mut counts, "n2", None);
    record_probe(&mut counts, "n3", Some(0));
    assert_eq!(
        counts,
        vec![
            NamespaceCount { namespace_id: "n1".to_string(), stored_keys: 4 },
            NamespaceCount { namespace_id: "n3".to_string(), stored_keys: 0 },
        ]
    );
    let shown = with_counts(
        vec![remote_namespace("n1", "A"), remote_namespace("n2", "B"), remote_namespace("n3", "C")],
        &counts,
    );
    let mut first = remote_namespace("n1", "A");
    first.count = Some(4);
    let mut third = remote_namespace("n3", "C");
    third.count = Some(0);
    assert_eq!(shown, vec![first, remote_namespace("n2", "B"), third]);
}

#[test]
fn namespace_kind_has_its_word() {
    assert_eq!(default_namespace_type(), "local");
    assert_eq!(NamespaceKind::Local.label(), "local");
    assert_eq!(NamespaceKind::Remote.label(), "remote");
}

fn run_survey(answers: Vec<Answer>) -> (Vec<String>, Result<Vec<KVNamespace>, KvError>) {
    let connection = RemoteConnection { account_id: "acct1".to_string(), api_token: "t".to_string() };
    let mut survey = NamespaceSurvey::new(connection);
    let mut urls = Vec::new();
    let mut answers = answers.into_iter();
    loop {
        match survey.next() {
            SurveyStep::Done(outcome) => return (urls, outcome),
            SurveyStep::Send(request, waiting) => {
                urls.push(request.url.replace(
                    "https://api.cloudflare.com/client/v4/accounts/acct1/storage/",
                    "",
                ));
                survey = waiting.record(answers.next().unwrap());
            }
        }
    }
}

const TWO_NAMESPACES: &str = "{\"success\":true,\"errors\":[],\"messages\":[],\"result\":[{\"id\":\"n1\",\"title\":\"First\"},{\"id\":\"n2\",\"title\":\"Second\"}]}";

#[test]
fn survey_takes_counts_from_the_usage_figures() {
    let figures = "{\"result\":{\"data\":[{\"dimensions\":[\"n2\"],\"metrics\":[[7]]}]}}";
    let (urls, outcome) = run_survey(vec![
        Answer::Received(response(200, TWO_NAMESPACES)),
        Answer::Received(response(200, figures)),
    ]);
    assert_eq!(
        urls,
        vec![
            "kv/namespaces".to_string(),
            "analytics/stored?dimensions=namespaceId&metrics=storedKeys".to_string(),
        ]
    );
    let mut second = remote_namespace("n2", "Second");
    second.count = Some(7);
    assert_eq!(outcome, Ok(vec![remote_namespace("n1", "First"), second]));
}

#[test]
fn survey_probes_each_namespace_when_the_figures_give_nothing() {
    let (urls, outcome) = run_survey(vec![
        Answer::Received(response(200, TWO_NAMESPACES)),
        Answer::Missing("timed out".to_string()),
        Answer::Received(response(200, "{\"result_info\":{\"total_count\":3}}")),
        Answer::Received(response(500, "")),
    ]);
    assert_eq!(
        urls,
        vec![
            "kv/namespaces".to_string(),
            "analytics/stored?dimensions=namespaceId&metrics=storedKeys".to_string(),
            "kv/namespaces/n1/keys?limit=1".to_string(),
            "kv/namespaces/n2/keys?limit=1".to_string(),
        ]
    );
    let mut first = remote_namespace("n1", "First");
    first.count = Some(3);
    assert_eq!(outcome, Ok(vec![first, remote_namespace("n2", "Second")]));
}

#[test]
fn survey_fails_only_where_the_listing_fails() {
    let (urls, outcome) = run_survey(vec![Answer::Missing("refused".to_string())]);
    assert_eq!(urls.len(), 1);
    assert_eq!(outcome, Err(KvError::Transport("refused".to_string())));
    let (_, outcome) = run_survey(vec![Answer::Received(response(401, "{}"))]);
    assert_eq!(outcome, Err(KvError::RequestFailed(401)));
    let (_, outcome) = run_survey(vec![Answer::Received(response(200, "{}"))]);
    assert_eq!(outcome, Err(KvError::MalformedResponse));
}

#[test]
fn survey_of_an_account_without_namespaces_probes_nothing() {
    let empty = "{\"success\":true,\"errors\":[],\"messages\":[],\"result\":[]}";
    let (urls, outcome) = run_survey(vec![
        Answer::Received(response(200, empty)),
        Answer::Received(response(404, "")),
    ]);
    assert_eq!(urls.len(), 2);
    assert_eq!(outcome, Ok(vec![]));
}
