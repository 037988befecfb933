use connsaturator::{
    create_builder, AuthMethods, Authorization, Config, ConnSaturator, CustomHeaders, HttpMethods,
    OAuth2Config, Phase, SetupError, Step,
};

fn config() -> Config {
    Config {
        url: "http://localhost:1/".to_string(),
        requests: 100,
        concurrency: 10,
        token: None,
        method: HttpMethods::Get,
        body: None,
        timeout: 30,
        header: None,
        user_agent: None,
        content_type: "application/json".to_string(),
        insecure: false,
        warmup: None,
        output: false,
    }
}

fn headers(config: &Config) -> Vec<(String, String)> {
    create_builder(config).headers.into_iter().map(|h| (h.name, h.value)).collect()
}

fn pair(name: &str, value: &str) -> (String, String) {
    (name.to_string(), value.to_string())
}

#[test]
fn plain_get_has_no_headers() {
    let descriptor = create_builder(&config());
    assert_eq!(descriptor.method, HttpMethods::Get);
    assert_eq!(descriptor.url, "http://localhost:1/");
    assert_eq!(descriptor.timeout, 30);
    assert!(descriptor.authorization.is_none());
    assert!(descriptor.body.is_none());
    assert!(descriptor.headers.is_empty());
}

#[test]
fn post_states_its_content_type() {
    let mut c = config();
    c.method = HttpMethods::Post;
    c.body = Some("{}".to_string());
    c.content_type = "text/plain".to_string();
    assert_eq!(headers(&c), vec![pair("content-type", "text/plain")]);
    assert_eq!(create_builder(&c).body, Some("{}".to_string()));
}

#[test]
fn invalid_content_type_falls_back_to_json() {
    let mut c = config();
    c.method = HttpMethods::Put;
    c.content_type = "text/\nplain".to_string();
    assert_eq!(headers(&c), vec![pair("content-type", "application/json")]);
    c.method = HttpMethods::Delete;
    c.content_type = "text/\u{7f}".to_string();
    assert_eq!(headers(&c), vec![pair("content-type", "application/json")]);
}

#[test]
fn headers_keep_their_order() {
    let mut c = config();
    c.method = HttpMethods::Post;
    c.token = Some(AuthMethods::APIKey { key: "k1".to_string() });
    c.header = Some(CustomHeaders::parse_header("X-Trace:on").unwrap());
    c.user_agent = Some("probe/1".to_string());
    assert_eq!(
        headers(&c),
        vec![
            pair("x-api-key", "k1"),
            pair("x-trace", "on"),
            pair("user-agent", "probe/1"),
            pair("content-type", "application/json"),
        ]
    );
    assert!(create_builder(&c).authorization.is_none());
}

#[test]
fn credentials_follow_the_method() {
    let mut c = config();
    c.token = Some(AuthMethods::Bearer("tok".to_string()));
    match create_builder(&c).authorization {
        Some(Authorization::Bearer(t)) => assert_eq!(t, "tok"),
        other => panic!("unexpected {:?}", other),
    }
    c.token = Some(AuthMethods::OAuth2 {
        config: OAuth2Config {
            client_id: "id".to_string(),
            access_token: "access".to_string(),
            refresh_token: "refresh".to_string(),
            scope: "scope".to_string(),
            token_type: "type".to_string(),
        },
    });
    match create_builder(&c).authorization {
        Some(Authorization::Bearer(t)) => assert_eq!(t, "access"),
        other => panic!("unexpected {:?}", other),
    }
    c.token = Some(AuthMethods::Basic { username: "u".to_string(), password: "p".to_string() });
    match create_builder(&c).authorization {
        Some(Authorization::Basic { username, password }) => {
            assert_eq!(username, "u");
            assert_eq!(password, "p");
        }
        other => panic!("unexpected {:?}", other),
    }
    assert!(headers(&c).is_empty());
}

#[test]
fn warm_up_defaults_to_a_twentieth() {
    let mut c = config();
    assert_eq!(c.warmup_requests(), 5);
    c.requests = 19;
    assert_eq!(c.warmup_requests(), 0);
    c.requests = 20;
    assert_eq!(c.warmup_requests(), 1);
    c.warmup = Some(3);
    assert_eq!(c.warmup_requests(), 3);
    c.warmup = Some(0);
    assert_eq!(c.warmup_requests(), 0);
}

#[test]
fn saturator_refuses_zero_concurrency() {
    let mut c = config();
    c.concurrency = 0;
    match ConnSaturator::new(c) {
        Err(SetupError::ZeroConcurrency) => {}
        _ => panic!("a concurrency of zero was accepted"),
    }
}

#[test]
fn saturator_starts_with_the_warm_up() {
    let mut c = config();
    c.requests = 40;
    c.concurrency = 1;
    c.method = HttpMethods::Post;
    let saturator = match ConnSaturator::new(c) {
        Ok(s) => s,
        Err(e) => panic!("{}", e.message()),
    };
    assert_eq!(saturator.config().requests, 40);
    assert_eq!(saturator.request().headers.len(), 1);
    let _ = saturator.client();
    let mut controller = saturator.controller();
    assert_eq!(controller.warmup(), 2);
    assert_eq!(controller.requests(), 40);
    assert_eq!(controller.limit(), 1);
    assert_eq!(controller.next_step(), Step::Launch(Phase::WarmUp));
    assert_eq!(controller.next_step(), Step::Await);
}

#[test]
fn client_follows_the_certificate_policy() {
    for insecure in [false, true] {
        let mut c = config();
        c.insecure = insecure;
        let saturator = match ConnSaturator::new(c) {
            Ok(s) => s,
            Err(e) => panic!("{}", e.message()),
        };
        assert_eq!(saturator.accepts_invalid_certs(), insecure);
        assert_eq!(saturator.config().insecure, insecure);
    }
}

#[test]
fn failed_client_build_is_reported_with_its_text() {
    match ConnSaturator::with_client(config(), Err("no TLS backend".to_string())) {
        Err(SetupError::Client(text)) => assert_eq!(text, "no TLS backend"),
        _ => panic!("a client that was not built was accepted"),
    }
    let mut c = config();
    c.concurrency = 0;
    match ConnSaturator::with_client(c, Err("no TLS backend".to_string())) {
        Err(SetupError::ZeroConcurrency) => {}
        _ => panic!("a concurrency of zero was accepted"),
    }
}
