use chatbot::ChatBot;
use chatbot::ChatError;
use chatbot::Config;
use chatbot::HttpOutcome;
use chatbot::Message;
use chatbot::Role;
use chatbot::build_request;

fn config_with_key(key: &str) -> Config {
    Config { api_key: Some(key.to_string()), base_url: None, model: None }
}

fn ok_body(content: &str) -> String {
    format!("{{\"choices\":[{{\"message\":{{\"content\":\"{}\"}}}}]}}", content)
}

#[test]
fn no_credential_fails() {
    let cfg = Config {
        api_key: None,
        base_url: Some("http://example.invalid".to_string()),
        model: Some("some-model".to_string()),
    };
    let r = ChatBot::new("You are helpful", cfg);
    assert!(matches!(r, Err(ChatError::ConfigurationError)));
}

#[test]
fn empty_credential_fails() {
    let r = ChatBot::new("", config_with_key(""));
    assert!(matches!(r, Err(ChatError::ConfigurationError)));
}

#[test]
fn system_prompt_seeds_history() {
    let bot = ChatBot::new("You are helpful", config_with_key("k")).unwrap();
    let h = bot.get_history();
    assert_eq!(h.len(), 1);
    assert_eq!(h[0].role, Role::System);
    assert_eq!(h[0].content, "You are helpful");
}

#[test]
fn empty_prompt_leaves_history_empty() {
    let bot = ChatBot::new("", config_with_key("k")).unwrap();
    assert_eq!(bot.get_history().len(), 0);
}

#[test]
fn successful_exchange_appends_three() {
    let mut bot = ChatBot::new("sys", config_with_key("k")).unwrap();
    let _body = bot.begin_chat("hello");
    let r = bot.finish_chat(HttpOutcome::Response { status: 200, body: ok_body("hi") });
    assert_eq!(r.unwrap(), "hi");
    let h = bot.get_history();
    assert_eq!(h.len(), 3);
    assert_eq!(h[0].role, Role::System);
    assert_eq!(h[1].role, Role::User);
    assert_eq!(h[1].content, "hello");
    assert_eq!(h[2].role, Role::Assistant);
    assert_eq!(h[2].content, "hi");
}

#[test]
fn failed_exchange_keeps_user_turn() {
    let mut bot = ChatBot::new("", config_with_key("k")).unwrap();
    let _body = bot.begin_chat("hello");
    let r = bot.finish_chat(HttpOutcome::Response { status: 500, body: "oops".to_string() });
    assert!(matches!(r, Err(ChatError::ApiError(500))));
    let h = bot.get_history();
    assert_eq!(h.len(), 1);
    assert_eq!(h[0].role, Role::User);
    assert_eq!(h[0].content, "hello");
}

#[test]
fn transport_failure_keeps_user_turn() {
    let mut bot = ChatBot::new("", config_with_key("k")).unwrap();
    let _body = bot.begin_chat("hello");
    let r = bot.finish_chat(HttpOutcome::TransportFailure);
    assert!(matches!(r, Err(ChatError::TransportError)));
    assert_eq!(bot.get_history().len(), 1);
}

#[test]
fn reset_restores_system_only() {
    let mut bot = ChatBot::new("sys", config_with_key("k")).unwrap();
    for i in 0..3 {
        let msg = format!("msg{}", i);
        let _body = bot.begin_chat(&msg);
        let r = bot.finish_chat(HttpOutcome::Response { status: 200, body: ok_body("reply") });
        assert!(r.is_ok());
    }
    assert_eq!(bot.get_history().len(), 7);
    bot.clear_history();
    let h = bot.get_history();
    assert_eq!(h.len(), 1);
    assert_eq!(h[0].role, Role::System);
    assert_eq!(h[0].content, "sys");
}

#[test]
fn reset_without_system_empties() {
    let mut bot = ChatBot::new("", config_with_key("k")).unwrap();
    let _body = bot.begin_chat("hello");
    let r = bot.finish_chat(HttpOutcome::Response { status: 200, body: ok_body("hi") });
    assert!(r.is_ok());
    bot.clear_history();
    assert_eq!(bot.get_history().len(), 0);
}

#[test]
fn empty_choices_is_empty_response_error() {
    let mut bot = ChatBot::new("sys", config_with_key("k")).unwrap();
    let _body = bot.begin_chat("hello");
    let r = bot.finish_chat(HttpOutcome::Response {
        status: 200,
        body: "{\"choices\":[]}".to_string(),
    });
    assert!(matches!(r, Err(ChatError::EmptyResponseError)));
    let h = bot.get_history();
    assert_eq!(h.len(), 2);
    assert_eq!(h[1].role, Role::User);
}

#[test]
fn malformed_body_is_decode_error() {
    let mut bot = ChatBot::new("", config_with_key("k")).unwrap();
    let _body = bot.begin_chat("hello");
    let r = bot.finish_chat(HttpOutcome::Response {
        status: 200,
        body: "{\"choices\":".to_string(),
    });
    assert!(matches!(r, Err(ChatError::DecodeError)));
    assert_eq!(bot.get_history().len(), 1);
}

#[test]
fn wrong_shape_is_decode_error() {
    let mut bot = ChatBot::new("", config_with_key("k")).unwrap();
    let _body = bot.begin_chat("hello");
    let r = bot.finish_chat(HttpOutcome::Response {
        status: 200,
        body: "{\"choices\":[{\"message\":{\"content\":7}}]}".to_string(),
    });
    assert!(matches!(r, Err(ChatError::DecodeError)));
}

#[test]
fn missing_message_is_decode_error() {
    let mut bot = ChatBot::new("", config_with_key("k")).unwrap();
    let _body = bot.begin_chat("hello");
    let r = bot.finish_chat(HttpOutcome::Response {
        status: 200,
        body: "{\"choices\":[{\"note\":null}]}".to_string(),
    });
    assert!(matches!(r, Err(ChatError::DecodeError)));
}

#[test]
fn echo_round_trip_grows_history() {
    let mut bot = ChatBot::new("sys", config_with_key("k")).unwrap();
    let n = 3;
    for i in 0..n {
        let msg = format!("msg{}", i);
        let _body = bot.begin_chat(&msg);
        let r = bot.finish_chat(HttpOutcome::Response { status: 200, body: ok_body(&msg) });
        assert_eq!(r.unwrap(), msg);
        assert_eq!(bot.get_history().len(), 2 * (i + 1) + 1);
    }
    let h = bot.get_history();
    assert_eq!(h.len(), 2 * n + 1);
    for i in 0..n {
        assert_eq!(h[2 * i + 1].role, Role::User);
        assert_eq!(h[2 * i + 2].role, Role::Assistant);
        assert_eq!(h[2 * i + 1].content, h[2 * i + 2].content);
    }
}

#[test]
fn echo_round_trip_without_system_prompt() {
    let mut bot = ChatBot::new("", config_with_key("k")).unwrap();
    let n = 2;
    for i in 0..n {
        let msg = format!("turn {}", i);
        let _body = bot.begin_chat(&msg);
        let r = bot.finish_chat(HttpOutcome::Response { status: 200, body: ok_body(&msg) });
        assert!(r.is_ok());
    }
    assert_eq!(bot.get_history().len(), 2 * n);
}

#[test]
fn request_body_is_exact() {
    let mut bot = ChatBot::new("You are helpful", config_with_key("k")).unwrap();
    let body = bot.begin_chat("hi");
    assert_eq!(
        body,
        "{\"model\":\"gpt-3.5-turbo\",\"messages\":[\
         {\"role\":\"system\",\"content\":\"You are helpful\"},\
         {\"role\":\"user\",\"content\":\"hi\"}],\
         \"temperature\":0.7,\"max_tokens\":2048}"
    );
}

#[test]
fn request_body_uses_configured_model() {
    let cfg = Config {
        api_key: Some("k".to_string()),
        base_url: None,
        model: Some("my-model".to_string()),
    };
    let mut bot = ChatBot::new("", cfg).unwrap();
    let body = bot.begin_chat("x");
    assert_eq!(
        body,
        "{\"model\":\"my-model\",\"messages\":[{\"role\":\"user\",\"content\":\"x\"}],\
         \"temperature\":0.7,\"max_tokens\":2048}"
    );
}

#[test]
fn request_body_escapes_content() {
    let mut bot = ChatBot::new("", config_with_key("k")).unwrap();
    let body = bot.begin_chat("say \"hi\"\\\n");
    assert_eq!(
        body,
        "{\"model\":\"gpt-3.5-turbo\",\"messages\":[\
         {\"role\":\"user\",\"content\":\"say \\\"hi\\\"\\\\\\n\"}],\
         \"temperature\":0.7,\"max_tokens\":2048}"
    );
}

#[test]
fn build_request_matches_begin_chat() {
    let messages = vec![
        Message { role: Role::System, content: "sys".to_string() },
        Message { role: Role::User, content: "q".to_string() },
    ];
    let direct = build_request(&"m".to_string(), &messages);
    let cfg = Config {
        api_key: Some("k".to_string()),
        base_url: None,
        model: Some("m".to_string()),
    };
    let mut bot = ChatBot::new("sys", cfg).unwrap();
    let via_session = bot.begin_chat("q");
    assert_eq!(direct, via_session);
    assert_eq!(
        direct,
        "{\"model\":\"m\",\"messages\":[{\"role\":\"system\",\"content\":\"sys\"},\
         {\"role\":\"user\",\"content\":\"q\"}],\"temperature\":0.7,\"max_tokens\":2048}"
    );
}

#[test]
fn endpoint_url_appends_path() {
    let bot = ChatBot::new("", config_with_key("k")).unwrap();
    assert_eq!(bot.endpoint_url(), "https://api.llmshare.network/v1/chat/completions");
    let cfg = Config {
        api_key: Some("k".to_string()),
        base_url: Some("http://localhost:9000".to_string()),
        model: None,
    };
    let bot2 = ChatBot::new("", cfg).unwrap();
    assert_eq!(bot2.endpoint_url(), "http://localhost:9000/chat/completions");
}

#[test]
fn bearer_token_prefixes_credential() {
    let bot = ChatBot::new("", config_with_key("secret-key")).unwrap();
    assert_eq!(bot.bearer_token(), "Bearer secret-key");
}

#[test]
fn success_range_boundaries() {
    let mut bot = ChatBot::new("", config_with_key("k")).unwrap();
    let _body = bot.begin_chat("a");
    assert!(bot.finish_chat(HttpOutcome::Response { status: 299, body: ok_body("r") }).is_ok());
    let _body = bot.begin_chat("b");
    let r = bot.finish_chat(HttpOutcome::Response { status: 199, body: ok_body("r") });
    assert_eq!(r, Err(ChatError::ApiError(199)));
}

#[test]
fn empty_user_message_is_sent_as_is() {
    let mut bot = ChatBot::new("", config_with_key("k")).unwrap();
    let body = bot.begin_chat("");
    assert_eq!(
        body,
        "{\"model\":\"gpt-3.5-turbo\",\"messages\":[{\"role\":\"user\",\"content\":\"\"}],\
         \"temperature\":0.7,\"max_tokens\":2048}"
    );
    let r = bot.finish_chat(HttpOutcome::Response { status: 200, body: ok_body("hm") });
    assert_eq!(r.unwrap(), "hm");
    assert_eq!(bot.get_history().len(), 2);
}

#[test]
fn non_success_statuses_carry_code() {
    for status in [101u16, 301, 404, 503] {
        let mut bot = ChatBot::new("", config_with_key("k")).unwrap();
        let _body = bot.begin_chat("hello");
        let r = bot.finish_chat(HttpOutcome::Response { status, body: ok_body("hi") });
        assert_eq!(r, Err(ChatError::ApiError(status)));
    }
}
