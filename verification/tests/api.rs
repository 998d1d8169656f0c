use paddock::ft::api::{
    chat, chat_body, collect_sse_text, decoded_reply, generate, read_reply, reply_error,
    requests_path, CacheRebuild, Client,
};

#[test]
fn sse_text_takes_the_final_cumulative_frame() {
    let body = "data: {\"text\": \"He\"}\n\ndata: {\"text\": \"Hello\"}\n\ndata: [DONE]\n\n";
    assert_eq!(collect_sse_text(body), "Hello");
}

#[test]
fn rebuild_omits_untouched_pools() {
    let req = CacheRebuild { moe_cache_size: Some(256), ..Default::default() };
    let named = req.fields();
    assert!(named.contains(&("moe_cache_size", 256)));
    assert!(!named.iter().any(|(name, _)| *name == "num_pages"));
}

#[test]
fn a_base_url_loses_its_trailing_slashes() {
    let c = Client::new("http://127.0.0.1:1919//");
    assert_eq!(c.base_url(), "http://127.0.0.1:1919");
    assert_eq!(c.url("/health"), "http://127.0.0.1:1919/health");
}

#[test]
fn a_request_page_asks_for_at_least_one_entry() {
    assert_eq!(requests_path(7, 200), "/v1/requests?since=7&limit=200");
    assert_eq!(requests_path(0, 0), "/v1/requests?since=0&limit=1");
}

#[test]
fn a_refused_reply_says_what_came_back() {
    let body = b"model not loaded".to_vec();
    assert_eq!(
        reply_error("/v1/stats", "503 Service Unavailable", false, &body),
        Some("/v1/stats returned 503 Service Unavailable: model not loaded".to_string())
    );
    assert_eq!(reply_error("/v1/stats", "200 OK", true, &body), None);
}

#[test]
fn a_reply_is_read_as_json_or_named_undecodable() {
    let ok = read_reply("/health", "200 OK", true, &b"{\"status\": \"ok\"}".to_vec()).unwrap();
    assert_eq!(ok.get("status").unwrap().as_str(), Some("ok"));
    let err = read_reply("/health", "200 OK", true, &b"<html>".to_vec()).unwrap_err();
    assert_eq!(err, "decoding /health: <html>: expected value at line 1 column 1");
}

#[test]
fn bytes_that_are_no_text_are_shown_replaced() {
    let err = read_reply("/health", "200 OK", true, &vec![b'a', 0xff, b'b']).unwrap_err();
    assert_eq!(err, "decoding /health: a\u{fffd}b: expected value at line 1 column 1");
    let named = decoded_reply("/health", &b"x".to_vec(), Err("why".to_string())).unwrap_err();
    assert_eq!(named, "decoding /health: x: why");
}

#[test]
fn a_chat_answer_is_trimmed_and_an_empty_one_is_explained() {
    let body = br#"{"choices": [{"message": {"content": "  two fixes \n"}}]}"#.to_vec();
    assert_eq!(chat("200 OK", true, &body, 64).unwrap(), "two fixes");
    let thinking =
        br#"{"choices": [{"message": {"content": "", "reasoning_content": "a b c"}}]}"#.to_vec();
    assert_eq!(
        chat("200 OK", true, &thinking, 64).unwrap_err(),
        "the model spent all 64 tokens reasoning (3 of them) without writing an answer"
    );
    let silent = br#"{"choices": []}"#.to_vec();
    assert_eq!(chat("200 OK", true, &silent, 64).unwrap_err(), "the model returned an empty answer");
}

#[test]
fn a_chat_asks_with_a_system_and_a_user_message() {
    let b = chat_body("m", "be brief", "what changed?", 64, None);
    assert_eq!(b.messages[0], ("system".to_string(), "be brief".to_string()));
    assert_eq!(b.messages[1], ("user".to_string(), "what changed?".to_string()));
    assert_eq!(b.temperature_tenths, 2);
    assert!(!b.stream);
}

#[test]
fn a_refused_generation_is_cut_short() {
    assert_eq!(
        generate("500 Internal Server Error", false, "boom").unwrap_err(),
        "/generate returned 500 Internal Server Error: boom"
    );
    assert_eq!(generate("200 OK", true, "data: {\"text\": \"hi\"}\n").unwrap(), "hi");
}
