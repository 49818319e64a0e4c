use okiru::{AppInfo, OllamaClient, OllamaError};

fn client() -> OllamaClient {
    OllamaClient::new("http://localhost:11434".to_string(), "gemma3:4b".to_string())
}

#[test]
fn scores_beyond_the_range_are_clamped() {
    let c = client();
    let e = c
        .parse_alignment_response(
            "{\"alignment_score\": 1.5, \"reasoning\": \"x\", \"confidence\": -0.3}",
        )
        .unwrap();
    assert_eq!(e.alignment_score_milli, 1000);
    assert_eq!(e.confidence_milli, 0);
    assert_eq!(e.reasoning, "x");
}

#[test]
fn json_wrapped_in_prose_still_parses() {
    let c = client();
    let e = c
        .parse_alignment_response(
            "Sure, here you go: {\"alignment_score\":0.8,\"reasoning\":\"ok\",\"confidence\":0.9} Hope that helps!",
        )
        .unwrap();
    assert_eq!(e.alignment_score_milli, 800);
    assert_eq!(e.confidence_milli, 900);
    assert_eq!(e.reasoning, "ok");
    assert!(e.suggestion.is_none());
}

#[test]
fn incomplete_generation_is_an_invalid_response() {
    let c = client();
    let r = c.evaluate_generation_response(
        "{\"alignment_score\":0.8,\"reasoning\":\"ok\",\"confidence\":0.9}",
        false,
    );
    match r {
        Err(OllamaError::InvalidResponse(m)) => assert_eq!(m, "Response not complete"),
        other => panic!("expected InvalidResponse, got {:?}", other),
    }
}

#[test]
fn complete_generation_is_parsed() {
    let c = client();
    let e = c
        .evaluate_generation_response(
            "{\"alignment_score\":0.25,\"reasoning\":\"r\",\"suggestion\":\"take a break\",\"confidence\":1}",
            true,
        )
        .unwrap();
    assert_eq!(e.alignment_score_milli, 250);
    assert_eq!(e.confidence_milli, 1000);
    assert_eq!(e.suggestion.as_deref(), Some("take a break"));
}

#[test]
fn missing_fields_fall_back_to_their_defaults() {
    let c = client();
    let e = c.parse_alignment_response("{}").unwrap();
    assert_eq!(e.alignment_score_milli, 0);
    assert_eq!(e.reasoning, "No reasoning provided");
    assert!(e.suggestion.is_none());
    assert_eq!(e.confidence_milli, 500);
}

#[test]
fn wrong_field_types_fall_back_to_their_defaults() {
    let c = client();
    let e = c
        .parse_alignment_response(
            "{\"alignment_score\": \"high\", \"reasoning\": 7, \"suggestion\": null, \"confidence\": true}",
        )
        .unwrap();
    assert_eq!(e.alignment_score_milli, 0);
    assert_eq!(e.reasoning, "No reasoning provided");
    assert!(e.suggestion.is_none());
    assert_eq!(e.confidence_milli, 500);
}

#[test]
fn text_without_json_is_an_invalid_response() {
    let c = client();
    let r = c.parse_alignment_response("no structured data here");
    match r {
        Err(OllamaError::InvalidResponse(m)) => {
            assert_eq!(m, "Invalid JSON: the response holds no JSON object");
        }
        other => panic!("expected InvalidResponse, got {:?}", other),
    }
}

#[test]
fn parse_failures_carry_their_reason() {
    let c = client();
    match c.parse_alignment_response("{\"alignment_score\": }") {
        Err(OllamaError::InvalidResponse(m)) => {
            assert_eq!(m, "Invalid JSON: malformed object in the response");
        }
        other => panic!("expected InvalidResponse, got {:?}", other),
    }
    match c.parse_alignment_response("{\"alignment_score\": 1} }") {
        Err(OllamaError::InvalidResponse(m)) => {
            assert_eq!(m, "Invalid JSON: text follows the object in the response");
        }
        other => panic!("expected InvalidResponse, got {:?}", other),
    }
}

#[test]
fn closing_brace_before_opening_brace_is_an_invalid_response() {
    let c = client();
    assert!(c.parse_alignment_response("} nothing {").is_err());
}

#[test]
fn nested_values_are_tolerated_and_ignored() {
    // Extra structure in the reply is validated and skipped; the fields the
    // evaluation reads keep their values or their defaults.
    let c = client();
    let e = c
        .parse_alignment_response("{\"alignment_score\":0.8,\"meta\":{\"k\":1}}")
        .unwrap();
    assert_eq!(e.alignment_score_milli, 800);

    let e = c
        .parse_alignment_response(
            "{\"alignment_score\":0.7,\"tags\":[\"a\", 1, null, [true], {\"b\":[]}]}",
        )
        .unwrap();
    assert_eq!(e.alignment_score_milli, 700);

    // A read field holding nested structure is a wrong-type field: default.
    let e = c
        .parse_alignment_response("{\"reasoning\": {\"text\": \"x\"}, \"confidence\": [0.5]}")
        .unwrap();
    assert_eq!(e.reasoning, "No reasoning provided");
    assert_eq!(e.confidence_milli, 500);
}

#[test]
fn malformed_nested_values_still_fail_the_parse() {
    let c = client();
    for text in [
        "{\"a\": {\"b\": 01}}",
        "{\"a\": [1,]}",
        "{\"a\": {\"b\" 1}}",
        "{\"a\": [1, 2}",
    ] {
        assert!(c.parse_alignment_response(text).is_err(), "for {}", text);
    }
}

#[test]
fn nesting_is_bounded() {
    let c = client();
    let shallow = format!("{{\"a\": {}1{}}}", "[".repeat(50), "]".repeat(50));
    assert!(c.parse_alignment_response(&shallow).is_ok());
    let deep = format!("{{\"a\": {}1{}}}", "[".repeat(200), "]".repeat(200));
    assert!(c.parse_alignment_response(&deep).is_err());
}

#[test]
fn string_escapes_are_decoded() {
    let c = client();
    let e = c
        .parse_alignment_response(
            "{\"reasoning\": \"line\\nbreak, quote \\\" and \\u0041\\u00e9\"}",
        )
        .unwrap();
    assert_eq!(e.reasoning, "line\nbreak, quote \" and A\u{e9}");
}

#[test]
fn escaped_surrogate_pairs_become_one_character() {
    let c = client();
    let e = c
        .parse_alignment_response("{\"reasoning\": \"nice \\uD83D\\uDE00!\"}")
        .unwrap();
    assert_eq!(e.reasoning, "nice \u{1F600}!");
}

#[test]
fn lone_surrogate_halves_are_rejected() {
    let c = client();
    for text in [
        "{\"reasoning\": \"bad \\uD83D end\"}",
        "{\"reasoning\": \"bad \\uDE00 end\"}",
        "{\"reasoning\": \"bad \\uD83D\\u0041 end\"}",
    ] {
        assert!(c.parse_alignment_response(text).is_err(), "for {}", text);
    }
}

#[test]
fn number_shapes_truncate_to_thousandths() {
    let c = client();
    let cases = [
        ("{\"alignment_score\": 0.85}", 850),
        ("{\"alignment_score\": 1}", 1000),
        ("{\"alignment_score\": 2}", 1000),
        ("{\"alignment_score\": 1e-1}", 100),
        ("{\"alignment_score\": 8.5e-1}", 850),
        ("{\"alignment_score\": 0.0005}", 0),
        ("{\"alignment_score\": 0.9999}", 999),
        ("{\"alignment_score\": 123e300}", 1000),
        ("{\"alignment_score\": 0e300}", 0),
        ("{\"alignment_score\": -0.0}", 0),
    ];
    for (text, milli) in cases {
        let e = c.parse_alignment_response(text).unwrap();
        assert_eq!(e.alignment_score_milli, milli, "for {}", text);
    }
}

#[test]
fn malformed_numbers_fail_the_parse() {
    let c = client();
    for text in [
        "{\"alignment_score\": 01}",
        "{\"alignment_score\": .5}",
        "{\"alignment_score\": 1.}",
        "{\"alignment_score\": 1e}",
    ] {
        assert!(c.parse_alignment_response(text).is_err(), "for {}", text);
    }
}

#[test]
fn duplicate_keys_keep_the_last_value() {
    let c = client();
    let e = c
        .parse_alignment_response("{\"alignment_score\": 0.2, \"alignment_score\": 0.7}")
        .unwrap();
    assert_eq!(e.alignment_score_milli, 700);
}

#[test]
fn user_prompt_interpolates_intention_and_snapshot() {
    let c = client();
    let app = AppInfo {
        app_name: "Visual Studio Code".to_string(),
        window_title: "main.rs - okiru".to_string(),
        bundle_id: "com.microsoft.VSCode".to_string(),
        process_id: 12345,
    };
    let prompt = c.build_user_prompt("I want to learn Rust programming for 2 hours today", &app);
    let expected = format!(
        "User's Intention: \"{}\"\n\nCurrent Activity:\n- Application: {}\n- Window Title: {}\n- Bundle ID: {}\n\nPlease evaluate how well this current activity aligns with the user's intention.",
        "I want to learn Rust programming for 2 hours today",
        app.app_name,
        app.window_title,
        app.bundle_id
    );
    assert_eq!(prompt, expected);
}

#[test]
fn system_prompt_asks_for_the_expected_json_shape() {
    let c = client();
    let prompt = c.build_system_prompt();
    assert_eq!(prompt, okiru::ollama::SYSTEM_PROMPT);
    assert!(prompt.contains("\"alignment_score\": 0.8"));
    assert!(prompt.contains("\"confidence\": 0.9"));
}

#[test]
fn client_remembers_its_connection_parameters() {
    let c = client();
    assert_eq!(c.base_url().as_str(), "http://localhost:11434");
    assert_eq!(c.model().as_str(), "gemma3:4b");
}

#[test]
fn error_descriptions_name_the_failure() {
    let e = OllamaError::NetworkError("connection refused".to_string());
    assert_eq!(e.describe(), "Network error: connection refused");
    let e = OllamaError::JsonParseError("truncated".to_string());
    assert_eq!(e.describe(), "Json Parse error: truncated");
    let e = OllamaError::ModelError("model missing".to_string());
    assert_eq!(e.describe(), "Model error: model missing");
    let e = OllamaError::InvalidResponse("bad shape".to_string());
    assert_eq!(e.describe(), "Invalid Response: bad shape");
}
