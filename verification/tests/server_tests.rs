use ponchi::server::{
    check_body, check_post_headers, find_header, hex_token, json_error, not_found, path_of, route,
    token_eq, version_reply, HttpMethod, Published, Route, MAX_BODY,
};
use ponchi::server::{fallback_token_bytes, post_step, PostAction, PostEvent};

fn headers(pairs: &[(&str, &str)]) -> Vec<(String, String)> {
    pairs.iter().map(|(k, v)| (k.to_string(), v.to_string())).collect()
}

#[test]
fn strips_query_string() {
    assert_eq!(path_of("/api/scene.png?v=42"), "/api/scene.png");
    assert_eq!(path_of("/"), "/");
    assert_eq!(path_of("/api/version"), "/api/version");
}

#[test]
fn path_of_keeps_text_before_first_question_mark() {
    assert_eq!(path_of("/a?b?c"), "/a");
    assert_eq!(path_of("?x"), "");
}

#[test]
fn token_eq_matches_only_identical() {
    assert!(token_eq("abc123", "abc123"));
    assert!(!token_eq("abc123", "abc124"));
    assert!(!token_eq("abc", "abc123"));
}

#[test]
fn token_eq_empty_and_unicode() {
    assert!(token_eq("", ""));
    assert!(token_eq("日本", "日本"));
    assert!(!token_eq("日本", "日木"));
}

#[test]
fn hex_token_is_hex_and_sized() {
    let bytes: Vec<u8> = (0u8..16).map(|i| i.wrapping_mul(37).wrapping_add(5)).collect();
    let t = hex_token(&bytes);
    assert_eq!(t.len(), 32);
    assert!(t.bytes().all(|b| b.is_ascii_hexdigit()));
}

#[test]
fn hex_token_exact() {
    assert_eq!(hex_token(&[0x00, 0x0f, 0xa5, 0xff]), "000fa5ff");
    assert_eq!(hex_token(&[]), "");
}

#[test]
fn routes_known_paths() {
    assert_eq!(route(HttpMethod::Get, "/"), Route::Viewer);
    assert_eq!(route(HttpMethod::Get, "/api/version"), Route::Version);
    assert_eq!(route(HttpMethod::Get, "/api/scene.png?v=3"), Route::ScenePng);
    assert_eq!(route(HttpMethod::Get, "/api/scene.svg"), Route::SceneSvg);
    assert_eq!(route(HttpMethod::Post, "/api/scene"), Route::PostScene);
    assert_eq!(route(HttpMethod::Get, "/api/scene"), Route::NotFound);
    assert_eq!(route(HttpMethod::Post, "/"), Route::NotFound);
    assert_eq!(route(HttpMethod::Other, "/"), Route::NotFound);
}

#[test]
fn json_error_body_quotes_message() {
    let r = json_error(400, "bad \"x\"");
    assert_eq!(r.status, 400);
    assert_eq!(r.body, "{\"error\":\"bad \\\"x\\\"\"}");
    let nf = not_found();
    assert_eq!(nf.status, 404);
    assert_eq!(nf.body, "{\"error\":\"not found\"}");
}

#[test]
fn find_header_ignores_case_and_takes_first() {
    let h = headers(&[("content-type", "a"), ("Content-Type", "b")]);
    assert_eq!(find_header(&h, "CONTENT-TYPE"), Some("a"));
    assert_eq!(find_header(&h, "Authorization"), None);
}

#[test]
fn post_headers_accept_good_request() {
    let h = headers(&[
        ("Authorization", "Bearer  tok123 "),
        ("content-type", " Application/JSON ; charset=utf-8"),
    ]);
    assert!(check_post_headers(&h, Some(10), "tok123").is_ok());
    assert!(check_post_headers(&h, None, "tok123").is_ok());
}

#[test]
fn post_headers_refuse_missing_or_wrong_token() {
    let h = headers(&[("Content-Type", "application/json")]);
    let r = check_post_headers(&h, None, "tok").unwrap_err();
    assert_eq!(r.status, 401);
    assert_eq!(r.body, "{\"error\":\"missing or invalid bearer token\"}");
    let h2 = headers(&[("Authorization", "Bearer nope"), ("Content-Type", "application/json")]);
    assert_eq!(check_post_headers(&h2, None, "tok").unwrap_err().status, 401);
    let h3 = headers(&[("Authorization", "Basic tok"), ("Content-Type", "application/json")]);
    assert_eq!(check_post_headers(&h3, None, "tok").unwrap_err().status, 401);
    // An empty token is refused even when the server token is empty.
    let h4 = headers(&[("Authorization", "Bearer "), ("Content-Type", "application/json")]);
    assert_eq!(check_post_headers(&h4, None, "").unwrap_err().status, 401);
}

#[test]
fn post_headers_refuse_other_content_type() {
    let h = headers(&[("Authorization", "Bearer tok"), ("Content-Type", "text/plain")]);
    let r = check_post_headers(&h, None, "tok").unwrap_err();
    assert_eq!(r.status, 415);
    assert_eq!(r.body, "{\"error\":\"Content-Type must be application/json\"}");
}

#[test]
fn post_headers_refuse_declared_large_body() {
    let h = headers(&[("Authorization", "Bearer tok"), ("Content-Type", "application/json")]);
    let r = check_post_headers(&h, Some(MAX_BODY + 1), "tok").unwrap_err();
    assert_eq!(r.status, 413);
    assert_eq!(r.body, "{\"error\":\"body too large\"}");
    assert!(check_post_headers(&h, Some(MAX_BODY), "tok").is_ok());
}

#[test]
fn body_checks() {
    assert_eq!(check_body(b"{}".to_vec()).unwrap(), "{}");
    let bad = check_body(vec![0xff, 0xfe]).unwrap_err();
    assert_eq!(bad.status, 400);
    assert_eq!(bad.body, "{\"error\":\"body is not valid UTF-8\"}");
    let big = check_body(vec![b'a'; MAX_BODY + 1]).unwrap_err();
    assert_eq!(big.status, 413);
    assert!(check_body(vec![b'a'; MAX_BODY]).is_ok());
}

#[test]
fn version_reply_body() {
    let r = version_reply(42);
    assert_eq!(r.status, 200);
    assert_eq!(r.body, "{\"version\":42}");
    assert_eq!(version_reply(0).body, "{\"version\":0}");
}

#[test]
fn publish_bumps_version_by_one() {
    let mut p = Published::initial("svg1".to_string(), vec![1u8]);
    assert_eq!(p.version, 1);
    let v = p.publish("svg2".to_string(), vec![2u8]);
    assert_eq!(v, 2);
    assert_eq!(p.version, 2);
    assert_eq!(p.svg, "svg2");
    assert_eq!(p.png, vec![2u8]);
    assert_eq!(p.publish("svg3".to_string(), vec![]), 3);
}

#[test]
fn json_error_escapes_control_characters() {
    let msg = "a\u{1}\n\t\"\\é\u{1f}";
    let r = json_error(400, msg);
    assert_eq!(r.body, "{\"error\":\"a\\u0001\\n\\t\\\"\\\\é\\u001f\"}");
    assert_eq!(r.body, format!("{{\"error\":{}}}", serde_json::to_string(msg).unwrap()));
}

#[test]
fn bearer_token_trims_unicode_white_space() {
    let h = headers(&[
        ("Authorization", "Bearer \u{3000}tok\u{2028}\u{85}"),
        ("Content-Type", "application/json\u{a0}"),
    ]);
    assert!(check_post_headers(&h, None, "tok").is_ok());
    // U+200B is not white space, so it stays part of the token.
    let h2 = headers(&[("Authorization", "Bearer tok\u{200b}"), ("Content-Type", "application/json")]);
    assert_eq!(check_post_headers(&h2, None, "tok").unwrap_err().status, 401);
}

#[test]
fn white_space_matches_std() {
    // Every character `str::trim` removes around a token is exactly what
    // `char::is_whitespace` accepts.
    for u in 0u32..0x3100 {
        if let Some(c) = char::from_u32(u) {
            let value = format!("Bearer {c}tok{c}");
            let h = headers(&[("Authorization", value.as_str()), ("Content-Type", "application/json")]);
            let accepted = check_post_headers(&h, None, "tok").is_ok();
            assert_eq!(accepted, c.is_whitespace(), "U+{u:04X}");
        }
    }
}

fn reply_of(a: PostAction) -> (u16, String) {
    match a {
        PostAction::Reply(r) => (r.status, r.body),
        _ => panic!("expected a reply"),
    }
}

#[test]
fn post_step_walks_the_upload() {
    assert!(matches!(post_step(PostEvent::Headers(Ok(()))), PostAction::ReadBody));
    let refused = json_error(401, "unauthorized");
    assert_eq!(reply_of(post_step(PostEvent::Headers(Err(refused)))), (401, "{\"error\":\"unauthorized\"}".to_string()));
    assert_eq!(reply_of(post_step(PostEvent::Body(None))), (400, "{\"error\":\"failed to read body\"}".to_string()));
    match post_step(PostEvent::Body(Some(b"{\"a\":1}".to_vec()))) {
        PostAction::Resolve(t) => assert_eq!(t, "{\"a\":1}"),
        _ => panic!("expected the text to be resolved"),
    }
    assert_eq!(reply_of(post_step(PostEvent::Body(Some(vec![b'x'; MAX_BODY + 1])))).0, 413);
    assert_eq!(reply_of(post_step(PostEvent::Body(Some(vec![0xc3])))).0, 400);
    assert_eq!(
        reply_of(post_step(PostEvent::Resolved(Err("duplicate node id \"a\"".to_string())))),
        (400, "{\"error\":\"invalid scene: duplicate node id \\\"a\\\"\"}".to_string())
    );
    assert!(matches!(post_step(PostEvent::Resolved(Ok(()))), PostAction::Render));
    assert_eq!(
        reply_of(post_step(PostEvent::Rendered(Err("boom".to_string())))),
        (500, "{\"error\":\"render failed: boom\"}".to_string())
    );
    assert!(matches!(post_step(PostEvent::Rendered(Ok(()))), PostAction::Publish));
    assert_eq!(reply_of(post_step(PostEvent::Published(7))), (200, "{\"version\":7}".to_string()));
}

fn reference_fallback(t: u128, pid: u128) -> Vec<u8> {
    let mut x = t ^ (pid << 64) ^ 0x9e37_79b9_7f4a_7c15_9e37_79b9_7f4a_7c15;
    let mut buf = [0u8; 16];
    for b in buf.iter_mut() {
        x ^= x << 13;
        x ^= x >> 7;
        x ^= x << 17;
        *b = (x & 0xff) as u8;
    }
    buf.to_vec()
}

#[test]
fn fallback_token_mixes_time_and_pid() {
    for (t, pid) in [(0u128, 0u32), (1_700_000_000_123_456_789, 4242), (u128::MAX, u32::MAX)] {
        assert_eq!(fallback_token_bytes(t, pid), reference_fallback(t, pid as u128));
    }
    assert_eq!(fallback_token_bytes(5, 1).len(), 16);
    assert_ne!(fallback_token_bytes(5, 1), fallback_token_bytes(5, 2));
    assert_eq!(hex_token(&fallback_token_bytes(9, 9)).len(), 32);
}
