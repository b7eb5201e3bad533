use msod_stat::auth::{extract_authorization_code, handle_request, judge_request, AuthError, Target};

fn pairs(list: &[(&str, &str)]) -> Vec<(String, String)> {
    list.iter().map(|(k, v)| (k.to_string(), v.to_string())).collect()
}

#[test]
fn the_code_is_taken_from_a_redirect() {
    let p = pairs(&[("code", "Mac..dc6"), ("state", "DL7jz5YIW4WusaYdDZrXzA==")]);
    assert_eq!(
        extract_authorization_code(&p, "DL7jz5YIW4WusaYdDZrXzA=="),
        Ok("Mac..dc6".to_string())
    );
    let swapped = pairs(&[("state", "tok"), ("code", "c")]);
    assert_eq!(extract_authorization_code(&swapped, "tok"), Ok("c".to_string()));
}

#[test]
fn each_parameter_may_come_once() {
    let p = pairs(&[("code", "a"), ("state", "tok"), ("code", "b")]);
    assert_eq!(extract_authorization_code(&p, "tok"), Err(AuthError::DuplicateCode));
    let p = pairs(&[("state", "tok"), ("state", "tok")]);
    assert_eq!(extract_authorization_code(&p, "tok"), Err(AuthError::DuplicateState));
}

#[test]
fn other_parameters_are_refused() {
    let p = pairs(&[("code", "a"), ("error", "access_denied"), ("code", "b")]);
    assert_eq!(
        extract_authorization_code(&p, "tok"),
        Err(AuthError::UnexpectedParameter("error".to_string(), "access_denied".to_string()))
    );
    let p = pairs(&[("Code", "a")]);
    assert_eq!(
        extract_authorization_code(&p, "tok"),
        Err(AuthError::UnexpectedParameter("Code".to_string(), "a".to_string()))
    );
}

#[test]
fn the_first_fault_decides() {
    let p = pairs(&[("code", "a"), ("code", "b"), ("other", "x")]);
    assert_eq!(extract_authorization_code(&p, "tok"), Err(AuthError::DuplicateCode));
    let p = pairs(&[("other", "x"), ("code", "a"), ("code", "b")]);
    assert_eq!(
        extract_authorization_code(&p, "tok"),
        Err(AuthError::UnexpectedParameter("other".to_string(), "x".to_string()))
    );
}

#[test]
fn the_state_is_checked_before_the_code() {
    assert_eq!(extract_authorization_code(&pairs(&[]), "tok"), Err(AuthError::NoState));
    assert_eq!(extract_authorization_code(&pairs(&[("code", "a")]), "tok"), Err(AuthError::NoState));
    assert_eq!(
        extract_authorization_code(&pairs(&[("state", "other")]), "tok"),
        Err(AuthError::StateMismatch)
    );
    assert_eq!(
        extract_authorization_code(&pairs(&[("state", "tok")]), "tok"),
        Err(AuthError::NoCode)
    );
    assert_eq!(
        extract_authorization_code(&pairs(&[("state", "Tok"), ("code", "a")]), "tok"),
        Err(AuthError::StateMismatch)
    );
}

#[test]
fn only_a_get_of_the_redirect_path_is_judged_by_its_parameters() {
    assert_eq!(handle_request("GET", "/redirect?code=a&state=tok", "tok"), Ok("a".to_string()));
    assert_eq!(
        handle_request("POST", "/redirect?code=a&state=tok", "tok"),
        Err(AuthError::UnsupportedMethod("POST".to_string()))
    );
    assert_eq!(
        handle_request("get", "/redirect?code=a&state=tok", "tok"),
        Err(AuthError::UnsupportedMethod("get".to_string()))
    );
    assert_eq!(
        handle_request("GET", "/favicon.ico?x=1", "tok"),
        Err(AuthError::UnrecognizedPath("/favicon.ico?x=1".to_string()))
    );
    assert_eq!(handle_request("GET", "/redirect?state=no", "tok"), Err(AuthError::StateMismatch));
    assert_eq!(handle_request("GET", "/redirect", "tok"), Err(AuthError::NoState));
    assert_eq!(handle_request("GET", "/redirect/?state=tok&code=a", "tok"),
        Err(AuthError::UnrecognizedPath("/redirect/?state=tok&code=a".to_string())));
}

#[test]
fn the_escapes_of_a_target_are_taken_out() {
    assert_eq!(
        handle_request(
            "GET",
            "/redirect?code=Mac..dc6&state=DL7jz5YIW4WusaYdDZrXzA%3d%3d",
            "DL7jz5YIW4WusaYdDZrXzA=="
        ),
        Ok("Mac..dc6".to_string())
    );
    assert_eq!(
        handle_request("GET", "/redirect?code=a+b%2Fc&state=t%20k", "t k"),
        Ok("a b/c".to_string())
    );
    assert_eq!(
        handle_request("GET", "/x/../redirect?state=tok&code=c#frag", "tok"),
        Ok("c".to_string())
    );
}

#[test]
fn a_target_that_is_no_address_is_refused_in_the_words_of_the_reader() {
    match handle_request("GET", "http://[::1", "tok") {
        Err(AuthError::BadTarget(words)) => {
            assert!(!words.is_empty());
            assert_eq!(AuthError::BadTarget(words.clone()).message(), words);
        }
        other => panic!("{:?}", other),
    }
    assert_eq!(
        handle_request("PUT", "http://[::1", "tok"),
        Err(AuthError::UnsupportedMethod("PUT".to_string()))
    );
}

#[test]
fn a_request_is_judged_by_what_its_target_holds() {
    let parts = Target { path: "/redirect".to_string(), pairs: pairs(&[("code", "a"), ("state", "tok")]) };
    assert_eq!(judge_request("GET", "/redirect?x", Ok(parts.clone()), "tok"), Ok("a".to_string()));
    assert_eq!(
        judge_request("HEAD", "/redirect?x", Ok(parts.clone()), "tok"),
        Err(AuthError::UnsupportedMethod("HEAD".to_string()))
    );
    let elsewhere = Target { path: "/other".to_string(), pairs: parts.pairs.clone() };
    assert_eq!(
        judge_request("GET", "/other?x", Ok(elsewhere), "tok"),
        Err(AuthError::UnrecognizedPath("/other?x".to_string()))
    );
    assert_eq!(
        judge_request("GET", "?", Err("empty host".to_string()), "tok"),
        Err(AuthError::BadTarget("empty host".to_string()))
    );
}

#[test]
fn the_errors_in_words() {
    assert_eq!(AuthError::UnsupportedMethod("PUT".to_string()).message(), "Unsupported method: PUT");
    assert_eq!(AuthError::UnrecognizedPath("/x".to_string()).message(), "Unrecognized path: /x");
    assert_eq!(AuthError::DuplicateCode.message(), "Duplicate code");
    assert_eq!(AuthError::DuplicateState.message(), "Duplicate state");
    assert_eq!(
        AuthError::UnexpectedParameter("k".to_string(), "v".to_string()).message(),
        "Unexpected parameter: k v"
    );
    assert_eq!(AuthError::NoState.message(), "No CSRF token received");
    assert_eq!(AuthError::StateMismatch.message(), "CSRF token mismatch");
    assert_eq!(AuthError::NoCode.message(), "No authorization code received");
}
