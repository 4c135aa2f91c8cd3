use routerify_ng::path::normalize_path;
use routerify_ng::DispatchError;

#[test]
fn a_slash_is_added_where_none_ends_the_path() {
    assert_eq!(normalize_path("/users/42"), Ok("/users/42/".to_string()));
    assert_eq!(normalize_path(""), Ok("/".to_string()));
}

#[test]
fn a_final_slash_is_kept() {
    assert_eq!(normalize_path("/users/42/"), Ok("/users/42/".to_string()));
    assert_eq!(normalize_path("/"), Ok("/".to_string()));
}

#[test]
fn several_final_slashes_become_one() {
    assert_eq!(normalize_path("/a//"), Ok("/a/".to_string()));
    assert_eq!(normalize_path("///"), Ok("/".to_string()));
    assert_eq!(normalize_path("/a//b///"), Ok("/a//b/".to_string()));
}

#[test]
fn percent_sequences_are_decoded() {
    assert_eq!(normalize_path("/a%20b"), Ok("/a b/".to_string()));
    assert_eq!(normalize_path("/caf%C3%A9"), Ok("/caf\u{e9}/".to_string()));
    assert_eq!(normalize_path("/%41%6a%4A"), Ok("/AjJ/".to_string()));
    assert_eq!(normalize_path("/100%25"), Ok("/100%/".to_string()));
}

#[test]
fn a_decoded_slash_counts_as_a_slash() {
    assert_eq!(normalize_path("/a%2F"), Ok("/a/".to_string()));
    assert_eq!(normalize_path("/a%2Fb"), Ok("/a/b/".to_string()));
}

#[test]
fn text_that_is_not_ascii_passes_through() {
    assert_eq!(normalize_path("/caf\u{e9}"), Ok("/caf\u{e9}/".to_string()));
}

#[test]
fn a_percent_without_two_digits_is_malformed() {
    assert_eq!(normalize_path("/a%"), Err(DispatchError::MalformedPercentEncoding));
    assert_eq!(normalize_path("/a%2"), Err(DispatchError::MalformedPercentEncoding));
    assert_eq!(normalize_path("/a%zz"), Err(DispatchError::MalformedPercentEncoding));
    assert_eq!(normalize_path("/a%2g/b"), Err(DispatchError::MalformedPercentEncoding));
}

#[test]
fn decoded_bytes_that_are_not_utf8_are_refused() {
    assert_eq!(normalize_path("/%ff"), Err(DispatchError::InvalidUtf8));
    assert_eq!(normalize_path("/%C3"), Err(DispatchError::InvalidUtf8));
}
