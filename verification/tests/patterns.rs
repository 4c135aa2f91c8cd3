use routerify_ng::pattern::{read_params, PathPattern};
use routerify_ng::CompileError;

fn compiled(path: &str) -> PathPattern {
    PathPattern::compile(path).unwrap()
}

#[test]
fn literal_pattern_gets_a_final_slash() {
    let pattern = compiled("/about");
    assert_eq!(pattern.source(), "(?s)^/about/$");
    assert_eq!(pattern.path(), "/about");
    assert!(pattern.names().is_empty());
}

#[test]
fn pattern_ending_in_slash_keeps_it() {
    assert_eq!(compiled("/about/").source(), "(?s)^/about/$");
    assert_eq!(compiled("/").source(), "(?s)^/$");
}

#[test]
fn empty_pattern_is_the_root() {
    assert_eq!(compiled("").source(), "(?s)^/$");
    assert!(compiled("").matches("/"));
}

#[test]
fn named_parameters_become_groups() {
    let pattern = compiled("/users/:userName/books/:bookName");
    assert_eq!(pattern.source(), "(?s)^/users/([^/]+)/books/([^/]+)/$");
    assert_eq!(pattern.names(), &vec!["userName".to_string(), "bookName".to_string()]);
}

#[test]
fn wildcard_captures_the_rest() {
    let pattern = compiled("/files/*");
    assert_eq!(pattern.source(), "(?s)^/files/(.*)$");
    assert_eq!(pattern.names(), &vec!["*".to_string()]);
    assert!(pattern.matches("/files/"));
    assert!(pattern.matches("/files/a/b/"));
    assert!(!pattern.matches("/file/"));
    let params = pattern.extract("/files/a/b/");
    assert_eq!(params.get("*"), Some(&"a/b/".to_string()));
}

#[test]
fn catch_all_matches_every_path() {
    let pattern = compiled("/*");
    assert_eq!(pattern.source(), "(?s)^/(.*)$");
    assert!(pattern.matches("/"));
    assert!(pattern.matches("/a/"));
    assert!(pattern.matches("/a/b/c/"));
    assert!(pattern.matches("/line\nbreak/"));
}

#[test]
fn meta_characters_of_literals_are_escaped() {
    let pattern = compiled("/v1.0/a+b/(x)");
    assert_eq!(pattern.source(), r"(?s)^/v1\.0/a\+b/\(x\)/$");
    assert!(pattern.matches("/v1.0/a+b/(x)/"));
    assert!(!pattern.matches("/v1x0/a+b/(x)/"));
    assert!(!pattern.matches("/v1.0/aab/(x)/"));
}

#[test]
fn a_star_inside_a_segment_is_a_literal() {
    let pattern = compiled("/a*b");
    assert_eq!(pattern.source(), r"(?s)^/a\*b/$");
    assert!(pattern.matches("/a*b/"));
    assert!(!pattern.matches("/aab/"));
    assert!(pattern.names().is_empty());
}

#[test]
fn match_is_of_the_whole_path() {
    let pattern = compiled("/users/:id");
    assert!(pattern.matches("/users/42/"));
    assert!(!pattern.matches("/users/42"));
    assert!(!pattern.matches("/users/42/books/"));
    assert!(!pattern.matches("/api/users/42/"));
    assert!(!pattern.matches("/users//"));
}

#[test]
fn extraction_returns_the_segments_in_declaration_order() {
    let pattern = compiled("/users/:userName/books/:bookName");
    let params = pattern.extract("/users/alice/books/HarryPotter/");
    assert_eq!(params.len(), 2);
    assert_eq!(params.name_at(0), Some(&"userName".to_string()));
    assert_eq!(params.value_at(0), Some(&"alice".to_string()));
    assert_eq!(params.name_at(1), Some(&"bookName".to_string()));
    assert_eq!(params.value_at(1), Some(&"HarryPotter".to_string()));
    assert_eq!(params.name_at(2), None);
    assert_eq!(params.value_at(2), None);
    assert_eq!(params.get("userName"), Some(&"alice".to_string()));
    assert_eq!(params.get("bookName"), Some(&"HarryPotter".to_string()));
    assert_eq!(params.get("other"), None);
}

#[test]
fn extraction_from_a_path_that_does_not_match_is_empty() {
    let pattern = compiled("/users/:id");
    let params = pattern.extract("/books/1/");
    assert!(params.is_empty());
    assert!(!params.has("id"));
}

#[test]
fn extraction_without_parameters_is_empty() {
    let pattern = compiled("/about");
    assert!(pattern.extract("/about/").is_empty());
}

#[test]
fn parameter_and_wildcard_together() {
    let pattern = compiled("/:kind/*");
    assert_eq!(pattern.source(), "(?s)^/([^/]+)/(.*)$");
    let params = pattern.extract("/img/2024/cat.png/");
    assert_eq!(params.get("kind"), Some(&"img".to_string()));
    assert_eq!(params.get("*"), Some(&"2024/cat.png/".to_string()));
}

#[test]
fn wildcard_before_the_end_is_refused() {
    assert_eq!(PathPattern::compile("/*/tail").err(), Some(CompileError::WildcardNotLast));
    assert_eq!(PathPattern::compile("/a/*/").err(), Some(CompileError::WildcardNotLast));
}

#[test]
fn parameter_without_a_name_is_refused() {
    assert_eq!(PathPattern::compile("/users/:").err(), Some(CompileError::EmptyParamName));
    assert_eq!(PathPattern::compile("/:/x").err(), Some(CompileError::EmptyParamName));
}

#[test]
fn repeated_name_is_refused() {
    assert_eq!(PathPattern::compile("/:id/x/:id").err(), Some(CompileError::DuplicateParam));
    assert_eq!(PathPattern::compile("/:*/*").err(), Some(CompileError::DuplicateParam));
}

#[test]
fn the_first_kind_of_fault_is_reported() {
    assert_eq!(PathPattern::compile("/*/:/:a/:a").err(), Some(CompileError::WildcardNotLast));
    assert_eq!(PathPattern::compile("/:/:a/:a").err(), Some(CompileError::EmptyParamName));
}

#[test]
fn an_expression_too_big_for_the_engine_is_refused() {
    let mut path = String::new();
    for i in 0..20000 {
        path.push_str("/:p");
        path.push_str(&i.to_string());
    }
    match PathPattern::compile(&path) {
        Err(CompileError::Rejected(message)) => assert!(message.contains("size limit")),
        other => panic!("unexpected result: {:?}", other.map(|p| p.path().len())),
    }
}

fn text(s: &str) -> Option<String> {
    Some(s.to_string())
}

#[test]
fn parameters_are_read_off_the_groups_by_position() {
    let names = vec!["first".to_string(), "second".to_string()];
    let groups = Some(vec![text("/a/b/"), text("a"), text("b")]);
    let params = read_params(&names, &groups);
    assert_eq!(params.len(), 2);
    assert_eq!(params.name_at(0), Some(&"first".to_string()));
    assert_eq!(params.value_at(0), Some(&"a".to_string()));
    assert_eq!(params.get("second"), Some(&"b".to_string()));
}

#[test]
fn a_name_without_a_filled_group_gets_nothing() {
    let names = vec!["first".to_string(), "second".to_string(), "third".to_string()];
    let groups = Some(vec![text("whole"), None, text("b")]);
    let params = read_params(&names, &groups);
    assert_eq!(params.len(), 1);
    assert_eq!(params.get("first"), None);
    assert_eq!(params.get("second"), Some(&"b".to_string()));
    assert_eq!(params.get("third"), None);
    assert!(read_params(&names, &None).is_empty());
    assert!(read_params(&names, &Some(Vec::new())).is_empty());
    assert!(read_params(&Vec::new(), &groups).is_empty());
}

#[test]
fn a_repeated_name_keeps_the_last_text() {
    let names = vec!["x".to_string(), "x".to_string()];
    let groups = Some(vec![text("whole"), text("1"), text("2")]);
    let params = read_params(&names, &groups);
    assert_eq!(params.len(), 1);
    assert_eq!(params.get("x"), Some(&"2".to_string()));
}
