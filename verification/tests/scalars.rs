use sv::error::ModelError;
use sv::open_api::{extract_api_data, read_document};
use sv::scalars::is_finite;

const HEAD: &str = "openapi: 3.0.0\ninfo:\n  title: Test\n  version: 1.0.0\npaths:\n  /test:\n";

const GET: &str = "    get:\n      responses:\n        '200':\n          description: OK\n      x-amazon-apigateway-integration:\n        uri: arn:aws:apigateway:us-east-1:lambda:path/2015-03-31/functions/x/invocations\n";

fn refused() -> ModelError {
  ModelError::Syntax("the text may hold a number that is not finite".to_string())
}

#[test]
fn a_word_for_a_number_that_is_not_finite_is_found() {
  for word in [".inf", ".Inf", ".INF", ".nan", ".NaN", ".NAN"] {
    assert!(!is_finite(word));
    assert!(!is_finite(&format!("a: {}\n", word)));
    assert!(!is_finite(&format!("a: -{}", word)));
    assert!(!is_finite(&format!("a: +{}\n", word)));
    assert!(!is_finite(&format!("a: [1, {}]\n", word)));
    assert!(!is_finite(&format!("a: \"{}\"\n", word)));
    assert!(!is_finite(&format!("a: !!float '{}'\n", word)));
  }
}

#[test]
fn a_longer_word_is_no_such_number() {
  assert!(is_finite(""));
  assert!(is_finite("a: 1.5\nb: inf\nc: nan\nd: .Nan\ne: .iNF\n"));
  assert!(is_finite("contact: someone@example.info\n"));
  assert!(is_finite("url: https://example.info/setup.inf\n"));
  assert!(is_finite("a: x.nano\nb: .nans\nc: 1.inf\nd: a.nan\n"));
  assert!(is_finite("a: .in\nb: .na\nc: .i\n"));
}

#[test]
fn a_double_quote_behind_a_tag_is_not_read() {
  assert!(!is_finite("a: !!float \"\\x2einf\"\n"));
  assert!(!is_finite("a: !<tag:yaml.org,2002:float> \"\\x2enan\"\n"));
  assert!(!is_finite("a: !e!oat \t\n  \"\\x2einf\"\n"));
  assert!(!is_finite("a: !!float # what follows\n  # is a number\n  \"\\x2einf\"\n"));
  assert!(!is_finite("a: !!float &b \"\\x2einf\"\n"));
  assert!(!is_finite("a: &b !!float \"\\x2einf\"\n"));
  assert!(!is_finite("[!!float \"\\x2einf\"]"));
  assert!(!is_finite("!!float \"\\x2einf\""));
}

#[test]
fn a_mark_of_exclamation_is_no_tag_by_itself() {
  assert!(is_finite("a: \"Hello!\"\nb: \"x\"\n"));
  assert!(is_finite("a: Hello! \"x\"\n"));
  assert!(is_finite("description: see ![the logo](logo.png) and \"that\"\n"));
  assert!(is_finite("a: !!str b\nc: \"d\\n\"\n"));
  assert!(is_finite("a: !!binary |\n  R0lG\nb: \"c\"\n"));
  assert!(is_finite("pattern: \"^\\\\d+$\"\nnote: a != b\n"));
}

#[test]
fn a_number_that_is_not_finite_under_a_path_is_never_read() {
  for word in [".nan", ".inf", "-.INF", "!!float \"\\x2enan\""] {
    let text = format!("{}    summary: {}\n{}", HEAD, word, GET);
    assert_eq!(read_document(&text), Err("the text may hold a number that is not finite".to_string()));
    assert_eq!(extract_api_data(text), Err(refused()));
  }
}

#[test]
fn a_key_that_stands_twice_under_a_path_is_an_error() {
  let text = format!("{}    summary: one\n    summary: two\n{}", HEAD, GET);
  match extract_api_data(text) {
    Err(ModelError::Syntax(message)) => assert!(message.contains("duplicate"), "{}", message),
    other => panic!("{:?}", other),
  }
  let text = format!("{}{}{}", HEAD, GET, GET.replace("x/invocations", "y/invocations"));
  match extract_api_data(text) {
    Err(ModelError::Syntax(message)) => assert!(message.contains("duplicate"), "{}", message),
    other => panic!("{:?}", other),
  }
}

#[test]
fn what_fails_under_a_path_is_an_error() {
  for line in ["    summary: [1, 2]\n", "    summary: 1.5\n", "    parameters: 3\n", "    get: 1\n"] {
    let text = format!("{}{}", HEAD, line);
    match extract_api_data(text) {
      Err(ModelError::Syntax(_)) => {}
      other => panic!("{:?}", other),
    }
  }
  assert!(extract_api_data(format!("{}    summary: sum\n{}", HEAD, GET)).is_ok());
}
