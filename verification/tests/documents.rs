use sv::diagnostics::{Diagnostic, Diagnostics, Issue, Severity};
use sv::documents::{
  check_documents, check_tags, validate_file, validate_open_api, CheckedFile, DocumentCheck, Tag,
};
use sv::error::ModelError;
use sv::files::{find_shared, validating_path, PathError};
use sv::open_api::APIType;
use sv::util::HttpMethod;

const DOCUMENT: &str = r#"
openapi: 3.0.0
info:
  title: Test
  version: 1.0.0
paths:
  /orders:
    put:
      responses:
        '200':
          description: OK
      x-amazon-apigateway-integration:
        uri: arn:aws:apigateway:us-east-1:sqs:action/SendMessage
"#;

fn tag(name: &str, description: Option<&str>) -> Tag {
  Tag {
    name: name.to_string(),
    description: description.map(str::to_string),
  }
}

fn checked(name: &str, check: DocumentCheck) -> CheckedFile {
  CheckedFile {
    name: name.to_string(),
    check,
  }
}

fn issues(found: &Diagnostics) -> Vec<Issue> {
  found.entries().iter().map(|d| d.issue).collect()
}

fn invalid<T: std::fmt::Debug>(r: Result<T, ModelError>) -> Diagnostics {
  match r {
    Err(ModelError::Invalid(found)) => found,
    other => panic!("{:?}", other),
  }
}

#[test]
fn a_path_must_be_a_folder() {
  assert_eq!(validating_path("api", true, true), Ok(()));
  assert_eq!(
    validating_path("api", false, false),
    Err(PathError::DoesNotExist("api".to_string()))
  );
  assert_eq!(
    validating_path("api", false, true),
    Err(PathError::DoesNotExist("api".to_string()))
  );
  assert_eq!(
    validating_path("api.yaml", true, false),
    Err(PathError::NotAFolder("api.yaml".to_string()))
  );
}

#[test]
fn the_shared_file_is_found_by_its_name() {
  let stems = |names: &[&str]| names.iter().map(|n| n.to_string()).collect::<Vec<_>>();
  assert_eq!(find_shared(&stems(&["orders", "shared", "shared-schemas"])), Some(1));
  assert_eq!(find_shared(&stems(&["shared-schemas"])), Some(0));
  assert_eq!(find_shared(&stems(&["orders", "Shared", "shared2"])), None);
  assert_eq!(find_shared(&[]), None);
}

#[test]
fn a_valid_file_adds_its_tags() {
  let mut tags = vec![tag("a", None)];
  let found = validate_file(
    &DocumentCheck::Valid(vec![tag("b", Some("second")), tag("c", None)]),
    "orders.yaml",
    &mut tags,
    false,
  );
  assert!(found.is_empty());
  assert_eq!(
    tags,
    vec![tag("a", None), tag("b", Some("second")), tag("c", None)]
  );
}

#[test]
fn a_file_that_fails_is_held_against_the_run() {
  let mut tags = vec![];
  let found = validate_file(
    &DocumentCheck::Invalid("no paths".to_string()),
    "orders.yaml",
    &mut tags,
    true,
  );
  assert_eq!(
    found.entries(),
    &vec![Diagnostic {
      severity: Severity::Error,
      issue: Issue::InvalidDocument,
      message: "API document orders.yaml is not valid: no paths".to_string(),
    }]
  );
  let found = validate_file(
    &DocumentCheck::Unreadable("bad indentation".to_string()),
    "orders.yaml",
    &mut tags,
    true,
  );
  assert_eq!(
    found.entries(),
    &vec![Diagnostic {
      severity: Severity::Error,
      issue: Issue::UnreadableDocument,
      message: "API document orders.yaml was not able to be parsed: bad indentation".to_string(),
    }]
  );
  assert!(tags.is_empty());
}

#[test]
fn a_circle_of_references_may_be_passed_over() {
  let mut tags = vec![];
  let circle = DocumentCheck::Cyclic("cyclic reference".to_string());
  let strict = validate_file(&circle, "orders.yaml", &mut tags, false);
  assert_eq!(strict.get(0).severity, Severity::Error);
  assert_eq!(strict.get(0).issue, Issue::CyclicReference);
  assert!(!strict.is_valid());
  let lenient = validate_file(&circle, "orders.yaml", &mut tags, true);
  assert_eq!(lenient.get(0).severity, Severity::Warning);
  assert_eq!(lenient.get(0).issue, Issue::CyclicReference);
  assert_eq!(
    lenient.get(0).message,
    "API document orders.yaml was not able to be parsed: cyclic reference"
  );
  assert!(lenient.is_valid());
}

#[test]
fn a_tag_stands_once() {
  let tags = vec![
    tag("orders", Some("All about orders")),
    tag("orders", None),
    tag("health", None),
    tag("orders", Some("All about orders")),
    tag("health", None),
  ];
  let found = check_tags(&tags);
  assert_eq!(issues(&found), vec![Issue::DuplicateTag, Issue::DuplicateTag]);
  assert_eq!(
    found.get(0).message,
    "Duplicate tags: Name: orders\nDescription: All about orders"
  );
  assert_eq!(found.get(1).message, "Duplicate tags: Name: health\nDescription: ");
  assert!(check_tags(&tags[..3]).is_empty());
  assert!(check_tags(&[]).is_empty());
}

#[test]
fn the_checks_come_before_the_endpoints() {
  let files = vec![
    checked("a.yaml", DocumentCheck::Valid(vec![tag("a", None)])),
    checked("b.yaml", DocumentCheck::Cyclic("circle".to_string())),
  ];
  let merged = Some(DocumentCheck::Valid(vec![]));
  let (data, found) = validate_open_api(&files, &merged, Some(DOCUMENT.to_string()), true).unwrap();
  assert_eq!(data.len(), 1);
  assert_eq!(data[0].path, "/orders");
  assert_eq!(data[0].method, HttpMethod::Put);
  assert_eq!(data[0].execution_type, APIType::SQS);
  assert_eq!(
    issues(&found),
    vec![Issue::CyclicReference, Issue::MissingRequestBody]
  );
  assert!(found.is_valid());
  let strict = invalid(validate_open_api(&files, &merged, Some(DOCUMENT.to_string()), false));
  assert_eq!(issues(&strict), vec![Issue::CyclicReference]);
}

#[test]
fn a_failed_file_ends_the_stage_before_the_tags() {
  let files = vec![
    checked("a.yaml", DocumentCheck::Valid(vec![tag("a", None)])),
    checked("b.yaml", DocumentCheck::Invalid("broken".to_string())),
    checked("c.yaml", DocumentCheck::Valid(vec![tag("a", None)])),
    checked("d.yaml", DocumentCheck::Unreadable("unreadable".to_string())),
  ];
  let found = invalid(check_documents(&files, &None, false));
  assert_eq!(
    issues(&found),
    vec![Issue::InvalidDocument, Issue::UnreadableDocument]
  );
}

#[test]
fn tags_of_two_files_may_not_repeat() {
  let files = vec![
    checked("a.yaml", DocumentCheck::Valid(vec![tag("a", None)])),
    checked("b.yaml", DocumentCheck::Cyclic("circle".to_string())),
    checked("c.yaml", DocumentCheck::Valid(vec![tag("a", None)])),
  ];
  let merged = Some(DocumentCheck::Invalid("broken".to_string()));
  let found = invalid(check_documents(&files, &merged, true));
  assert_eq!(
    issues(&found),
    vec![Issue::CyclicReference, Issue::DuplicateTag]
  );
}

#[test]
fn the_merged_document_is_checked_last() {
  let files = vec![checked("a.yaml", DocumentCheck::Valid(vec![]))];
  let broken = Some(DocumentCheck::Unreadable("no mapping".to_string()));
  let found = invalid(check_documents(&files, &broken, false));
  assert_eq!(issues(&found), vec![Issue::UnreadableDocument]);
  assert_eq!(
    found.get(0).message,
    "API document (merged) was not able to be parsed: no mapping"
  );
  let circle = Some(DocumentCheck::Cyclic("circle".to_string()));
  assert_eq!(
    issues(&invalid(check_documents(&files, &circle, false))),
    vec![Issue::CyclicReference]
  );
  let kept = check_documents(&files, &circle, true).unwrap();
  assert_eq!(issues(&kept), vec![Issue::CyclicReference]);
  assert!(check_documents(&files, &None, false).unwrap().is_empty());
  assert!(check_documents(&[], &None, false).unwrap().is_empty());
}

#[test]
fn a_text_without_model_ends_the_run() {
  let files = vec![checked("a.yaml", DocumentCheck::Valid(vec![]))];
  match validate_open_api(&files, &None, Some("paths: [".to_string()), false) {
    Err(ModelError::Syntax(_)) => {}
    other => panic!("{:?}", other),
  }
}

#[test]
fn a_folder_without_documents_is_a_missing_file() {
  assert_eq!(
    validate_open_api(&[], &None, None, false),
    Err(ModelError::MissingFile("*.yaml".to_string()))
  );
  assert_eq!(
    validate_open_api(&[], &None, None, true),
    Err(ModelError::MissingFile("*.yaml".to_string()))
  );
  // What is held against the files comes first.
  let files = vec![checked("a.yaml", DocumentCheck::Invalid("broken".to_string()))];
  assert_eq!(
    issues(&invalid(validate_open_api(&files, &None, None, false))),
    vec![Issue::InvalidDocument]
  );
}
