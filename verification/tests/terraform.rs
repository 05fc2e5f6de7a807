use sv::route::{resolve_route, PatternError};
use sv::terraform::{extract_api_and_method, handle_api_gateway_lambda};
use sv::util::HttpMethod;

#[test]
fn test_handle_api_gateway_lambda() {
  let source_arn = "\"${module.service_api.rest_api_execution_arn}/api/GET/health\"";
  let data = handle_api_gateway_lambda(source_arn.to_string()).unwrap();
  assert_eq!(data.len(), 2);
  assert_eq!(data[0], "GET");
  assert_eq!(data[1], "/api/health");
}

#[test]
fn test_handle_api_gateway_lambda_with_wildcard() {
  let source_arn = "\"${module.service_api.rest_api_execution_arn}/*/POST/postcode-validation\"";
  let data = handle_api_gateway_lambda(source_arn.to_string()).unwrap();
  assert_eq!(data.len(), 2);
  assert_eq!(data[0], "POST");
  assert_eq!(data[1], "/postcode-validation");
}

#[test]
fn test_handle_api_gateway_lambda_with_wildcard_and_path() {
  let source_arn =
    "\"${module.service_api.rest_api_execution_arn}/*/POST/postcode-validation/validate\"";
  let data = handle_api_gateway_lambda(source_arn.to_string()).unwrap();
  assert_eq!(data.len(), 2);
  assert_eq!(data[0], "POST");
  assert_eq!(data[1], "/postcode-validation/validate");
}

#[test]
fn test_handle_api_gateway_lambda_with_wildcard_and_path_and_query() {
  let source_arn = "\"${module.service_api.rest_api_execution_arn}/*/POST/postcode-validation/validate?postcode={postcode}\"";
  let data = handle_api_gateway_lambda(source_arn.to_string()).unwrap();
  assert_eq!(data.len(), 2);
  assert_eq!(data[0], "POST");
  assert_eq!(data[1], "/postcode-validation/validate?postcode={postcode}");
}

#[test]
fn test_handle_api_gateway_lambda_with_wildcard_and_path_and_query_and_hash() {
  let source_arn = "\"${module.service_api.rest_api_execution_arn}/*/POST/postcode-validation/validate?postcode={postcode}#test\"";
  let data = handle_api_gateway_lambda(source_arn.to_string()).unwrap();
  assert_eq!(data.len(), 2);
  assert_eq!(data[0], "POST");
  assert_eq!(
    data[1],
    "/postcode-validation/validate?postcode={postcode}#test"
  );
}

#[test]
fn test_handle_api_gateway_lambda_with_wildcard_and_path_and_query_and_hash_and_slash() {
  let source_arn = "\"${module.service_api.rest_api_execution_arn}/*/POST/postcode-validation/validate?postcode={postcode}#test/\"";
  let data = handle_api_gateway_lambda(source_arn.to_string()).unwrap();
  assert_eq!(data.len(), 2);
  assert_eq!(data[0], "POST");
  assert_eq!(
    data[1],
    "/postcode-validation/validate?postcode={postcode}#test/"
  );
}

#[test]
fn test_handle_api_gateway_lambda_post() {
  let source_arn = "\"${module.service_api.rest_api_execution_arn}/api/POST/health\"";
  let data = handle_api_gateway_lambda(source_arn.to_string()).unwrap();
  assert_eq!(data.len(), 2);
  assert_eq!(data[0], "POST");
  assert_eq!(data[1], "/api/health");
}

#[test]
fn test_handle_api_gateway_lambda_put() {
  let source_arn = "\"${module.service_api.rest_api_execution_arn}/api/PUT/health\"";
  let data = handle_api_gateway_lambda(source_arn.to_string()).unwrap();
  assert_eq!(data.len(), 2);
  assert_eq!(data[0], "PUT");
  assert_eq!(data[1], "/api/health");
}

#[test]
fn test_handle_api_gateway_lambda_delete() {
  let source_arn = "\"${module.service_api.rest_api_execution_arn}/api/DELETE/health\"";
  let data = handle_api_gateway_lambda(source_arn.to_string()).unwrap();
  assert_eq!(data.len(), 2);
  assert_eq!(data[0], "DELETE");
  assert_eq!(data[1], "/api/health");
}

#[test]
fn test_handle_api_gateway_lambda_patch() {
  let source_arn = "\"${module.service_api.rest_api_execution_arn}/api/PATCH/health\"";
  let data = handle_api_gateway_lambda(source_arn.to_string()).unwrap();
  assert_eq!(data.len(), 2);
  assert_eq!(data[0], "PATCH");
  assert_eq!(data[1], "/api/health");
}

#[test]
fn resolving_two_wildcards_gives_any_method() {
  let source_arn = "\"${module.service_api.rest_api_execution_arn}/*/*/orders/{id}\"";
  let data = handle_api_gateway_lambda(source_arn.to_string()).unwrap();
  assert_eq!(data.len(), 2);
  assert_eq!(data[0], "*");
  assert_eq!(data[1], "/orders/{id}");
}

#[test]
fn resolving_three_wildcards_is_too_permissive() {
  let source_arn = "\"${module.service_api.rest_api_execution_arn}/*/*/*\"";
  assert_eq!(
    handle_api_gateway_lambda(source_arn.to_string()),
    Err(PatternError::TooPermissive)
  );
  let longer = "${module.service_api.rest_api_execution_arn}/*/*/*/orders";
  assert_eq!(
    handle_api_gateway_lambda(longer.to_string()),
    Err(PatternError::TooPermissive)
  );
}

#[test]
fn resolving_without_a_method_is_unsupported() {
  let head = "\"${module.service_api.rest_api_execution_arn}/api/HEAD/health\"";
  assert_eq!(
    handle_api_gateway_lambda(head.to_string()),
    Err(PatternError::UnsupportedMethod)
  );
  let behind_stage = "${module.service_api.rest_api_execution_arn}/*/FETCH/health";
  assert_eq!(
    handle_api_gateway_lambda(behind_stage.to_string()),
    Err(PatternError::UnsupportedMethod)
  );
  let no_prefix = "/api/GET/health";
  assert_eq!(
    handle_api_gateway_lambda(no_prefix.to_string()),
    Err(PatternError::UnsupportedMethod)
  );
}

#[test]
fn resolving_behind_the_stage_reads_any_case_and_any_method() {
  let lower = "${module.service_api.rest_api_execution_arn}/*/delete/orders";
  let data = handle_api_gateway_lambda(lower.to_string()).unwrap();
  assert_eq!(data, vec!["DELETE".to_string(), "/orders".to_string()]);
  let head = "${module.service_api.rest_api_execution_arn}/*/HEAD/orders";
  let data = handle_api_gateway_lambda(head.to_string()).unwrap();
  assert_eq!(data, vec!["HEAD".to_string(), "/orders".to_string()]);
  let bare = "${module.service_api.rest_api_execution_arn}/*/PUT";
  let data = handle_api_gateway_lambda(bare.to_string()).unwrap();
  assert_eq!(data, vec!["PUT".to_string(), "/".to_string()]);
}

#[test]
fn a_path_behind_wildcards_is_taken_as_it_is() {
  let spaced = "${module.service_api.rest_api_execution_arn}/*/ get /orders /{id} ";
  let data = handle_api_gateway_lambda(spaced.to_string()).unwrap();
  assert_eq!(data, vec!["GET".to_string(), "/orders /{id} ".to_string()]);
  let any = "${module.service_api.rest_api_execution_arn}/*/* orders ";
  let data = handle_api_gateway_lambda(any.to_string()).unwrap();
  assert_eq!(data, vec!["*".to_string(), "/ orders ".to_string()]);
  let quoted = "x/*/GET/a\"b\"";
  let data = handle_api_gateway_lambda(quoted.to_string()).unwrap();
  assert_eq!(data, vec!["GET".to_string(), "/ab".to_string()]);
}

#[test]
fn resolving_tries_the_methods_in_order() {
  // `GET` comes before `POST`, wherever the two stand in the text.
  let both = "${module.service_api.rest_api_execution_arn}/api/POST/GET/health";
  let data = handle_api_gateway_lambda(both.to_string()).unwrap();
  assert_eq!(data, vec!["GET".to_string(), "/api/POST/health".to_string()]);
}

#[test]
fn resolved_route_has_method_and_path() {
  let raw: Vec<char> = "${arn}/*/PATCH/orders?x={y}#z".chars().collect();
  let (method, path) = resolve_route(&raw).unwrap();
  assert_eq!(method, HttpMethod::Patch);
  assert_eq!(path.iter().collect::<String>(), "/orders?x={y}#z");
}

#[test]
fn extracting_takes_every_occurrence_out() {
  assert_eq!(
    extract_api_and_method("/api/GET/health/GET", HttpMethod::Get),
    Some(("GET".to_string(), "/api/health".to_string()))
  );
  assert_eq!(
    extract_api_and_method("/api/WIDGETS", HttpMethod::Get),
    Some(("GET".to_string(), "/api/WIDGETS".to_string()))
  );
  assert_eq!(extract_api_and_method("/api/health", HttpMethod::Get), None);
  assert_eq!(
    extract_api_and_method("/a/*/b", HttpMethod::Any),
    Some(("*".to_string(), "/a/b".to_string()))
  );
}
