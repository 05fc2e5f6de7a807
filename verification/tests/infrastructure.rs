use sv::config::{ConfigAttribute, ConfigBlock, ConfigBody, ConfigEntry, ConfigKey, ConfigValue, Shape};
use sv::diagnostics::{Diagnostics, Issue, Severity};
use sv::error::{Fault, ModelError};
use sv::permissions::{permissions_of, trigger_of, validate_lambda_permissions};
use sv::registry::{check_registry, lambdas_of, validate_lambda};
use sv::route::PatternError;
use sv::terraform::{
  check_coherence, check_lambdas, validate_terraform, validate_terraform_files, APIPath, Lambda,
  LambdaTriggerType, TerraformFiles,
};
use sv::util::HttpMethod;
use sv::wiring::{extract_api_gw, extract_step_function, link_state_machines, wire_gateway};

const LAMBDA_TF: &str = r#"
locals {
  lambdas = {
    health_check = {
      handler = "health.handler"
      memory  = 128
    }
    orders = {
      timeout = 30
      Handler = "orders.handler"
    }
  }
}
"#;

const PERMISSIONS_TF: &str = r#"
locals {
  lambdas_permissions = {
    health_check = [
      {
        statement_id = "AllowExecutionFromAPIGateway"
        principal    = "apigateway.amazonaws.com"
        source_arn   = "${module.service_api.rest_api_execution_arn}/*/GET/health"
      }
    ]
    orders = [
      {
        principal  = "apigateway.amazonaws.com"
        source_arn = "${module.service_api.rest_api_execution_arn}/*/POST/orders/{id}"
      },
      {
        principal  = "apigateway.amazonaws.com"
        source_arn = "${module.service_api.rest_api_execution_arn}/api/DELETE/orders"
      }
    ]
  }
}
"#;

const API_GATEWAY_TF: &str = r#"
# health_check_arn is set below
module "service_api" {
  source = "./api"
  arns = {
    // orders_arn : nothing
    health_check_arn : module.lambda["health_check"].invoke_arn
    orders_arn : module.lambda["orders"].invoke_arn
  }
}
"#;

const STEP_FUNCTION_TF: &str = r#"
module "step_function" {
  source = "./sfn"
  definition = templatefile("sfn.json", {
    orders = module.lambda["orders"].arn
  })
}
"#;

fn lambda(key: &str, handler: &str) -> Lambda {
  Lambda {
    key: key.to_string(),
    handler: handler.to_string(),
    ..Default::default()
  }
}

fn api(method: HttpMethod, route: &str) -> APIPath {
  APIPath {
    method,
    route: route.to_string(),
  }
}

fn issues(found: &Diagnostics) -> Vec<Issue> {
  found.entries().iter().map(|d| d.issue).collect()
}

fn messages(found: &Diagnostics) -> Vec<String> {
  found.entries().iter().map(|d| d.message.clone()).collect()
}

fn invalid(r: Result<Vec<Lambda>, ModelError>) -> Diagnostics {
  match r {
    Err(ModelError::Invalid(found)) => found,
    other => panic!("{:?}", other),
  }
}

fn scalar(text: &str) -> ConfigValue {
  ConfigValue {
    text: text.to_string(),
    shape: Shape::Scalar,
  }
}

fn object(entries: Vec<(ConfigKey, ConfigValue)>) -> ConfigValue {
  ConfigValue {
    text: "{}".to_string(),
    shape: Shape::Object(
      entries
        .into_iter()
        .map(|(key, value)| ConfigEntry { key, value })
        .collect(),
    ),
  }
}

fn array(items: Vec<ConfigValue>) -> ConfigValue {
  ConfigValue {
    text: "[]".to_string(),
    shape: Shape::Array(items),
  }
}

fn name(text: &str) -> ConfigKey {
  ConfigKey::Identifier(text.to_string())
}

fn locals(attribute: &str, value: ConfigValue) -> ConfigBody {
  ConfigBody {
    blocks: vec![
      ConfigBlock {
        identifier: "terraform".to_string(),
        attributes: vec![],
      },
      ConfigBlock {
        identifier: "locals".to_string(),
        attributes: vec![
          ConfigAttribute {
            key: "region".to_string(),
            value: scalar("\"eu-west-1\""),
          },
          ConfigAttribute {
            key: attribute.to_string(),
            value,
          },
        ],
      },
    ],
  }
}

fn handled(handler: &str) -> ConfigValue {
  object(vec![(name("handler"), scalar(handler))])
}

#[test]
fn the_registry_is_read_from_the_text() {
  let lambdas = validate_lambda(LAMBDA_TF).unwrap();
  assert_eq!(
    lambdas,
    vec![
      lambda("health_check", "health.handler"),
      lambda("orders", "orders.handler")
    ]
  );
  assert_eq!(lambdas[0].lambda_type, LambdaTriggerType::ApiGateway);
  assert_eq!(lambdas[0].arn_template_key, None);
  assert!(lambdas[0].apis.is_empty());
  assert!(!lambdas[0].step_function);
}

#[test]
fn a_text_that_is_no_configuration_is_a_syntax_error() {
  match validate_lambda("locals {") {
    Err(ModelError::Syntax(message)) => assert!(!message.is_empty()),
    other => panic!("{:?}", other),
  }
  match validate_lambda_permissions("locals = = {", vec![]) {
    Err(ModelError::Syntax(message)) => assert!(!message.is_empty()),
    other => panic!("{:?}", other),
  }
  match extract_api_gw("a {", vec![]) {
    Err(ModelError::Syntax(message)) => assert!(!message.is_empty()),
    other => panic!("{:?}", other),
  }
  match extract_step_function(vec![], "a {") {
    Err(ModelError::Syntax(message)) => assert!(!message.is_empty()),
    other => panic!("{:?}", other),
  }
  assert_eq!(
    validate_terraform_files(&[LAMBDA_TF.to_string(), PERMISSIONS_TF.to_string()]),
    Ok(())
  );
  match validate_terraform_files(&[LAMBDA_TF.to_string(), "a {".to_string(), "b {".to_string()]) {
    Err(ModelError::Syntax(message)) => assert!(!message.is_empty()),
    other => panic!("{:?}", other),
  }
}

#[test]
fn the_registry_must_be_there() {
  assert_eq!(
    validate_lambda("variable \"x\" {}"),
    Err(ModelError::Structure(Fault::MissingLocals, String::new()))
  );
  assert_eq!(
    validate_lambda("locals {\n  other = 1\n}"),
    Err(ModelError::Structure(Fault::MissingLambdas, String::new()))
  );
  assert_eq!(
    validate_lambda("locals {\n  lambdas = [1]\n}"),
    Err(ModelError::Structure(Fault::ExpectedObject, String::new()))
  );
  assert_eq!(
    validate_lambda("locals {\n  lambdas = {\n    a = 1\n  }\n}"),
    Err(ModelError::Structure(Fault::ExpectedObject, "a".to_string()))
  );
  assert_eq!(
    validate_lambda("locals {\n  lambdas = {\n    a = {\n      memory = 1\n    }\n  }\n}"),
    Err(ModelError::Structure(Fault::MissingHandler, "a".to_string()))
  );
  assert_eq!(
    validate_lambda("locals {\n  lambdas = {\n    \"a\" = {\n      handler = \"h\"\n    }\n  }\n}"),
    Err(ModelError::Structure(Fault::ExpectedIdentifier, "a".to_string()))
  );
}

#[test]
fn a_shared_handler_is_refused() {
  let text = r#"
locals {
  lambdas = {
    first = {
      handler = "same.handler"
    }
    second = {
      handler = "other.handler"
    }
    third = {
      handler = "same.handler"
    }
  }
}
"#;
  let found = invalid(validate_lambda(text));
  assert_eq!(issues(&found), vec![Issue::DuplicateHandler]);
  assert!(!found.is_valid());
  assert_eq!(
    messages(&found),
    vec!["Both lambda keys 'first' and 'third' are using the same handler same.handler"]
  );
}

#[test]
fn a_shared_key_is_refused() {
  let body = locals(
    "lambdas",
    object(vec![
      (name("a"), handled("\"x.handler\"")),
      (name("b"), handled("\"y.handler\"")),
      (name("a"), handled("\"y.handler\"")),
    ]),
  );
  let found = invalid(lambdas_of(&body));
  assert_eq!(
    issues(&found),
    vec![Issue::DuplicateKey, Issue::DuplicateHandler]
  );
  assert_eq!(
    messages(&found),
    vec![
      "Key is duplicated: a",
      "Both lambda keys 'b' and 'a' are using the same handler y.handler"
    ]
  );
  assert_eq!(
    check_registry(&[lambda("a", "x"), lambda("b", "y")]).len(),
    0
  );
}

#[test]
fn a_group_declared_twice_in_a_text_is_a_syntax_error() {
  let text = r#"
locals {
  lambdas_permissions = {
    a = [
      {
        principal  = "apigateway.amazonaws.com"
        source_arn = "${arn}/*/GET/a"
      }
    ]
    a = [
      {
        principal  = "apigateway.amazonaws.com"
        source_arn = "${arn}/*/GET/b"
      }
    ]
  }
}
"#;
  match validate_lambda_permissions(text, vec![lambda("a", "x")]) {
    Err(ModelError::Syntax(message)) => assert!(message.contains("redefined object key")),
    other => panic!("{:?}", other),
  }
}

#[test]
fn a_key_declared_twice_in_a_text_is_a_syntax_error() {
  let text = r#"
locals {
  lambdas = {
    a = {
      handler = "x.handler"
    }
    a = {
      handler = "y.handler"
    }
  }
}
"#;
  match validate_lambda(text) {
    Err(ModelError::Syntax(message)) => assert!(message.contains("redefined object key")),
    other => panic!("{:?}", other),
  }
}

#[test]
fn the_permissions_are_read_from_the_text() {
  let declared = validate_lambda(LAMBDA_TF).unwrap();
  let granted = validate_lambda_permissions(PERMISSIONS_TF, declared).unwrap();
  assert_eq!(granted.len(), 2);
  assert_eq!(granted[0].apis, vec![api(HttpMethod::Get, "/health")]);
  assert_eq!(
    granted[1].apis,
    vec![
      api(HttpMethod::Post, "/orders/{id}"),
      api(HttpMethod::Delete, "/api/orders")
    ]
  );
  assert_eq!(granted[0].lambda_type, LambdaTriggerType::ApiGateway);
  assert_eq!(granted[1].lambda_type, LambdaTriggerType::ApiGateway);
  assert_eq!(granted[1].handler, "orders.handler");
}

#[test]
fn the_principal_sets_the_trigger() {
  assert_eq!(
    trigger_of("apigateway.amazonaws.com"),
    Some(LambdaTriggerType::ApiGateway)
  );
  assert_eq!(
    trigger_of("events.amazonaws.com"),
    Some(LambdaTriggerType::EventBridge)
  );
  assert_eq!(
    trigger_of("scheduler.amazonaws.com"),
    Some(LambdaTriggerType::EventBridge)
  );
  assert_eq!(trigger_of("s3.amazonaws.com"), None);
  let text = r#"
locals {
  lambdas_permissions = {
    a = [
      {
        principal  = "apigateway.amazonaws.com"
        source_arn = "${arn}/*/GET/a"
      },
      {
        principal = "events.amazonaws.com"
      }
    ]
    b = [
      {
        principal = "s3.amazonaws.com"
      }
    ]
  }
}
"#;
  let granted = validate_lambda_permissions(text, vec![lambda("a", "x")]).unwrap_err();
  // `b` has no lambda, so its permission is not looked at; the key is held against the text.
  match granted {
    ModelError::Invalid(found) => {
      assert_eq!(issues(&found), vec![Issue::UnknownPermissionKey]);
      assert_eq!(
        messages(&found),
        vec!["'lambda_permissions' has extra key 'b'"]
      );
    }
    other => panic!("{:?}", other),
  }
  let granted =
    validate_lambda_permissions(text, vec![lambda("a", "x"), lambda("b", "y")]).unwrap_err();
  assert_eq!(
    granted,
    ModelError::UnsupportedPrincipal("s3.amazonaws.com".to_string())
  );
}

#[test]
fn the_last_permission_sets_the_trigger() {
  let text = r#"
locals {
  lambdas_permissions = {
    a = [
      {
        principal  = "apigateway.amazonaws.com"
        source_arn = "${arn}/*/GET/a"
      },
      {
        principal = "scheduler.amazonaws.com"
      }
    ]
  }
}
"#;
  let granted = validate_lambda_permissions(text, vec![lambda("a", "x")]).unwrap();
  assert_eq!(granted[0].lambda_type, LambdaTriggerType::EventBridge);
  assert_eq!(granted[0].apis, vec![api(HttpMethod::Get, "/a")]);
}

#[test]
fn a_granted_route_is_trimmed() {
  let spaced = locals(
    "lambdas_permissions",
    object(vec![(
      name("a"),
      array(vec![object(vec![
        (name("principal"), scalar("\"apigateway.amazonaws.com\"")),
        (name("source_arn"), scalar("\"${arn}/*/GET/orders \"")),
      ])]),
    )]),
  );
  let granted = permissions_of(&spaced, vec![lambda("b", "y"), lambda("a", "x")]).unwrap();
  assert!(granted[0].apis.is_empty());
  assert_eq!(granted[1].apis, vec![api(HttpMethod::Get, "/orders")]);
}

#[test]
fn a_permission_must_be_complete() {
  let no_principal = locals(
    "lambdas_permissions",
    object(vec![(
      name("a"),
      array(vec![object(vec![(name("source_arn"), scalar("x"))])]),
    )]),
  );
  assert_eq!(
    permissions_of(&no_principal, vec![lambda("a", "x")]),
    Err(ModelError::Structure(Fault::MissingPrincipal, "a".to_string()))
  );
  let no_source = locals(
    "lambdas_permissions",
    object(vec![(
      name("a"),
      array(vec![object(vec![(
        name("principal"),
        scalar("\"apigateway.amazonaws.com\""),
      )])]),
    )]),
  );
  assert_eq!(
    permissions_of(&no_source, vec![lambda("a", "x")]),
    Err(ModelError::Structure(Fault::MissingSourceArn, "a".to_string()))
  );
  let too_wide = locals(
    "lambdas_permissions",
    object(vec![(
      name("a"),
      array(vec![object(vec![
        (name("principal"), scalar("\"apigateway.amazonaws.com\"")),
        (name("source_arn"), scalar("\"${arn}/*/*/*\"")),
      ])]),
    )]),
  );
  assert_eq!(
    permissions_of(&too_wide, vec![lambda("a", "x")]),
    Err(ModelError::Pattern(PatternError::TooPermissive))
  );
  let no_array = locals("lambdas_permissions", object(vec![(name("a"), scalar("1"))]));
  assert_eq!(
    permissions_of(&no_array, vec![lambda("a", "x")]),
    Err(ModelError::Structure(Fault::ExpectedArray, "a".to_string()))
  );
  let no_object = locals(
    "lambdas_permissions",
    object(vec![(name("a"), array(vec![scalar("1")]))]),
  );
  assert_eq!(
    permissions_of(&no_object, vec![lambda("a", "x")]),
    Err(ModelError::Structure(Fault::ExpectedObject, "a".to_string()))
  );
  let quoted = locals(
    "lambdas_permissions",
    object(vec![
      (name("a"), array(vec![])),
      (ConfigKey::Expression("b".to_string()), array(vec![])),
    ]),
  );
  assert_eq!(
    permissions_of(&quoted, vec![lambda("a", "x")]),
    Err(ModelError::Structure(Fault::ExpectedIdentifier, "b".to_string()))
  );
  assert_eq!(
    permissions_of(&locals("other", scalar("1")), vec![]),
    Err(ModelError::Structure(Fault::MissingPermissions, String::new()))
  );
}

#[test]
fn a_group_of_permissions_stands_once() {
  let twice = locals(
    "lambdas_permissions",
    object(vec![
      (name("a"), array(vec![])),
      (name("c"), array(vec![])),
      (name("a"), array(vec![])),
    ]),
  );
  let found = invalid(permissions_of(&twice, vec![lambda("a", "x")]));
  assert_eq!(
    issues(&found),
    vec![Issue::DuplicatePermissionKey, Issue::UnknownPermissionKey]
  );
  assert_eq!(
    messages(&found),
    vec![
      "Key is duplicated: a",
      "'lambda_permissions' has extra key 'c'"
    ]
  );
}

#[test]
fn the_gateway_gives_the_placeholders() {
  let wired = extract_api_gw(
    API_GATEWAY_TF,
    vec![lambda("health_check", "x"), lambda("orders", "y")],
  )
  .unwrap();
  assert_eq!(
    wired[0].arn_template_key,
    Some("health_check_arn".to_string())
  );
  assert_eq!(wired[1].arn_template_key, Some("orders_arn".to_string()));
  assert_eq!(wired[0].key, "health_check");
}

#[test]
fn a_line_wires_every_lambda_that_it_names() {
  let wired = wire_gateway(
    "both_arn : [orders, health]\r\nnothing : here\n",
    vec![lambda("health", "x"), lambda("orders", "y"), lambda("other", "z")],
  )
  .unwrap();
  assert_eq!(wired[0].arn_template_key, Some("both_arn".to_string()));
  assert_eq!(wired[1].arn_template_key, Some("both_arn".to_string()));
  assert_eq!(wired[2].arn_template_key, None);
  let no_colon = wire_gateway("  orders  ", vec![lambda("orders", "y")]).unwrap();
  assert_eq!(no_colon[0].arn_template_key, Some("orders".to_string()));
}

#[test]
fn a_lambda_named_on_two_lines_is_wired_twice() {
  // The third lambda stands behind another on each line.
  let found = invalid(wire_gateway(
    "one_arn : [one, three]\ntwo_arn : [two, three]\n# three again\n  // and three",
    vec![lambda("one", "x"), lambda("two", "y"), lambda("three", "z")],
  ));
  assert_eq!(issues(&found), vec![Issue::DuplicatePlaceholder]);
  assert_eq!(
    messages(&found),
    vec!["The lambda key 'three' is used more than once"]
  );
  // A comment is no second wiring.
  let wired = wire_gateway(
    "one_arn : one\n# one\n  // one\n",
    vec![lambda("one", "x")],
  )
  .unwrap();
  assert_eq!(wired[0].arn_template_key, Some("one_arn".to_string()));
  // One line that names two wired lambdas is held against both.
  let found = invalid(wire_gateway(
    "a_arn : one\nb_arn : two\nc_arn : one, two",
    vec![lambda("one", "x"), lambda("two", "y")],
  ));
  assert_eq!(
    messages(&found),
    vec![
      "The lambda key 'one' is used more than once",
      "The lambda key 'two' is used more than once"
    ]
  );
}

#[test]
fn a_lambda_is_wired_once() {
  let found = invalid(wire_gateway(
    "one_arn : module[\"one\"]\ntwo_arn : module[\"two\"]\nother : module[\"one\"]",
    vec![lambda("one", "x"), lambda("two", "y")],
  ));
  assert_eq!(issues(&found), vec![Issue::DuplicatePlaceholder]);
  assert_eq!(
    messages(&found),
    vec!["The lambda key 'one' is used more than once"]
  );
}

#[test]
fn the_state_machines_link_the_lambdas() {
  let linked = extract_step_function(
    vec![lambda("health_check", "x"), lambda("orders", "y")],
    STEP_FUNCTION_TF,
  )
  .unwrap();
  assert!(!linked[0].step_function);
  assert!(linked[1].step_function);
  // The key alone is no reference.
  let unlinked = link_state_machines(vec![lambda("orders", "y")], "orders = 1\nlambda[\"orders\"]");
  assert!(!unlinked[0].step_function);
  // A longer key that begins with the key is one.
  let prefix = link_state_machines(vec![lambda("order", "y")], "module.lambda[\"orders\"]");
  assert!(prefix[0].step_function);
  let mut already = lambda("orders", "y");
  already.step_function = true;
  assert!(link_state_machines(vec![already], "")[0].step_function);
}

fn files() -> TerraformFiles {
  TerraformFiles {
    sources: vec![LAMBDA_TF.to_string(), PERMISSIONS_TF.to_string()],
    lambda: Some(LAMBDA_TF.to_string()),
    lambda_permissions: Some(PERMISSIONS_TF.to_string()),
    api_gateway: Some(API_GATEWAY_TF.to_string()),
    step_function: Some(STEP_FUNCTION_TF.to_string()),
  }
}

#[test]
fn the_model_is_built_from_the_files() {
  let (lambdas, found) = validate_terraform(&files()).unwrap();
  assert!(found.is_empty());
  assert_eq!(
    lambdas,
    vec![
      Lambda {
        key: "health_check".to_string(),
        handler: "health.handler".to_string(),
        step_function: false,
        apis: vec![api(HttpMethod::Get, "/health")],
        arn_template_key: Some("health_check_arn".to_string()),
        lambda_type: LambdaTriggerType::ApiGateway,
      },
      Lambda {
        key: "orders".to_string(),
        handler: "orders.handler".to_string(),
        step_function: true,
        apis: vec![
          api(HttpMethod::Post, "/orders/{id}"),
          api(HttpMethod::Delete, "/api/orders")
        ],
        arn_template_key: Some("orders_arn".to_string()),
        lambda_type: LambdaTriggerType::ApiGateway,
      },
    ]
  );
  let mut without = files();
  without.step_function = None;
  let (lambdas, _) = validate_terraform(&without).unwrap();
  assert!(!lambdas[1].step_function);
}

#[test]
fn the_files_must_be_there() {
  let mut no_lambda = files();
  no_lambda.lambda = None;
  no_lambda.lambda_permissions = None;
  assert_eq!(
    validate_terraform(&no_lambda),
    Err(ModelError::MissingFile("lambda.tf".to_string()))
  );
  let mut no_permissions = files();
  no_permissions.lambda_permissions = None;
  no_permissions.api_gateway = None;
  assert_eq!(
    validate_terraform(&no_permissions),
    Err(ModelError::MissingFile("lambda_permissions.tf".to_string()))
  );
  let mut no_gateway = files();
  no_gateway.api_gateway = None;
  assert_eq!(
    validate_terraform(&no_gateway),
    Err(ModelError::MissingFile("api_gateway.tf".to_string()))
  );
  let mut broken = files();
  broken.sources.push("a {".to_string());
  broken.lambda = None;
  match validate_terraform(&broken) {
    Err(ModelError::Syntax(_)) => {}
    other => panic!("{:?}", other),
  }
}

#[test]
fn the_last_pass_asks_whether_it_fits() {
  let mut routed = lambda("routed", "a");
  routed.apis.push(api(HttpMethod::Get, "/a"));
  let mut wired = lambda("wired", "b");
  wired.arn_template_key = Some("wired_arn".to_string());
  let unused = lambda("unused", "c");
  let mut linked = lambda("linked", "d");
  linked.step_function = true;
  linked.apis.push(api(HttpMethod::Get, "/d"));
  let mut fine = lambda("fine", "e");
  fine.apis.push(api(HttpMethod::Get, "/e"));
  fine.arn_template_key = Some("fine_arn".to_string());
  let all = vec![routed, wired.clone(), unused.clone(), linked.clone(), fine.clone()];
  let found = check_coherence(&all);
  assert_eq!(
    issues(&found),
    vec![
      Issue::MissingPlaceholder,
      Issue::MissingRoutes,
      Issue::UnusedLambda
    ]
  );
  assert_eq!(
    found
      .entries()
      .iter()
      .map(|d| d.severity)
      .collect::<Vec<_>>(),
    vec![Severity::Error, Severity::Warning, Severity::Warning]
  );
  assert_eq!(
    messages(&found),
    vec![
      "The lambda routed is not used in API gateway but is used in lambda_permissions.tf",
      "The lambda arn wired exists in API gateway but not in lambda_permissions.tf",
      "The lambda arn unused exists in lambda.tf but is not used anywhere else",
    ]
  );
  match check_lambdas(all) {
    Err(ModelError::Invalid(found)) => assert_eq!(found.len(), 3),
    other => panic!("{:?}", other),
  }
  let (kept, warnings) = check_lambdas(vec![wired, unused, linked, fine]).unwrap();
  assert_eq!(kept.len(), 4);
  assert!(warnings.is_valid());
  assert_eq!(
    issues(&warnings),
    vec![Issue::MissingRoutes, Issue::UnusedLambda]
  );
}
