use sv::cross_validation::{
  cross_validation, validate_aws_api_gateway_integration, validate_lambda_against_open_api,
};
use sv::diagnostics::{Diagnostics, Issue, Severity};
use sv::open_api::{APIType, ApiOperation, Extension, Member, OpenAPIData};
use sv::terraform::{APIPath, Lambda, LambdaTriggerType};
use sv::util::HttpMethod;

#[test]
fn test_validate_lambda_against_open_api_arn() {
  let open_api_data = vec![OpenAPIData {
    path: "/test".to_string(),
    method: HttpMethod::Get,
    execution_type: APIType::Lambda,
    uri: "arn".to_string(),
  }];
  assert!(validate_lambda_against_open_api(
    &open_api_data,
    "arn",
    "test",
    &APIPath {
      route: "/test".to_string(),
      method: HttpMethod::Get,
    }
  )
  .is_valid());
  assert!(!validate_lambda_against_open_api(
    &open_api_data,
    "arn",
    "test",
    &APIPath {
      route: "/test".to_string(),
      method: HttpMethod::Post,
    }
  )
  .is_valid());
  assert!(!validate_lambda_against_open_api(
    &open_api_data,
    "arn",
    "test",
    &APIPath {
      route: "/test2".to_string(),
      method: HttpMethod::Get,
    }
  )
  .is_valid());
}

#[test]
fn test_validate_lambda_against_open_api_step_function() {
  let open_api_data = vec![OpenAPIData {
    path: "/test".to_string(),
    method: HttpMethod::Get,
    execution_type: APIType::StepFunction,
    uri: "state:action".to_string(),
  }];
  assert!(validate_lambda_against_open_api(
    &open_api_data,
    "arn",
    "test",
    &APIPath {
      route: "/test".to_string(),
      method: HttpMethod::Get,
    }
  )
  .is_valid());
  assert!(!validate_lambda_against_open_api(
    &open_api_data,
    "arn",
    "test",
    &APIPath {
      route: "/test".to_string(),
      method: HttpMethod::Post,
    }
  )
  .is_valid());
  assert!(!validate_lambda_against_open_api(
    &open_api_data,
    "arn",
    "test",
    &APIPath {
      route: "/test2".to_string(),
      method: HttpMethod::Get,
    }
  )
  .is_valid());
}

#[test]
fn test_validate_lambda_against_open_api_multiple_paths() {
  let open_api_data = vec![
    OpenAPIData {
      path: "/test".to_string(),
      method: HttpMethod::Get,
      execution_type: APIType::Lambda,
      uri: "arn".to_string(),
    },
    OpenAPIData {
      path: "/test2".to_string(),
      method: HttpMethod::Get,
      execution_type: APIType::Lambda,
      uri: "arn".to_string(),
    },
  ];
  assert!(validate_lambda_against_open_api(
    &open_api_data,
    "arn",
    "test",
    &APIPath {
      route: "/test".to_string(),
      method: HttpMethod::Get,
    }
  )
  .is_valid());
  assert!(validate_lambda_against_open_api(
    &open_api_data,
    "arn",
    "test",
    &APIPath {
      route: "/test2".to_string(),
      method: HttpMethod::Get,
    }
  )
  .is_valid());
  assert!(!validate_lambda_against_open_api(
    &open_api_data,
    "arn",
    "test",
    &APIPath {
      route: "/test3".to_string(),
      method: HttpMethod::Get,
    }
  )
  .is_valid());
}

#[test]
fn test_validate_lambda_against_open_api_multiple_methods() {
  let open_api_data = vec![
    OpenAPIData {
      path: "/test".to_string(),
      method: HttpMethod::Get,
      execution_type: APIType::Lambda,
      uri: "arn".to_string(),
    },
    OpenAPIData {
      path: "/test".to_string(),
      method: HttpMethod::Post,
      execution_type: APIType::Lambda,
      uri: "arn".to_string(),
    },
  ];

  assert!(validate_lambda_against_open_api(
    &open_api_data,
    "arn",
    "test",
    &APIPath {
      route: "/test".to_string(),
      method: HttpMethod::Get,
    }
  )
  .is_valid());
  assert!(validate_lambda_against_open_api(
    &open_api_data,
    "arn",
    "test",
    &APIPath {
      route: "/test".to_string(),
      method: HttpMethod::Post,
    }
  )
  .is_valid());
  assert!(!validate_lambda_against_open_api(
    &open_api_data,
    "arn",
    "test",
    &APIPath {
      route: "/test".to_string(),
      method: HttpMethod::Put,
    }
  )
  .is_valid());
}

#[test]
fn test_validate_lambda_against_open_api_multiple_paths_multiple_methods() {
  let open_api_data = vec![
    OpenAPIData {
      path: "/test".to_string(),
      method: HttpMethod::Get,
      execution_type: APIType::Lambda,
      uri: "arn".to_string(),
    },
    OpenAPIData {
      path: "/test".to_string(),
      method: HttpMethod::Post,
      execution_type: APIType::Lambda,
      uri: "arn".to_string(),
    },
    OpenAPIData {
      path: "/test2".to_string(),
      method: HttpMethod::Get,
      execution_type: APIType::Lambda,
      uri: "arn".to_string(),
    },
    OpenAPIData {
      path: "/test2".to_string(),
      method: HttpMethod::Post,
      execution_type: APIType::Lambda,
      uri: "arn".to_string(),
    },
    OpenAPIData {
      path: "/test2".to_string(),
      method: HttpMethod::Put,
      execution_type: APIType::Lambda,
      uri: "arn".to_string(),
    },
    OpenAPIData {
      path: "/test2".to_string(),
      method: HttpMethod::Patch,
      execution_type: APIType::Lambda,
      uri: "arn".to_string(),
    },
    OpenAPIData {
      path: "/test2".to_string(),
      method: HttpMethod::Delete,
      execution_type: APIType::Lambda,
      uri: "arn".to_string(),
    },
  ];
  assert!(validate_lambda_against_open_api(
    &open_api_data,
    "arn",
    "test",
    &APIPath {
      route: "/test".to_string(),
      method: HttpMethod::Get,
    }
  )
  .is_valid());
  assert!(validate_lambda_against_open_api(
    &open_api_data,
    "arn",
    "test",
    &APIPath {
      route: "/test".to_string(),
      method: HttpMethod::Post,
    }
  )
  .is_valid());
  assert!(validate_lambda_against_open_api(
    &open_api_data,
    "arn",
    "test",
    &APIPath {
      route: "/test2".to_string(),
      method: HttpMethod::Get,
    }
  )
  .is_valid());
  assert!(validate_lambda_against_open_api(
    &open_api_data,
    "arn",
    "test",
    &APIPath {
      route: "/test2".to_string(),
      method: HttpMethod::Post,
    }
  )
  .is_valid());
  assert!(validate_lambda_against_open_api(
    &open_api_data,
    "arn",
    "test",
    &APIPath {
      route: "/test2".to_string(),
      method: HttpMethod::Put,
    }
  )
  .is_valid());
  assert!(validate_lambda_against_open_api(
    &open_api_data,
    "arn",
    "test",
    &APIPath {
      route: "/test2".to_string(),
      method: HttpMethod::Patch,
    }
  )
  .is_valid());
  assert!(validate_lambda_against_open_api(
    &open_api_data,
    "arn",
    "test",
    &APIPath {
      route: "/test2".to_string(),
      method: HttpMethod::Delete,
    }
  )
  .is_valid());
  assert!(!validate_lambda_against_open_api(
    &open_api_data,
    "arn",
    "test",
    &APIPath {
      route: "/test3".to_string(),
      method: HttpMethod::Get,
    }
  )
  .is_valid());
}

fn health_check() -> Lambda {
  Lambda {
    key: "health_check".to_string(),
    handler: "health.handler".to_string(),
    step_function: false,
    apis: vec![APIPath {
      method: HttpMethod::Get,
      route: "/health".to_string(),
    }],
    arn_template_key: Some("health_check_arn".to_string()),
    lambda_type: LambdaTriggerType::ApiGateway,
  }
}

fn endpoint(path: &str, method: HttpMethod, uri: &str, execution_type: APIType) -> OpenAPIData {
  OpenAPIData {
    path: path.to_string(),
    method,
    uri: uri.to_string(),
    execution_type,
  }
}

fn issues(found: &Diagnostics) -> Vec<Issue> {
  found.entries().iter().map(|d| d.issue).collect()
}

const HEALTH_URI: &str =
  "arn:aws:apigateway:eu-west-1:lambda:path/2015-03-31/functions/${health_check_arn}/invocations";
const OTHER_URI: &str =
  "arn:aws:apigateway:eu-west-1:lambda:path/2015-03-31/functions/${other_arn}/invocations";

#[test]
fn reconciling_a_matching_pair_finds_nothing() {
  let found = cross_validation(
    vec![health_check()],
    vec![endpoint("/health", HttpMethod::Get, HEALTH_URI, APIType::Lambda)],
  );
  assert!(found.is_valid());
  assert_eq!(found.len(), 0);
  assert!(found.is_empty());
}

#[test]
fn reconciling_another_method_finds_three_errors() {
  let found = cross_validation(
    vec![health_check()],
    vec![endpoint("/health", HttpMethod::Post, OTHER_URI, APIType::Lambda)],
  );
  assert!(!found.is_valid());
  assert_eq!(
    issues(&found),
    vec![
      Issue::MethodNotInSpecification,
      Issue::PlaceholderNeverReferenced,
      Issue::MethodNotInInfrastructure,
    ]
  );
  assert!(found.entries().iter().all(|d| d.severity == Severity::Error));
  assert_eq!(
    found.get(0).message,
    "The GET method is not defined for the path /health for the lambda health_check"
  );
  assert_eq!(
    found.get(1).message,
    "The ARN placeholder 'health_check_arn' of the lambda health_check is not used in any 'uri' in OpenAPI"
  );
  assert_eq!(
    found.get(2).message,
    "The POST method is not defined for the path /health in Terraform"
  );
}

#[test]
fn reconciling_another_method_with_the_placeholder_finds_two_errors() {
  let found = cross_validation(
    vec![health_check()],
    vec![endpoint("/health", HttpMethod::Post, HEALTH_URI, APIType::Lambda)],
  );
  assert_eq!(
    issues(&found),
    vec![Issue::MethodNotInSpecification, Issue::MethodNotInInfrastructure]
  );
}

#[test]
fn both_passes_report_in_one_run() {
  let found = cross_validation(
    vec![health_check()],
    vec![endpoint("/orders", HttpMethod::Get, HEALTH_URI, APIType::Lambda)],
  );
  assert_eq!(
    issues(&found),
    vec![Issue::PathNotInSpecification, Issue::PathNotInInfrastructure]
  );
  assert_eq!(
    found.get(0).message,
    "The path /health is not defined in OpenAPI for the lambda health_check"
  );
  assert_eq!(found.get(1).message, "The path /orders is not defined in Terraform");
}

#[test]
fn a_dangling_placeholder_is_reported_once() {
  let mut lambda = health_check();
  lambda.apis.push(APIPath {
    method: HttpMethod::Any,
    route: "/orders".to_string(),
  });
  let found = cross_validation(
    vec![lambda],
    vec![
      endpoint("/health", HttpMethod::Get, "states:action/StartExecution", APIType::StepFunction),
      endpoint("/orders", HttpMethod::Put, "sqs:action/SendMessage", APIType::SQS),
    ],
  );
  assert_eq!(found.count(Issue::PlaceholderNeverReferenced), 1);
  assert_eq!(
    issues(&found),
    vec![
      Issue::PlaceholderNeverReferenced,
      Issue::BackendNotChecked,
      Issue::BackendNotChecked,
    ]
  );
  assert!(!found.is_valid());
  assert_eq!(found.get(1).severity, Severity::Info);
  assert_eq!(found.get(1).message, "Step Functions are currently not handled");
  assert_eq!(found.get(2).message, "SQS Functions are currently not handled");
}

#[test]
fn a_lambda_without_placeholder_is_passed_over() {
  let mut lambda = health_check();
  lambda.arn_template_key = None;
  let found = cross_validation(vec![lambda], vec![]);
  assert!(found.is_valid());
  assert!(found.is_empty());
}

#[test]
fn a_wildcard_route_covers_every_method() {
  let mut lambda = health_check();
  lambda.apis = vec![APIPath {
    method: HttpMethod::Any,
    route: "/health".to_string(),
  }];
  let found = cross_validation(
    vec![lambda],
    vec![
      endpoint("/health", HttpMethod::Get, HEALTH_URI, APIType::Lambda),
      endpoint("/health", HttpMethod::Delete, HEALTH_URI, APIType::Lambda),
    ],
  );
  assert!(found.is_valid());
  assert!(found.is_empty());
}

#[test]
fn the_uri_of_a_lambda_is_looked_at() {
  let found = validate_lambda_against_open_api(
    &[endpoint("/health", HttpMethod::Get, "lambda:path/state:action", APIType::Lambda)],
    "health_check_arn",
    "health_check",
    &health_check().apis[0],
  );
  assert_eq!(
    issues(&found),
    vec![Issue::PlaceholderNotInUri, Issue::ExecutionTypeMismatch]
  );
  assert_eq!(
    found.get(0).message,
    "The 'uri' doesn't contain the ARN placeholder 'health_check_arn' in the 'x-amazon-apigateway-integration' extension for GET /health for the lambda health_check"
  );
  assert_eq!(
    found.get(1).message,
    "The 'uri' for GET /health is set up for step functions instead of the lambda health_check"
  );
}

#[test]
fn reconciling_twice_finds_the_same() {
  let lambdas = vec![health_check()];
  let endpoints = vec![
    endpoint("/health", HttpMethod::Post, OTHER_URI, APIType::Lambda),
    endpoint("/orders", HttpMethod::Get, HEALTH_URI, APIType::Unknown),
  ];
  let first = cross_validation(lambdas.clone(), endpoints.clone());
  let second = cross_validation(lambdas, endpoints);
  assert_eq!(first, second);
  assert_eq!(first.len(), 3);
}

fn operation(members: Option<Vec<(&str, Option<&str>)>>) -> ApiOperation {
  let mut extensions = vec![Extension {
    name: "x-ignored".to_string(),
    members: vec![],
  }];
  if let Some(members) = members {
    extensions.push(Extension {
      name: "x-amazon-apigateway-integration".to_string(),
      members: members
        .into_iter()
        .map(|(name, text)| Member {
          name: name.to_string(),
          text: text.map(str::to_string),
        })
        .collect(),
    });
  }
  ApiOperation {
    extensions,
    request_body: false,
    parameters: 0,
  }
}

const VALID_URI: &str =
  "arn:aws:apigateway:eu-west-1:lambda:path/2015-03-31/functions/${lambda_valid_1_arn}/invocations";

#[test]
fn test_valid_aws_integration_extension() {
  let d = operation(Some(vec![("type", Some("aws_proxy")), ("uri", Some(VALID_URI))]));
  let api = APIPath {
    method: HttpMethod::Get,
    route: "/v1/valid/path".to_string(),
  };
  assert!(validate_aws_api_gateway_integration(&d, "random key", "lambda_valid_1_arn", &api)
    .is_valid());
}

#[test]
fn test_invalid_aws_integration_extension_arn() {
  let d = operation(Some(vec![("type", Some("aws_proxy")), ("uri", Some(VALID_URI))]));
  let api = APIPath {
    method: HttpMethod::Get,
    route: "/v1/valid/path".to_string(),
  };
  assert_eq!(
    validate_aws_api_gateway_integration(&d, "random key", "lambda_invalid_1_arn", &api)
      .is_valid(),
    false
  );
}

#[test]
fn test_invalid_aws_integration_extension_arn_no_uri() {
  let d = operation(Some(vec![("type", Some("aws_proxy"))]));
  let api = APIPath {
    method: HttpMethod::Get,
    route: "/v1/valid/path".to_string(),
  };
  let found = validate_aws_api_gateway_integration(&d, "random key", "lambda_invalid_1_arn", &api);
  assert_eq!(found.is_valid(), false);
  assert_eq!(issues(&found), vec![Issue::MissingUri]);
  assert_eq!(
    found.get(0).message,
    "The 'uri' doesn't exist in the 'x-amazon-apigateway-integration' extension for GET /v1/valid/path for the lambda random key"
  );
}

#[test]
fn test_invalid_no_aws_integration_extension() {
  let d = operation(None);
  let api = APIPath {
    method: HttpMethod::Get,
    route: "/v1/valid/path".to_string(),
  };
  let found = validate_aws_api_gateway_integration(&d, "random key", "lambda_invalid_1_arn", &api);
  assert_eq!(found.is_valid(), false);
  assert_eq!(issues(&found), vec![Issue::MissingIntegration]);
  assert_eq!(
    found.get(0).message,
    "The 'x-amazon-apigateway-integration' extension doesn't exist for the GET /v1/valid/path for the lambda random key"
  );
}

#[test]
fn a_uri_that_is_no_string_counts_as_missing() {
  let d = operation(Some(vec![("uri", None)]));
  let api = APIPath {
    method: HttpMethod::Post,
    route: "/v1/valid/path".to_string(),
  };
  let found = validate_aws_api_gateway_integration(&d, "random key", "lambda_valid_1_arn", &api);
  assert_eq!(issues(&found), vec![Issue::MissingUri]);
}
