//! Reconciliation: the lambdas of the infrastructure against the endpoints
//! of the specification, and back.
//!
//! The forward pass takes each lambda that the gateway is wired to and looks
//! for its routes among the endpoints. The reverse pass takes each endpoint
//! that a lambda backs and looks for its path and method among the routes.
//! Both passes always run, and every mismatch is recorded.

use crate::diagnostics::{
    count_issue, error, free_of, info, lemma_count_free, lemma_count_issue_add, lemma_free_add,
    lemma_holds_add, lemma_valid_add, valid, Diagnostics, Finding, Issue, Severity,
};
use crate::error::Fault;
use crate::open_api::{
    endpoints, find_uri, integration_uri, APIType, ApiOperation, Endpoint, OpenAPIData,
};
use crate::route::{APIPath, Route};
use crate::terraform::{functions, Function, Lambda};
use crate::text::{chars_of, contains, equal, includes};
use crate::util::HttpMethod;
use vstd::prelude::*;

verus! {

/// The mark of a `uri` that starts a state machine.
pub open spec fn state_action() -> Seq<char> {
    "state:action"@
}

/// What is said of a route whose path the specification does not declare.
pub open spec fn path_not_in_specification(route: Route, key: Seq<char>) -> Seq<char> {
    "The path "@ + route.path + " is not defined in OpenAPI for the lambda "@ + key
}

/// What is said of a route whose method the specification does not declare
/// for the path.
pub open spec fn method_not_in_specification(route: Route, key: Seq<char>) -> Seq<char> {
    "The "@ + route.method.token() + " method is not defined for the path "@ + route.path
        + " for the lambda "@ + key
}

/// What is said of a `uri` that does not hold the placeholder.
pub open spec fn placeholder_not_in_uri(placeholder: Seq<char>, route: Route, key: Seq<char>) -> Seq<
    char,
> {
    "The 'uri' doesn't contain the ARN placeholder '"@ + placeholder
        + "' in the 'x-amazon-apigateway-integration' extension for "@ + route.method.token()
        + " "@ + route.path + " for the lambda "@ + key
}

/// What is said of a `uri` that starts a state machine.
pub open spec fn execution_type_mismatch(route: Route, key: Seq<char>) -> Seq<char> {
    "The 'uri' for "@ + route.method.token() + " "@ + route.path
        + " is set up for step functions instead of the lambda "@ + key
}

/// What is said of a placeholder that no `uri` holds.
pub open spec fn placeholder_never_referenced(placeholder: Seq<char>, key: Seq<char>) -> Seq<char> {
    "The ARN placeholder '"@ + placeholder + "' of the lambda "@ + key
        + " is not used in any 'uri' in OpenAPI"@
}

/// What is said of an integration without a `uri`.
pub open spec fn missing_uri(route: Route, key: Seq<char>) -> Seq<char> {
    "The 'uri' doesn't exist in the 'x-amazon-apigateway-integration' extension for "@
        + route.method.token() + " "@ + route.path + " for the lambda "@ + key
}

/// What is said of an operation without an integration.
pub open spec fn missing_integration(route: Route, key: Seq<char>) -> Seq<char> {
    "The 'x-amazon-apigateway-integration' extension doesn't exist for the "@
        + route.method.token() + " "@ + route.path + " for the lambda "@ + key
}

/// What is held against the integration of an operation through which the
/// lambda `key`, known to the gateway as `placeholder`, answers `route`:
/// that there is none, or that it has no `uri`, or what its `uri` is blamed
/// for.
pub open spec fn integration_findings(
    operation: ApiOperation,
    key: Seq<char>,
    placeholder: Seq<char>,
    route: Route,
) -> Seq<Finding> {
    match integration_uri(operation) {
        Ok(uri) => uri_findings(uri, placeholder, key, route),
        Err(Fault::MissingIntegration) => seq![
            error(Issue::MissingIntegration, missing_integration(route, key)),
        ],
        Err(_) => seq![error(Issue::MissingUri, missing_uri(route, key))],
    }
}

/// What is said of an endpoint whose path no lambda answers.
pub open spec fn path_not_in_infrastructure(path: Seq<char>) -> Seq<char> {
    "The path "@ + path + " is not defined in Terraform"@
}

/// What is said of an endpoint whose method no lambda answers on its path.
pub open spec fn method_not_in_infrastructure(method: HttpMethod, path: Seq<char>) -> Seq<char> {
    "The "@ + method.token() + " method is not defined for the path "@ + path + " in Terraform"@
}

/// What is said of an endpoint whose backend is not checked.
pub open spec fn backend_not_checked(backend: APIType) -> Seq<char> {
    match backend {
        APIType::StepFunction => "Step Functions are currently not handled"@,
        APIType::SQS => "SQS Functions are currently not handled"@,
        _ => "Functions of this kind are currently not handled"@,
    }
}

/// The endpoint `e` answers the route `r`: on the same path, and with the
/// same method unless the route takes any.
pub open spec fn answers(e: Endpoint, r: Route) -> bool {
    e.path == r.path && (r.method == HttpMethod::Any || e.method == r.method)
}

/// Some endpoint of `es` stands on `path`.
pub open spec fn declares_path(es: Seq<Endpoint>, path: Seq<char>) -> bool {
    exists|i: int| 0 <= i < es.len() && (#[trigger] es[i]).path == path
}

/// Some endpoint of `es` answers `r`.
pub open spec fn declares_route(es: Seq<Endpoint>, r: Route) -> bool {
    exists|i: int| 0 <= i < es.len() && answers(#[trigger] es[i], r)
}

/// Some `uri` of `es` holds `placeholder`.
pub open spec fn references(es: Seq<Endpoint>, placeholder: Seq<char>) -> bool {
    exists|i: int| 0 <= i < es.len() && contains((#[trigger] es[i]).uri, placeholder)
}

/// What the `uri` of an integration is blamed for, where a lambda with
/// `placeholder` answers `route` through it: first for not holding the
/// placeholder, then for starting a state machine.
pub open spec fn uri_findings(
    uri: Seq<char>,
    placeholder: Seq<char>,
    key: Seq<char>,
    route: Route,
) -> Seq<Finding> {
    (if contains(uri, placeholder) {
        Seq::<Finding>::empty()
    } else {
        seq![error(Issue::PlaceholderNotInUri, placeholder_not_in_uri(placeholder, route, key))]
    }) + (if contains(uri, state_action()) {
        seq![error(Issue::ExecutionTypeMismatch, execution_type_mismatch(route, key))]
    } else {
        Seq::<Finding>::empty()
    })
}

/// What the endpoint `e` is blamed for on behalf of `route`: its `uri` is
/// looked at if it answers the route and a lambda backs it.
pub open spec fn endpoint_findings(
    e: Endpoint,
    placeholder: Seq<char>,
    key: Seq<char>,
    route: Route,
) -> Seq<Finding> {
    if answers(e, route) && e.backend == APIType::Lambda {
        uri_findings(e.uri, placeholder, key, route)
    } else {
        Seq::empty()
    }
}

/// What the first `n` endpoints of `es` are blamed for on behalf of `route`.
pub open spec fn answering_findings(
    es: Seq<Endpoint>,
    placeholder: Seq<char>,
    key: Seq<char>,
    route: Route,
    n: int,
) -> Seq<Finding>
    decreases n,
{
    if n <= 0 {
        Seq::empty()
    } else {
        answering_findings(es, placeholder, key, route, n - 1) + endpoint_findings(
            es[n - 1],
            placeholder,
            key,
            route,
        )
    }
}

/// What is found for one route of the lambda `key`, which the gateway knows
/// as `placeholder`: that no endpoint stands on its path; or that none
/// answers its method there; or what the endpoints that answer it are
/// blamed for, in their order.
pub open spec fn route_findings(
    es: Seq<Endpoint>,
    placeholder: Seq<char>,
    key: Seq<char>,
    route: Route,
) -> Seq<Finding> {
    if !declares_path(es, route.path) {
        seq![error(Issue::PathNotInSpecification, path_not_in_specification(route, key))]
    } else if !declares_route(es, route) {
        seq![error(Issue::MethodNotInSpecification, method_not_in_specification(route, key))]
    } else {
        answering_findings(es, placeholder, key, route, es.len() as int)
    }
}

/// What is found for the first `n` routes of a lambda.
pub open spec fn routes_findings(
    es: Seq<Endpoint>,
    placeholder: Seq<char>,
    key: Seq<char>,
    rs: Seq<Route>,
    n: int,
) -> Seq<Finding>
    decreases n,
{
    if n <= 0 {
        Seq::empty()
    } else {
        routes_findings(es, placeholder, key, rs, n - 1) + route_findings(
            es,
            placeholder,
            key,
            rs[n - 1],
        )
    }
}

/// What is found when no `uri` holds the placeholder of a lambda.
pub open spec fn reference_findings(es: Seq<Endpoint>, placeholder: Seq<char>, key: Seq<char>) -> Seq<
    Finding,
> {
    if references(es, placeholder) {
        Seq::empty()
    } else {
        seq![
            error(
                Issue::PlaceholderNeverReferenced,
                placeholder_never_referenced(placeholder, key),
            ),
        ]
    }
}

/// What the forward pass finds for one lambda. A lambda that the gateway is
/// not wired to is passed over. For any other, the findings of its routes
/// come first, in the order of the routes; then it is asked whether the
/// specification refers to its placeholder at all.
pub open spec fn function_findings(es: Seq<Endpoint>, f: Function) -> Seq<Finding> {
    match f.placeholder {
        Some(placeholder) => routes_findings(
            es,
            placeholder,
            f.key,
            f.routes,
            f.routes.len() as int,
        ) + reference_findings(es, placeholder, f.key),
        None => Seq::empty(),
    }
}

/// What the forward pass finds for the first `n` lambdas.
pub open spec fn forward_findings(fs: Seq<Function>, es: Seq<Endpoint>, n: int) -> Seq<Finding>
    decreases n,
{
    if n <= 0 {
        Seq::empty()
    } else {
        forward_findings(fs, es, n - 1) + function_findings(es, fs[n - 1])
    }
}

/// The lambda `f` answers some method on `path`.
pub open spec fn answers_path(f: Function, path: Seq<char>) -> bool {
    exists|j: int| 0 <= j < f.routes.len() && (#[trigger] f.routes[j]).path == path
}

/// The lambda `f` answers `method` on `path`, with a route of that method or
/// with one that takes any.
pub open spec fn answers_method(f: Function, path: Seq<char>, method: HttpMethod) -> bool {
    exists|j: int|
        0 <= j < f.routes.len() && (#[trigger] f.routes[j]).path == path && (f.routes[j].method
            == method || f.routes[j].method == HttpMethod::Any)
}

/// Some lambda of `fs` answers some method on `path`.
pub open spec fn wires_path(fs: Seq<Function>, path: Seq<char>) -> bool {
    exists|i: int| 0 <= i < fs.len() && answers_path(#[trigger] fs[i], path)
}

/// Some lambda of `fs` answers `method` on `path`.
pub open spec fn wires_method(fs: Seq<Function>, path: Seq<char>, method: HttpMethod) -> bool {
    exists|i: int| 0 <= i < fs.len() && answers_method(#[trigger] fs[i], path, method)
}

/// What the reverse pass finds for one endpoint. Behind a lambda, its path
/// must be answered, and its method on that path. Any other backend is
/// noted as not checked.
pub open spec fn coverage_findings(fs: Seq<Function>, e: Endpoint) -> Seq<Finding> {
    if e.backend == APIType::Lambda {
        if !wires_path(fs, e.path) {
            seq![error(Issue::PathNotInInfrastructure, path_not_in_infrastructure(e.path))]
        } else if !wires_method(fs, e.path, e.method) {
            seq![
                error(
                    Issue::MethodNotInInfrastructure,
                    method_not_in_infrastructure(e.method, e.path),
                ),
            ]
        } else {
            Seq::empty()
        }
    } else {
        seq![info(Issue::BackendNotChecked, backend_not_checked(e.backend))]
    }
}

/// What the reverse pass finds for the first `n` endpoints.
pub open spec fn reverse_findings(fs: Seq<Function>, es: Seq<Endpoint>, n: int) -> Seq<Finding>
    decreases n,
{
    if n <= 0 {
        Seq::empty()
    } else {
        reverse_findings(fs, es, n - 1) + coverage_findings(fs, es[n - 1])
    }
}

/// Everything that reconciliation finds: the forward pass over all lambdas,
/// then the reverse pass over all endpoints.
pub open spec fn reconcile(fs: Seq<Function>, es: Seq<Endpoint>) -> Seq<Finding> {
    forward_findings(fs, es, fs.len() as int) + reverse_findings(fs, es, es.len() as int)
}

fn say_path_not_in_specification(api: &APIPath, key: &str) -> (r: String)
    ensures
        r@ == path_not_in_specification(api@, key@),
{
    let mut m = "The path ".to_owned();
    m.append(api.route.as_str());
    m.append(" is not defined in OpenAPI for the lambda ");
    m.append(key);
    m
}

fn say_method_not_in_specification(api: &APIPath, key: &str) -> (r: String)
    ensures
        r@ == method_not_in_specification(api@, key@),
{
    let mut m = "The ".to_owned();
    m.append(api.method.as_str());
    m.append(" method is not defined for the path ");
    m.append(api.route.as_str());
    m.append(" for the lambda ");
    m.append(key);
    m
}

fn say_placeholder_not_in_uri(placeholder: &str, api: &APIPath, key: &str) -> (r: String)
    ensures
        r@ == placeholder_not_in_uri(placeholder@, api@, key@),
{
    let mut m = "The 'uri' doesn't contain the ARN placeholder '".to_owned();
    m.append(placeholder);
    m.append("' in the 'x-amazon-apigateway-integration' extension for ");
    m.append(api.method.as_str());
    m.append(" ");
    m.append(api.route.as_str());
    m.append(" for the lambda ");
    m.append(key);
    m
}

fn say_execution_type_mismatch(api: &APIPath, key: &str) -> (r: String)
    ensures
        r@ == execution_type_mismatch(api@, key@),
{
    let mut m = "The 'uri' for ".to_owned();
    m.append(api.method.as_str());
    m.append(" ");
    m.append(api.route.as_str());
    m.append(" is set up for step functions instead of the lambda ");
    m.append(key);
    m
}

fn say_placeholder_never_referenced(placeholder: &str, key: &str) -> (r: String)
    ensures
        r@ == placeholder_never_referenced(placeholder@, key@),
{
    let mut m = "The ARN placeholder '".to_owned();
    m.append(placeholder);
    m.append("' of the lambda ");
    m.append(key);
    m.append(" is not used in any 'uri' in OpenAPI");
    m
}

fn say_path_not_in_infrastructure(path: &str) -> (r: String)
    ensures
        r@ == path_not_in_infrastructure(path@),
{
    let mut m = "The path ".to_owned();
    m.append(path);
    m.append(" is not defined in Terraform");
    m
}

fn say_method_not_in_infrastructure(method: HttpMethod, path: &str) -> (r: String)
    ensures
        r@ == method_not_in_infrastructure(method, path@),
{
    let mut m = "The ".to_owned();
    m.append(method.as_str());
    m.append(" method is not defined for the path ");
    m.append(path);
    m.append(" in Terraform");
    m
}

fn say_backend_not_checked(backend: APIType) -> (r: String)
    ensures
        r@ == backend_not_checked(backend),
{
    match backend {
        APIType::StepFunction => "Step Functions are currently not handled".to_owned(),
        APIType::SQS => "SQS Functions are currently not handled".to_owned(),
        _ => "Functions of this kind are currently not handled".to_owned(),
    }
}

/// Whether `text` holds `pattern`.
pub fn holds(text: &str, pattern: &str) -> (r: bool)
    ensures
        r == contains(text@, pattern@),
{
    let t = chars_of(text);
    let p = chars_of(pattern);
    includes(t.as_slice(), p.as_slice())
}

/// Looks at the `uri` of an integration through which the lambda
/// `lambda_key`, known to the gateway as `arn_key`, answers `api`.
pub fn validate_uri(uri: &str, arn_key: &str, lambda_key: &str, api: &APIPath) -> (r: Diagnostics)
    ensures
        r@ == uri_findings(uri@, arn_key@, lambda_key@, api@),
{
    let mut found = Diagnostics::new();
    if !holds(uri, arn_key) {
        found.error(
            Issue::PlaceholderNotInUri,
            say_placeholder_not_in_uri(arn_key, api, lambda_key),
        );
    }
    if holds(uri, "state:action") {
        found.error(Issue::ExecutionTypeMismatch, say_execution_type_mismatch(api, lambda_key));
    }
    found
}

fn say_missing_uri(api: &APIPath, key: &str) -> (r: String)
    ensures
        r@ == missing_uri(api@, key@),
{
    let mut m =
        "The 'uri' doesn't exist in the 'x-amazon-apigateway-integration' extension for ".to_owned();
    m.append(api.method.as_str());
    m.append(" ");
    m.append(api.route.as_str());
    m.append(" for the lambda ");
    m.append(key);
    m
}

fn say_missing_integration(api: &APIPath, key: &str) -> (r: String)
    ensures
        r@ == missing_integration(api@, key@),
{
    let mut m = "The 'x-amazon-apigateway-integration' extension doesn't exist for the ".to_owned();
    m.append(api.method.as_str());
    m.append(" ");
    m.append(api.route.as_str());
    m.append(" for the lambda ");
    m.append(key);
    m
}

/// Looks at the integration of an operation through which the lambda
/// `lambda_key`, known to the gateway as `arn_key`, answers `api`.
pub fn validate_aws_api_gateway_integration(
    config: &ApiOperation,
    lambda_key: &str,
    arn_key: &str,
    api: &APIPath,
) -> (r: Diagnostics)
    ensures
        r@ == integration_findings(*config, lambda_key@, arn_key@, api@),
{
    match find_uri(config) {
        Ok(uri) => validate_uri(uri.as_str(), arn_key, lambda_key, api),
        Err(Fault::MissingIntegration) => {
            let mut found = Diagnostics::new();
            found.error(Issue::MissingIntegration, say_missing_integration(api, lambda_key));
            found
        },
        Err(_) => {
            let mut found = Diagnostics::new();
            found.error(Issue::MissingUri, say_missing_uri(api, lambda_key));
            found
        },
    }
}

/// Looks for one route of a lambda among the endpoints.
pub fn validate_lambda_against_open_api(
    open_api_data: &[OpenAPIData],
    arn_key: &str,
    lambda_key: &str,
    api: &APIPath,
) -> (r: Diagnostics)
    ensures
        r@ == route_findings(endpoints(open_api_data@), arn_key@, lambda_key@, api@),
{
    let ghost es = endpoints(open_api_data@);
    let mut path_declared = false;
    let mut route_declared = false;
    let mut found = Diagnostics::new();
    let mut i: usize = 0;
    while i < open_api_data.len()
        invariant
            i <= open_api_data.len(),
            es == endpoints(open_api_data@),
            path_declared == (exists|k: int| 0 <= k < i && (#[trigger] es[k]).path == api@.path),
            route_declared == (exists|k: int| 0 <= k < i && answers(#[trigger] es[k], api@)),
            found@ == answering_findings(es, arn_key@, lambda_key@, api@, i as int),
        decreases open_api_data.len() - i,
    {
        let item = &open_api_data[i];
        assert(es[i as int] == item@);
        if item.path == api.route {
            path_declared = true;
            if api.method == HttpMethod::Any || item.method == api.method {
                route_declared = true;
                if item.execution_type == APIType::Lambda {
                    found.append(validate_uri(item.uri.as_str(), arn_key, lambda_key, api));
                }
            }
        }
        i += 1;
    }
    if !path_declared {
        let mut only = Diagnostics::new();
        only.error(Issue::PathNotInSpecification, say_path_not_in_specification(api, lambda_key));
        only
    } else if !route_declared {
        let mut only = Diagnostics::new();
        only.error(
            Issue::MethodNotInSpecification,
            say_method_not_in_specification(api, lambda_key),
        );
        only
    } else {
        found
    }
}

/// Whether some `uri` of the endpoints holds `placeholder`.
pub fn is_referenced(open_api_data: &[OpenAPIData], placeholder: &str) -> (r: bool)
    ensures
        r == references(endpoints(open_api_data@), placeholder@),
{
    let ghost es = endpoints(open_api_data@);
    let mut i: usize = 0;
    while i < open_api_data.len()
        invariant
            i <= open_api_data.len(),
            es == endpoints(open_api_data@),
            forall|k: int| 0 <= k < i ==> !contains((#[trigger] es[k]).uri, placeholder@),
        decreases open_api_data.len() - i,
    {
        assert(es[i as int] == open_api_data@[i as int]@);
        if holds(open_api_data[i].uri.as_str(), placeholder) {
            return true;
        }
        i += 1;
    }
    false
}

/// The forward pass for one lambda.
pub fn validate_wiring(open_api_data: &[OpenAPIData], lambda: &Lambda) -> (r: Diagnostics)
    ensures
        r@ == function_findings(endpoints(open_api_data@), lambda@),
{
    let mut found = Diagnostics::new();
    if let Some(arn_key) = &lambda.arn_template_key {
        let ghost es = endpoints(open_api_data@);
        let mut j: usize = 0;
        while j < lambda.apis.len()
            invariant
                j <= lambda.apis.len(),
                es == endpoints(open_api_data@),
                found@ == routes_findings(es, arn_key@, lambda@.key, lambda@.routes, j as int),
            decreases lambda.apis.len() - j,
        {
            assert(lambda@.routes[j as int] == lambda.apis@[j as int]@);
            found.append(
                validate_lambda_against_open_api(
                    open_api_data,
                    arn_key.as_str(),
                    lambda.key.as_str(),
                    &lambda.apis[j],
                ),
            );
            j += 1;
        }
        if !is_referenced(open_api_data, arn_key.as_str()) {
            found.error(
                Issue::PlaceholderNeverReferenced,
                say_placeholder_never_referenced(arn_key.as_str(), lambda.key.as_str()),
            );
        }
    }
    found
}

/// Whether the lambda answers some method on `path`, and whether it answers
/// `method` there.
fn lambda_answers(lambda: &Lambda, path: &str, method: HttpMethod) -> (r: (bool, bool))
    ensures
        r.0 == answers_path(lambda@, path@),
        r.1 == answers_method(lambda@, path@, method),
{
    let ghost f = lambda@;
    let mut on_path = false;
    let mut with_method = false;
    let mut j: usize = 0;
    while j < lambda.apis.len()
        invariant
            j <= lambda.apis.len(),
            f == lambda@,
            on_path == (exists|k: int| 0 <= k < j && (#[trigger] f.routes[k]).path == path@),
            with_method == (exists|k: int|
                0 <= k < j && (#[trigger] f.routes[k]).path == path@ && (f.routes[k].method
                    == method || f.routes[k].method == HttpMethod::Any)),
        decreases lambda.apis.len() - j,
    {
        let api = &lambda.apis[j];
        assert(f.routes[j as int] == api@);
        if equal(api.route.as_str(), path) {
            on_path = true;
            if api.method == method || api.method == HttpMethod::Any {
                with_method = true;
            }
        }
        j += 1;
    }
    (on_path, with_method)
}

/// The reverse pass for one endpoint.
pub fn validate_endpoint(lambda_data: &[Lambda], open_api_item: &OpenAPIData) -> (r: Diagnostics)
    ensures
        r@ == coverage_findings(functions(lambda_data@), open_api_item@),
{
    let mut found = Diagnostics::new();
    if open_api_item.execution_type != APIType::Lambda {
        found.info(Issue::BackendNotChecked, say_backend_not_checked(open_api_item.execution_type));
        return found;
    }
    let ghost fs = functions(lambda_data@);
    let ghost e = open_api_item@;
    let mut on_path = false;
    let mut with_method = false;
    let mut i: usize = 0;
    while i < lambda_data.len()
        invariant
            i <= lambda_data.len(),
            fs == functions(lambda_data@),
            e == open_api_item@,
            on_path == (exists|k: int| 0 <= k < i && answers_path(#[trigger] fs[k], e.path)),
            with_method == (exists|k: int|
                0 <= k < i && answers_method(#[trigger] fs[k], e.path, e.method)),
        decreases lambda_data.len() - i,
    {
        assert(fs[i as int] == lambda_data@[i as int]@);
        let seen = lambda_answers(
            &lambda_data[i],
            open_api_item.path.as_str(),
            open_api_item.method,
        );
        on_path = on_path || seen.0;
        with_method = with_method || seen.1;
        i += 1;
    }
    if !on_path {
        found.error(
            Issue::PathNotInInfrastructure,
            say_path_not_in_infrastructure(open_api_item.path.as_str()),
        );
    } else if !with_method {
        found.error(
            Issue::MethodNotInInfrastructure,
            say_method_not_in_infrastructure(open_api_item.method, open_api_item.path.as_str()),
        );
    }
    found
}

/// Reconciles the lambdas of the infrastructure with the endpoints of the
/// specification. The result holds every mismatch, those of the forward
/// pass before those of the reverse pass. It is valid exactly if the two
/// agree.
pub fn cross_validation(lambda_data: Vec<Lambda>, open_api_data: Vec<OpenAPIData>) -> (r:
    Diagnostics)
    ensures
        r@ == reconcile(functions(lambda_data@), endpoints(open_api_data@)),
        valid(r@) <==> agree(functions(lambda_data@), endpoints(open_api_data@)),
{
    proof {
        lemma_valid_means_agreement(functions(lambda_data@), endpoints(open_api_data@));
    }
    let ghost fs = functions(lambda_data@);
    let ghost es = endpoints(open_api_data@);
    let mut found = Diagnostics::new();
    let mut i: usize = 0;
    while i < lambda_data.len()
        invariant
            i <= lambda_data.len(),
            fs == functions(lambda_data@),
            es == endpoints(open_api_data@),
            found@ == forward_findings(fs, es, i as int),
        decreases lambda_data.len() - i,
    {
        assert(fs[i as int] == lambda_data@[i as int]@);
        found.append(validate_wiring(open_api_data.as_slice(), &lambda_data[i]));
        i += 1;
    }
    let ghost forward = found@;
    let mut k: usize = 0;
    while k < open_api_data.len()
        invariant
            k <= open_api_data.len(),
            fs == functions(lambda_data@),
            es == endpoints(open_api_data@),
            found@ == forward + reverse_findings(fs, es, k as int),
        decreases open_api_data.len() - k,
    {
        assert(es[k as int] == open_api_data@[k as int]@);
        let ghost before = reverse_findings(fs, es, k as int);
        found.append(validate_endpoint(lambda_data.as_slice(), &open_api_data[k]));
        assert(found@ == forward + (before + coverage_findings(fs, es[k as int])));
        k += 1;
    }
    found
}

/// What is found for a route is none of it about a placeholder that is
/// never referred to.
pub proof fn lemma_route_findings_free(
    es: Seq<Endpoint>,
    placeholder: Seq<char>,
    key: Seq<char>,
    route: Route,
)
    ensures
        free_of(route_findings(es, placeholder, key, route), Issue::PlaceholderNeverReferenced),
{
    lemma_answering_findings_free(es, placeholder, key, route, es.len() as int);
}

/// Nor is what the endpoints that answer a route are blamed for.
pub proof fn lemma_answering_findings_free(
    es: Seq<Endpoint>,
    placeholder: Seq<char>,
    key: Seq<char>,
    route: Route,
    n: int,
)
    ensures
        free_of(
            answering_findings(es, placeholder, key, route, n),
            Issue::PlaceholderNeverReferenced,
        ),
    decreases n,
{
    if n > 0 {
        lemma_answering_findings_free(es, placeholder, key, route, n - 1);
        lemma_free_add(
            answering_findings(es, placeholder, key, route, n - 1),
            endpoint_findings(es[n - 1], placeholder, key, route),
            Issue::PlaceholderNeverReferenced,
        );
    }
}

/// Nor is what is found for the routes of a lambda.
pub proof fn lemma_routes_findings_free(
    es: Seq<Endpoint>,
    placeholder: Seq<char>,
    key: Seq<char>,
    rs: Seq<Route>,
    n: int,
)
    ensures
        free_of(routes_findings(es, placeholder, key, rs, n), Issue::PlaceholderNeverReferenced),
    decreases n,
{
    if n > 0 {
        lemma_routes_findings_free(es, placeholder, key, rs, n - 1);
        lemma_route_findings_free(es, placeholder, key, rs[n - 1]);
        lemma_free_add(
            routes_findings(es, placeholder, key, rs, n - 1),
            route_findings(es, placeholder, key, rs[n - 1]),
            Issue::PlaceholderNeverReferenced,
        );
    }
}

/// Nor is what the reverse pass finds.
pub proof fn lemma_reverse_findings_free(fs: Seq<Function>, es: Seq<Endpoint>, n: int)
    ensures
        free_of(reverse_findings(fs, es, n), Issue::PlaceholderNeverReferenced),
    decreases n,
{
    if n > 0 {
        lemma_reverse_findings_free(fs, es, n - 1);
        lemma_free_add(
            reverse_findings(fs, es, n - 1),
            coverage_findings(fs, es[n - 1]),
            Issue::PlaceholderNeverReferenced,
        );
    }
}

/// The placeholder of the lambda `f` dangles: the gateway is wired to the
/// lambda, and no `uri` of the specification holds the placeholder.
pub open spec fn dangles(es: Seq<Endpoint>, f: Function) -> bool {
    f.placeholder matches Some(placeholder) && !references(es, placeholder)
}

/// How many of the first `n` lambdas have a placeholder that dangles.
pub open spec fn dangling(fs: Seq<Function>, es: Seq<Endpoint>, n: int) -> nat
    decreases n,
{
    if n <= 0 {
        0
    } else {
        dangling(fs, es, n - 1) + if dangles(es, fs[n - 1]) {
            1nat
        } else {
            0nat
        }
    }
}

/// A lambda whose placeholder no `uri` of the specification holds gets
/// exactly one error for it, whatever is found for its routes. A lambda
/// whose placeholder is held somewhere, or that has none, gets no such
/// error.
pub proof fn lemma_one_error_for_dangling_placeholder(es: Seq<Endpoint>, f: Function)
    ensures
        count_issue(function_findings(es, f), Issue::PlaceholderNeverReferenced) == if dangles(
            es,
            f,
        ) {
            1nat
        } else {
            0nat
        },
        dangles(es, f) ==> function_findings(es, f).last() == error(
            Issue::PlaceholderNeverReferenced,
            placeholder_never_referenced(f.placeholder->0, f.key),
        ),
{
    match f.placeholder {
        Some(placeholder) => {
            let routed = routes_findings(es, placeholder, f.key, f.routes, f.routes.len() as int);
            let referred = reference_findings(es, placeholder, f.key);
            lemma_routes_findings_free(es, placeholder, f.key, f.routes, f.routes.len() as int);
            lemma_count_free(routed, Issue::PlaceholderNeverReferenced);
            lemma_count_issue_add(routed, referred, Issue::PlaceholderNeverReferenced);
            if !references(es, placeholder) {
                assert(referred.drop_last() =~= Seq::<Finding>::empty());
                reveal_with_fuel(count_issue, 2);
            }
        },
        None => {},
    }
}

/// A run holds as many errors about placeholders that are never referred
/// to as there are lambdas whose placeholder dangles.
pub proof fn lemma_errors_for_dangling_placeholders(fs: Seq<Function>, es: Seq<Endpoint>)
    ensures
        count_issue(reconcile(fs, es), Issue::PlaceholderNeverReferenced) == dangling(
            fs,
            es,
            fs.len() as int,
        ),
{
    lemma_forward_counts_dangling(fs, es, fs.len() as int);
    lemma_reverse_findings_free(fs, es, es.len() as int);
    lemma_count_free(reverse_findings(fs, es, es.len() as int), Issue::PlaceholderNeverReferenced);
    lemma_count_issue_add(
        forward_findings(fs, es, fs.len() as int),
        reverse_findings(fs, es, es.len() as int),
        Issue::PlaceholderNeverReferenced,
    );
}

/// The forward pass over the first `n` lambdas holds one such error for
/// each of them whose placeholder dangles.
pub proof fn lemma_forward_counts_dangling(fs: Seq<Function>, es: Seq<Endpoint>, n: int)
    ensures
        count_issue(forward_findings(fs, es, n), Issue::PlaceholderNeverReferenced) == dangling(
            fs,
            es,
            n,
        ),
    decreases n,
{
    if n > 0 {
        lemma_forward_counts_dangling(fs, es, n - 1);
        lemma_one_error_for_dangling_placeholder(es, fs[n - 1]);
        lemma_count_issue_add(
            forward_findings(fs, es, n - 1),
            function_findings(es, fs[n - 1]),
            Issue::PlaceholderNeverReferenced,
        );
    }
}

/// What is found for one of the first `n` routes of a lambda is among what
/// is found for these routes.
pub proof fn lemma_routes_findings_hold(
    es: Seq<Endpoint>,
    placeholder: Seq<char>,
    key: Seq<char>,
    rs: Seq<Route>,
    n: int,
    j: int,
    x: Finding,
)
    requires
        0 <= j < n,
        route_findings(es, placeholder, key, rs[j]).contains(x),
    ensures
        routes_findings(es, placeholder, key, rs, n).contains(x),
    decreases n,
{
    if j < n - 1 {
        lemma_routes_findings_hold(es, placeholder, key, rs, n - 1, j, x);
    }
    lemma_holds_add(
        routes_findings(es, placeholder, key, rs, n - 1),
        route_findings(es, placeholder, key, rs[n - 1]),
        x,
    );
}

/// What the forward pass finds for one of the first `n` lambdas is among
/// what it finds for these lambdas.
pub proof fn lemma_forward_findings_hold(
    fs: Seq<Function>,
    es: Seq<Endpoint>,
    n: int,
    i: int,
    x: Finding,
)
    requires
        0 <= i < n,
        function_findings(es, fs[i]).contains(x),
    ensures
        forward_findings(fs, es, n).contains(x),
    decreases n,
{
    if i < n - 1 {
        lemma_forward_findings_hold(fs, es, n - 1, i, x);
    }
    lemma_holds_add(forward_findings(fs, es, n - 1), function_findings(es, fs[n - 1]), x);
}

/// What the reverse pass finds for one of the first `n` endpoints is among
/// what it finds for these endpoints.
pub proof fn lemma_reverse_findings_hold(
    fs: Seq<Function>,
    es: Seq<Endpoint>,
    n: int,
    k: int,
    x: Finding,
)
    requires
        0 <= k < n,
        coverage_findings(fs, es[k]).contains(x),
    ensures
        reverse_findings(fs, es, n).contains(x),
    decreases n,
{
    if k < n - 1 {
        lemma_reverse_findings_hold(fs, es, n - 1, k, x);
    }
    lemma_holds_add(reverse_findings(fs, es, n - 1), coverage_findings(fs, es[n - 1]), x);
}

/// The forward pass reports every route that is absent from the
/// specification: where the gateway is wired to a lambda and no endpoint
/// stands on the path of one of its routes, the run holds the error for
/// that route.
pub proof fn lemma_forward_reports_missing_path(
    fs: Seq<Function>,
    es: Seq<Endpoint>,
    i: int,
    j: int,
)
    requires
        0 <= i < fs.len(),
        fs[i].placeholder is Some,
        0 <= j < fs[i].routes.len(),
        !declares_path(es, fs[i].routes[j].path),
    ensures
        reconcile(fs, es).contains(
            error(
                Issue::PathNotInSpecification,
                path_not_in_specification(fs[i].routes[j], fs[i].key),
            ),
        ),
{
    let f = fs[i];
    let placeholder = f.placeholder->0;
    let x = error(Issue::PathNotInSpecification, path_not_in_specification(f.routes[j], f.key));
    assert(route_findings(es, placeholder, f.key, f.routes[j])[0] == x);
    lemma_routes_findings_hold(es, placeholder, f.key, f.routes, f.routes.len() as int, j, x);
    lemma_holds_add(
        routes_findings(es, placeholder, f.key, f.routes, f.routes.len() as int),
        reference_findings(es, placeholder, f.key),
        x,
    );
    lemma_forward_findings_hold(fs, es, fs.len() as int, i, x);
    lemma_holds_add(
        forward_findings(fs, es, fs.len() as int),
        reverse_findings(fs, es, es.len() as int),
        x,
    );
}

/// The reverse pass reports every endpoint that is absent from the
/// infrastructure: where a lambda backs an endpoint and no lambda answers
/// on its path, the run holds the error for that endpoint.
pub proof fn lemma_reverse_reports_missing_path(fs: Seq<Function>, es: Seq<Endpoint>, k: int)
    requires
        0 <= k < es.len(),
        es[k].backend == APIType::Lambda,
        !wires_path(fs, es[k].path),
    ensures
        reconcile(fs, es).contains(
            error(Issue::PathNotInInfrastructure, path_not_in_infrastructure(es[k].path)),
        ),
{
    let x = error(Issue::PathNotInInfrastructure, path_not_in_infrastructure(es[k].path));
    assert(coverage_findings(fs, es[k])[0] == x);
    lemma_reverse_findings_hold(fs, es, es.len() as int, k, x);
    lemma_holds_add(
        forward_findings(fs, es, fs.len() as int),
        reverse_findings(fs, es, es.len() as int),
        x,
    );
}

/// Both passes report in one run, each what it misses: a route that is
/// absent from the specification and an endpoint that is absent from the
/// infrastructure are both held against the same run.
pub proof fn lemma_both_passes_report(
    fs: Seq<Function>,
    es: Seq<Endpoint>,
    i: int,
    j: int,
    k: int,
)
    requires
        0 <= i < fs.len(),
        fs[i].placeholder is Some,
        0 <= j < fs[i].routes.len(),
        !declares_path(es, fs[i].routes[j].path),
        0 <= k < es.len(),
        es[k].backend == APIType::Lambda,
        !wires_path(fs, es[k].path),
    ensures
        reconcile(fs, es).contains(
            error(
                Issue::PathNotInSpecification,
                path_not_in_specification(fs[i].routes[j], fs[i].key),
            ),
        ),
        reconcile(fs, es).contains(
            error(Issue::PathNotInInfrastructure, path_not_in_infrastructure(es[k].path)),
        ),
        !valid(reconcile(fs, es)),
{
    lemma_forward_reports_missing_path(fs, es, i, j);
    lemma_reverse_reports_missing_path(fs, es, k);
    let x = error(Issue::PathNotInInfrastructure, path_not_in_infrastructure(es[k].path));
    let at = choose|at: int| 0 <= at < reconcile(fs, es).len() && reconcile(fs, es)[at] == x;
    assert(reconcile(fs, es)[at].severity == Severity::Error);
}

/// The `uri` of an integration is in order for a lambda: it holds the
/// placeholder of the lambda and does not start a state machine.
pub open spec fn uri_in_order(uri: Seq<char>, placeholder: Seq<char>) -> bool {
    contains(uri, placeholder) && !contains(uri, state_action())
}

/// The route of a lambda is served: some endpoint answers it, and every
/// endpoint that answers it and that a lambda backs has its `uri` in order.
pub open spec fn route_served(es: Seq<Endpoint>, placeholder: Seq<char>, route: Route) -> bool {
    &&& declares_route(es, route)
    &&& forall|k: int|
        0 <= k < es.len() && answers(#[trigger] es[k], route) && es[k].backend == APIType::Lambda
            ==> uri_in_order(es[k].uri, placeholder)
}

/// The lambda is served: the gateway is not wired to it, or all its routes
/// are served and the specification refers to its placeholder.
pub open spec fn function_served(es: Seq<Endpoint>, f: Function) -> bool {
    f.placeholder matches Some(placeholder) ==> {
        &&& references(es, placeholder)
        &&& forall|j: int|
            0 <= j < f.routes.len() ==> route_served(es, placeholder, #[trigger] f.routes[j])
    }
}

/// The endpoint is wired: no lambda backs it, or some lambda answers its
/// method on its path.
pub open spec fn endpoint_wired(fs: Seq<Function>, e: Endpoint) -> bool {
    e.backend == APIType::Lambda ==> wires_method(fs, e.path, e.method)
}

/// The infrastructure and the specification agree: every lambda is served
/// and every endpoint is wired.
pub open spec fn agree(fs: Seq<Function>, es: Seq<Endpoint>) -> bool {
    &&& forall|i: int| 0 <= i < fs.len() ==> function_served(es, #[trigger] fs[i])
    &&& forall|k: int| 0 <= k < es.len() ==> endpoint_wired(fs, #[trigger] es[k])
}

/// What the endpoints that answer a route are blamed for holds no error
/// exactly if the `uri` of each that a lambda backs is in order.
pub proof fn lemma_answering_valid(
    es: Seq<Endpoint>,
    placeholder: Seq<char>,
    key: Seq<char>,
    route: Route,
    n: int,
)
    requires
        n <= es.len(),
    ensures
        valid(answering_findings(es, placeholder, key, route, n)) <==> (forall|k: int|
            0 <= k < n && answers(#[trigger] es[k], route) && es[k].backend == APIType::Lambda
                ==> uri_in_order(es[k].uri, placeholder)),
    decreases n,
{
    if n > 0 {
        lemma_answering_valid(es, placeholder, key, route, n - 1);
        let before = answering_findings(es, placeholder, key, route, n - 1);
        let last = endpoint_findings(es[n - 1], placeholder, key, route);
        lemma_valid_add(before, last);
        if answers(es[n - 1], route) && es[n - 1].backend == APIType::Lambda {
            if uri_in_order(es[n - 1].uri, placeholder) {
                assert(last =~= Seq::<Finding>::empty());
            } else {
                assert(last[0].severity == Severity::Error);
            }
        }
    }
}

/// What is found for a route holds no error exactly if the route is served.
pub proof fn lemma_route_valid(
    es: Seq<Endpoint>,
    placeholder: Seq<char>,
    key: Seq<char>,
    route: Route,
)
    ensures
        valid(route_findings(es, placeholder, key, route)) <==> route_served(
            es,
            placeholder,
            route,
        ),
{
    let found = route_findings(es, placeholder, key, route);
    lemma_answering_valid(es, placeholder, key, route, es.len() as int);
    if !declares_path(es, route.path) {
        assert(found[0].severity == Severity::Error);
        if declares_route(es, route) {
            let k = choose|k: int| 0 <= k < es.len() && answers(#[trigger] es[k], route);
            assert(es[k].path == route.path);
        }
    } else if !declares_route(es, route) {
        assert(found[0].severity == Severity::Error);
    }
}

/// What is found for the first `n` routes of a lambda holds no error
/// exactly if each of them is served.
pub proof fn lemma_routes_valid(
    es: Seq<Endpoint>,
    placeholder: Seq<char>,
    key: Seq<char>,
    rs: Seq<Route>,
    n: int,
)
    requires
        n <= rs.len(),
    ensures
        valid(routes_findings(es, placeholder, key, rs, n)) <==> (forall|j: int|
            0 <= j < n ==> route_served(es, placeholder, #[trigger] rs[j])),
    decreases n,
{
    if n > 0 {
        lemma_routes_valid(es, placeholder, key, rs, n - 1);
        lemma_route_valid(es, placeholder, key, rs[n - 1]);
        lemma_valid_add(
            routes_findings(es, placeholder, key, rs, n - 1),
            route_findings(es, placeholder, key, rs[n - 1]),
        );
    }
}

/// What the forward pass finds for a lambda holds no error exactly if the
/// lambda is served.
pub proof fn lemma_function_valid(es: Seq<Endpoint>, f: Function)
    ensures
        valid(function_findings(es, f)) <==> function_served(es, f),
{
    match f.placeholder {
        Some(placeholder) => {
            let routed = routes_findings(es, placeholder, f.key, f.routes, f.routes.len() as int);
            let referred = reference_findings(es, placeholder, f.key);
            lemma_routes_valid(es, placeholder, f.key, f.routes, f.routes.len() as int);
            lemma_valid_add(routed, referred);
            if !references(es, placeholder) {
                assert(referred[0].severity == Severity::Error);
            }
        },
        None => {},
    }
}

/// What the forward pass finds for the first `n` lambdas holds no error
/// exactly if each of them is served.
pub proof fn lemma_forward_valid(fs: Seq<Function>, es: Seq<Endpoint>, n: int)
    requires
        n <= fs.len(),
    ensures
        valid(forward_findings(fs, es, n)) <==> (forall|i: int|
            0 <= i < n ==> function_served(es, #[trigger] fs[i])),
    decreases n,
{
    if n > 0 {
        lemma_forward_valid(fs, es, n - 1);
        lemma_function_valid(es, fs[n - 1]);
        lemma_valid_add(forward_findings(fs, es, n - 1), function_findings(es, fs[n - 1]));
    }
}

/// A lambda that answers a method on a path answers on the path.
pub proof fn lemma_method_on_path(fs: Seq<Function>, path: Seq<char>, method: HttpMethod)
    requires
        wires_method(fs, path, method),
    ensures
        wires_path(fs, path),
{
    let i = choose|i: int| 0 <= i < fs.len() && answers_method(#[trigger] fs[i], path, method);
    let j = choose|j: int|
        0 <= j < fs[i].routes.len() && (#[trigger] fs[i].routes[j]).path == path && (
        fs[i].routes[j].method == method || fs[i].routes[j].method == HttpMethod::Any);
    assert(fs[i].routes[j].path == path);
    assert(answers_path(fs[i], path));
}

/// What the reverse pass finds for an endpoint holds no error exactly if
/// the endpoint is wired.
pub proof fn lemma_coverage_valid(fs: Seq<Function>, e: Endpoint)
    ensures
        valid(coverage_findings(fs, e)) <==> endpoint_wired(fs, e),
{
    let found = coverage_findings(fs, e);
    if e.backend == APIType::Lambda {
        if wires_method(fs, e.path, e.method) {
            lemma_method_on_path(fs, e.path, e.method);
        } else {
            assert(found[0].severity == Severity::Error);
        }
    } else {
        assert(found[0].severity == Severity::Info);
    }
}

/// What the reverse pass finds for the first `n` endpoints holds no error
/// exactly if each of them is wired.
pub proof fn lemma_reverse_valid(fs: Seq<Function>, es: Seq<Endpoint>, n: int)
    requires
        n <= es.len(),
    ensures
        valid(reverse_findings(fs, es, n)) <==> (forall|k: int|
            0 <= k < n ==> endpoint_wired(fs, #[trigger] es[k])),
    decreases n,
{
    if n > 0 {
        lemma_reverse_valid(fs, es, n - 1);
        lemma_coverage_valid(fs, es[n - 1]);
        lemma_valid_add(reverse_findings(fs, es, n - 1), coverage_findings(fs, es[n - 1]));
    }
}

/// A run is valid exactly if the infrastructure and the specification
/// agree.
pub proof fn lemma_valid_means_agreement(fs: Seq<Function>, es: Seq<Endpoint>)
    ensures
        valid(reconcile(fs, es)) <==> agree(fs, es),
{
    lemma_forward_valid(fs, es, fs.len() as int);
    lemma_reverse_valid(fs, es, es.len() as int);
    lemma_valid_add(
        forward_findings(fs, es, fs.len() as int),
        reverse_findings(fs, es, es.len() as int),
    );
}

/// Reconciling the same lambdas with the same endpoints again finds the
/// same: nothing of one run is carried into the next.
pub proof fn lemma_reconciled_again(
    lambda_data: Vec<Lambda>,
    open_api_data: Vec<OpenAPIData>,
    first: Diagnostics,
    second: Diagnostics,
)
    requires
        first@ == reconcile(functions(lambda_data@), endpoints(open_api_data@)),
        second@ == reconcile(functions(lambda_data@), endpoints(open_api_data@)),
    ensures
        first@ == second@,
        valid(first@) == valid(second@),
{
}

} // verus!
