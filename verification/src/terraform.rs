//! The infrastructure side: the lambdas that Terraform declares, and what
//! each of them is wired to.
//!
//! The model is built in stages, each from one file: the registry of
//! lambdas, the permissions to invoke them, the gateway, and the state
//! machines where there are any. A last pass asks of every lambda whether
//! what the stages found fits together.

use crate::config::{config_of, read_config};
use crate::diagnostics::{error, valid, warning, Diagnostics, Finding, Issue};
use crate::error::{Failure, ModelError};
use crate::permissions::{
    lemma_permissions_keep, permissions_of_text, validate_lambda_permissions,
};
use crate::registry::{
    consistent, declared_in, distinct, lemma_consistent_is_distinct, lemma_distinct_stays,
    registry, registry_of_text, same_lambdas, validate_lambda,
};
pub use crate::route::{extract_api_and_method, handle_api_gateway_lambda, APIPath};
use crate::route::{routes, Route};
use crate::text::lines;
use crate::wiring::{
    extract_api_gw, extract_step_function, gateway_of_text, lemma_state_machines_keep,
    lemma_wired_keeps, state_machines_of_text,
};
use vstd::prelude::*;

verus! {

/// The Lambda trigger type
#[derive(Debug, Clone, Copy, PartialEq, Eq, Structural, PartialOrd, Ord, Hash)]
pub enum LambdaTriggerType {
    /// Step Function
    StepFunction,
    /// API Gateway
    ApiGateway,
    /// Event Bridge
    EventBridge,
    /// Scheduler
    Scheduler,
}

impl Default for LambdaTriggerType {
    fn default() -> (r: LambdaTriggerType)
        ensures
            r == LambdaTriggerType::ApiGateway,
    {
        LambdaTriggerType::ApiGateway
    }
}

/// The Lambda data that gets extracted
#[derive(Debug, Clone, PartialEq, Eq, PartialOrd, Ord)]
pub struct Lambda {
    /// Terraform lambda key
    pub key: String,
    /// The lambda handler
    pub handler: String,
    /// Is a step function
    pub step_function: bool,
    /// List of APIs and HTTP methods
    pub apis: Vec<APIPath>,
    /// ARN template key
    pub arn_template_key: Option<String>,
    /// Lambda type
    pub lambda_type: LambdaTriggerType,
}

/// One lambda and everything it is wired to.
pub struct Function {
    /// The key under which Terraform declares the lambda.
    pub key: Seq<char>,
    /// The handler that the lambda runs.
    pub handler: Seq<char>,
    /// Whether a state machine refers to the lambda.
    pub step_function: bool,
    /// The routes that the lambda answers, in the order of their permissions.
    pub routes: Seq<Route>,
    /// The token that stands for the lambda in the specification, if the
    /// gateway is wired to it.
    pub placeholder: Option<Seq<char>>,
    /// What triggers the lambda.
    pub trigger: LambdaTriggerType,
}

impl View for Lambda {
    type V = Function;

    open spec fn view(&self) -> Function {
        Function {
            key: self.key@,
            handler: self.handler@,
            step_function: self.step_function,
            routes: routes(self.apis@),
            placeholder: match self.arn_template_key {
                Some(token) => Some(token@),
                None => None,
            },
            trigger: self.lambda_type,
        }
    }
}

/// A lambda that has only a key and a handler yet.
pub open spec fn declared(key: Seq<char>, handler: Seq<char>) -> Function {
    Function {
        key,
        handler,
        step_function: false,
        routes: Seq::empty(),
        placeholder: None,
        trigger: LambdaTriggerType::ApiGateway,
    }
}

impl Default for Lambda {
    fn default() -> (r: Lambda)
        ensures
            r@ == declared(Seq::empty(), Seq::empty()),
    {
        let r = Lambda {
            key: String::new(),
            handler: String::new(),
            step_function: false,
            apis: Vec::new(),
            arn_template_key: None,
            lambda_type: LambdaTriggerType::ApiGateway,
        };
        assert(routes(r.apis@) =~= Seq::<Route>::empty());
        r
    }
}

/// The functions that the lambdas `v` stand for.
pub open spec fn functions(v: Seq<Lambda>) -> Seq<Function> {
    Seq::new(v.len(), |i: int| v[i]@)
}

/// The texts of the files that describe the infrastructure. A file that is
/// not there has no text.
#[derive(Debug, Clone, PartialEq, Eq)]
pub struct TerraformFiles {
    /// Every Terraform file of the folder, whatever its name.
    pub sources: Vec<String>,
    /// `lambda.tf`
    pub lambda: Option<String>,
    /// `lambda_permissions.tf`
    pub lambda_permissions: Option<String>,
    /// `api_gateway.tf`
    pub api_gateway: Option<String>,
    /// `step_function.tf`
    pub step_function: Option<String>,
}

/// What is said of a lambda with routes that the gateway does not know.
pub open spec fn not_in_gateway(key: Seq<char>) -> Seq<char> {
    "The lambda "@ + key + " is not used in API gateway but is used in lambda_permissions.tf"@
}

/// What is said of a lambda that the gateway knows and that has no route.
pub open spec fn not_in_permissions(key: Seq<char>) -> Seq<char> {
    "The lambda arn "@ + key + " exists in API gateway but not in lambda_permissions.tf"@
}

/// What is said of a lambda that nothing triggers.
pub open spec fn not_used(key: Seq<char>) -> Seq<char> {
    "The lambda arn "@ + key + " exists in lambda.tf but is not used anywhere else"@
}

/// Whether what was found about one lambda fits together. A lambda with
/// routes and without a placeholder is an error, unless a state machine
/// refers to it. A lambda with a placeholder and without routes gets a
/// warning, and so does one with neither that no state machine refers to.
pub open spec fn coherence(f: Function) -> Seq<Finding> {
    if f.placeholder is Some {
        if f.routes.len() == 0 {
            seq![warning(Issue::MissingRoutes, not_in_permissions(f.key))]
        } else {
            Seq::empty()
        }
    } else if f.step_function {
        Seq::empty()
    } else if f.routes.len() == 0 {
        seq![warning(Issue::UnusedLambda, not_used(f.key))]
    } else {
        seq![error(Issue::MissingPlaceholder, not_in_gateway(f.key))]
    }
}

/// What the last pass finds for the first `n` lambdas.
pub open spec fn coherence_findings(fs: Seq<Function>, n: int) -> Seq<Finding>
    decreases n,
{
    if n <= 0 {
        Seq::empty()
    } else {
        coherence_findings(fs, n - 1) + coherence(fs[n - 1])
    }
}

/// The lambdas with the warnings of the last pass, if it finds no error.
pub open spec fn coherent(fs: Seq<Function>) -> Result<(Seq<Function>, Seq<Finding>), Failure> {
    if valid(coherence_findings(fs, fs.len() as int)) {
        Ok((fs, coherence_findings(fs, fs.len() as int)))
    } else {
        Err(Failure::Invalid(coherence_findings(fs, fs.len() as int)))
    }
}

/// What the parser says against the first of the first `n` texts that is
/// not in its language.
pub open spec fn syntax_fault(texts: Seq<String>, n: int) -> Option<Seq<char>>
    decreases n,
{
    if n <= 0 {
        None
    } else {
        match syntax_fault(texts, n - 1) {
            Some(message) => Some(message),
            None => match config_of(texts[n - 1]@) {
                Ok(_) => None,
                Err(message) => Some(message),
            },
        }
    }
}

/// The lambdas after the stage of the state machines, which is passed over
/// where there is no such file.
pub open spec fn linked_stage(step_function: Option<String>, fs: Seq<Function>) -> Result<
    Seq<Function>,
    Failure,
> {
    match step_function {
        Some(text) => state_machines_of_text(config_of(text@), text@, fs),
        None => Ok(fs),
    }
}

/// The lambdas after the stage of the gateway, whose file must be there.
pub open spec fn gateway_stage(api_gateway: Option<String>, fs: Seq<Function>) -> Result<
    Seq<Function>,
    Failure,
> {
    match api_gateway {
        Some(text) => gateway_of_text(config_of(text@), text@, fs),
        None => Err(Failure::MissingFile("api_gateway.tf"@)),
    }
}

/// The lambdas after the stage of the permissions, whose file must be there.
pub open spec fn permission_stage(lambda_permissions: Option<String>, fs: Seq<Function>) -> Result<
    Seq<Function>,
    Failure,
> {
    match lambda_permissions {
        Some(text) => permissions_of_text(config_of(text@), fs),
        None => Err(Failure::MissingFile("lambda_permissions.tf"@)),
    }
}

/// The lambdas after the stage of the registry, whose file must be there.
pub open spec fn registry_stage(lambda: Option<String>) -> Result<Seq<Function>, Failure> {
    match lambda {
        Some(text) => registry_of_text(config_of(text@)),
        None => Err(Failure::MissingFile("lambda.tf"@)),
    }
}

/// The stages one after another; the first that fails ends the run.
pub open spec fn staged(files: TerraformFiles) -> Result<Seq<Function>, Failure> {
    match registry_stage(files.lambda) {
        Err(e) => Err(e),
        Ok(declared) => match permission_stage(files.lambda_permissions, declared) {
            Err(e) => Err(e),
            Ok(granted) => match gateway_stage(files.api_gateway, granted) {
                Err(e) => Err(e),
                Ok(wired) => linked_stage(files.step_function, wired),
            },
        },
    }
}

/// The model of the infrastructure that the files describe: the lambdas
/// after all stages, with the warnings of the last pass. There is none if a
/// file is not in its language, if one that must be there is not, if a
/// stage fails, or if the last pass finds an error.
pub open spec fn infrastructure(files: TerraformFiles) -> Result<
    (Seq<Function>, Seq<Finding>),
    Failure,
> {
    match syntax_fault(files.sources@, files.sources@.len() as int) {
        Some(message) => Err(Failure::Syntax(message)),
        None => match staged(files) {
            Err(e) => Err(e),
            Ok(fs) => coherent(fs),
        },
    }
}

/// What building the model gives, as a value of the specification.
pub open spec fn built(r: Result<(Vec<Lambda>, Diagnostics), ModelError>) -> Result<
    (Seq<Function>, Seq<Finding>),
    Failure,
> {
    match r {
        Ok(model) => Ok((functions(model.0@), model.1@)),
        Err(e) => Err(e@),
    }
}

fn say_not_in_gateway(key: &str) -> (r: String)
    ensures
        r@ == not_in_gateway(key@),
{
    let mut m = "The lambda ".to_owned();
    m.append(key);
    m.append(" is not used in API gateway but is used in lambda_permissions.tf");
    m
}

fn say_not_in_permissions(key: &str) -> (r: String)
    ensures
        r@ == not_in_permissions(key@),
{
    let mut m = "The lambda arn ".to_owned();
    m.append(key);
    m.append(" exists in API gateway but not in lambda_permissions.tf");
    m
}

fn say_not_used(key: &str) -> (r: String)
    ensures
        r@ == not_used(key@),
{
    let mut m = "The lambda arn ".to_owned();
    m.append(key);
    m.append(" exists in lambda.tf but is not used anywhere else");
    m
}

/// The last pass over the lambdas.
pub fn check_coherence(lambdas: &[Lambda]) -> (r: Diagnostics)
    ensures
        r@ == coherence_findings(functions(lambdas@), lambdas@.len() as int),
{
    let ghost fs = functions(lambdas@);
    let mut found = Diagnostics::new();
    let mut i: usize = 0;
    while i < lambdas.len()
        invariant
            i <= lambdas.len(),
            fs == functions(lambdas@),
            found@ == coherence_findings(fs, i as int),
        decreases lambdas.len() - i,
    {
        let lambda = &lambdas[i];
        assert(fs[i as int] == lambda@);
        assert(lambda@.routes.len() == lambda.apis@.len());
        let key = lambda.key.as_str();
        if lambda.arn_template_key.is_some() {
            if lambda.apis.len() == 0 {
                found.warning(Issue::MissingRoutes, say_not_in_permissions(key));
            } else {
                assert(found@ == found@ + Seq::<Finding>::empty());
            }
        } else if lambda.step_function {
            assert(found@ == found@ + Seq::<Finding>::empty());
        } else if lambda.apis.len() == 0 {
            found.warning(Issue::UnusedLambda, say_not_used(key));
        } else {
            found.error(Issue::MissingPlaceholder, say_not_in_gateway(key));
        }
        i += 1;
    }
    found
}

/// The lambdas with the warnings of the last pass, if it finds no error.
pub fn check_lambdas(lambdas: Vec<Lambda>) -> (r: Result<(Vec<Lambda>, Diagnostics), ModelError>)
    ensures
        built(r) == coherent(functions(lambdas@)),
{
    let found = check_coherence(lambdas.as_slice());
    if found.is_valid() {
        Ok((lambdas, found))
    } else {
        Err(ModelError::Invalid(found))
    }
}

/// Check if all the Terraform files are valid
pub fn validate_terraform_files(sources: &[String]) -> (r: Result<(), ModelError>)
    ensures
        match r {
            Ok(_) => syntax_fault(sources@, sources@.len() as int) is None,
            Err(e) => syntax_fault(sources@, sources@.len() as int) matches Some(message) && e@
                == Failure::Syntax(message),
        },
{
    let mut i: usize = 0;
    while i < sources.len()
        invariant
            i <= sources.len(),
            syntax_fault(sources@, i as int) is None,
        decreases sources.len() - i,
    {
        match read_config(sources[i].as_str()) {
            Ok(_) => {},
            Err(message) => {
                proof {
                    assert(syntax_fault(sources@, i as int + 1) == Some(message@));
                    lemma_syntax_fault_stays(sources@, i as int + 1, sources@.len() as int);
                }
                return Err(ModelError::Syntax(message));
            },
        }
        i += 1;
    }
    Ok(())
}

/// Once a text has failed, the fault stays the first up to any later text.
pub proof fn lemma_syntax_fault_stays(texts: Seq<String>, k: int, n: int)
    requires
        syntax_fault(texts, k) is Some,
        k <= n,
    ensures
        syntax_fault(texts, n) == syntax_fault(texts, k),
    decreases n - k,
{
    if k < n {
        lemma_syntax_fault_stays(texts, k, n - 1);
    }
}

/// In a model of the infrastructure no two lambdas share a key, and no two
/// a handler.
pub proof fn lemma_model_is_distinct(files: TerraformFiles)
    requires
        infrastructure(files) is Ok,
    ensures
        distinct(infrastructure(files)->Ok_0.0),
{
    let declared = registry_stage(files.lambda)->Ok_0;
    let granted = permission_stage(files.lambda_permissions, declared)->Ok_0;
    let wired = gateway_stage(files.api_gateway, granted)->Ok_0;
    let linked = linked_stage(files.step_function, wired)->Ok_0;
    assert(consistent(declared) is Ok) by {
        let body = config_of(files.lambda->0@)->Ok_0;
        assert(registry(body) == Ok::<Seq<Function>, Failure>(declared));
        assert(consistent(declared_in(body)->Ok_0) == registry(body));
    }
    lemma_consistent_is_distinct(declared);
    lemma_permissions_keep(config_of(files.lambda_permissions->0@)->Ok_0, declared);
    lemma_distinct_stays(declared, granted);
    let text = files.api_gateway->0@;
    lemma_wired_keeps(granted, lines(text), lines(text).len() as int);
    lemma_distinct_stays(granted, wired);
    match files.step_function {
        Some(text) => {
            lemma_state_machines_keep(text@, wired);
        },
        None => {
            assert(same_lambdas(wired, linked));
        },
    }
    lemma_distinct_stays(wired, linked);
}

/// Runs the stages one after another.
fn stage(files: &TerraformFiles) -> (r: Result<Vec<Lambda>, ModelError>)
    ensures
        crate::registry::outcome(r) == staged(*files),
{
    let declared = match &files.lambda {
        Some(text) => validate_lambda(text.as_str())?,
        None => {
            return Err(ModelError::MissingFile("lambda.tf".to_owned()));
        },
    };
    let granted = match &files.lambda_permissions {
        Some(text) => validate_lambda_permissions(text.as_str(), declared)?,
        None => {
            return Err(ModelError::MissingFile("lambda_permissions.tf".to_owned()));
        },
    };
    let wired = match &files.api_gateway {
        Some(text) => extract_api_gw(text.as_str(), granted)?,
        None => {
            return Err(ModelError::MissingFile("api_gateway.tf".to_owned()));
        },
    };
    match &files.step_function {
        Some(text) => extract_step_function(wired, text.as_str()),
        None => Ok(wired),
    }
}

/// Validate the Terraform files and extract the data
pub fn validate_terraform(terraform: &TerraformFiles) -> (r: Result<
    (Vec<Lambda>, Diagnostics),
    ModelError,
>)
    ensures
        built(r) == infrastructure(*terraform),
        r matches Ok(model) ==> distinct(functions(model.0@)) && valid(model.1@),
{
    match validate_terraform_files(terraform.sources.as_slice()) {
        Ok(_) => {},
        Err(e) => {
            return Err(e);
        },
    }
    match stage(terraform) {
        Ok(lambdas) => {
            let r = check_lambdas(lambdas);
            proof {
                if r is Ok {
                    lemma_model_is_distinct(*terraform);
                }
            }
            r
        },
        Err(e) => Err(e),
    }
}

} // verus!
