//! The specification side: the endpoints that the OpenAPI documents
//! declare, and what backs each of them.
//!
//! An endpoint is one operation on one path. Its backend is read from the
//! `uri` of the gateway's integration, which every operation must have.

use crate::diagnostics::{warning, Diagnostics, Finding, Issue};
pub use crate::documents::validate_open_api;
use crate::error::{Failure, Fault, ModelError};
use crate::scalars::{finite, is_finite};
use crate::text::{chars_of, contains, equal, includes};
use crate::util::HttpMethod;
use vstd::prelude::*;

verus! {

/// What backs an endpoint.
#[derive(Debug, Clone, Copy, PartialEq, Eq, Structural, Hash)]
pub enum APIType {
    /// A lambda, invoked through the gateway.
    Lambda,
    /// A state machine of Step Functions.
    StepFunction,
    /// A queue.
    SQS,
    /// Nothing that this crate knows.
    Unknown,
}

/// One operation of the specification: a method on a path, and the
/// integration behind it.
#[derive(Debug, Clone, PartialEq, Eq)]
pub struct OpenAPIData {
    pub path: String,
    pub method: HttpMethod,
    pub uri: String,
    pub execution_type: APIType,
}

/// An operation as a value of the specification.
pub struct Endpoint {
    pub path: Seq<char>,
    pub method: HttpMethod,
    /// The `uri` of the integration, in which placeholders are looked for.
    pub uri: Seq<char>,
    pub backend: APIType,
}

impl View for OpenAPIData {
    type V = Endpoint;

    open spec fn view(&self) -> Endpoint {
        Endpoint {
            path: self.path@,
            method: self.method,
            uri: self.uri@,
            backend: self.execution_type,
        }
    }
}

/// The endpoints that the operations `v` stand for.
pub open spec fn endpoints(v: Seq<OpenAPIData>) -> Seq<Endpoint> {
    Seq::new(v.len(), |i: int| v[i]@)
}

impl APIType {
    /// The name of the backend, as it is shown.
    pub open spec fn name(self) -> Seq<char> {
        match self {
            APIType::Lambda => "Lambda"@,
            APIType::StepFunction => "Step Function"@,
            APIType::SQS => "SQS"@,
            APIType::Unknown => "Unknown"@,
        }
    }

    /// The name of the backend, as it is shown.
    pub fn as_str(&self) -> (r: &'static str)
        ensures
            r@ == self.name(),
    {
        match self {
            APIType::Lambda => "Lambda",
            APIType::StepFunction => "Step Function",
            APIType::SQS => "SQS",
            APIType::Unknown => "Unknown",
        }
    }

    /// The name of the backend, as an owned string.
    pub fn to_string(&self) -> (r: String)
        ensures
            r@ == self.name(),
    {
        self.as_str().to_owned()
    }

    /// What backs an integration with this `uri`.
    pub fn of_uri(uri: &str) -> (r: APIType)
        ensures
            r == classify(uri@),
    {
        let chars = chars_of(uri);
        let states = chars_of("states:action");
        let lambda = chars_of("lambda:path");
        let queue = chars_of("sqs:action");
        if includes(chars.as_slice(), states.as_slice()) {
            APIType::StepFunction
        } else if includes(chars.as_slice(), lambda.as_slice()) {
            APIType::Lambda
        } else if includes(chars.as_slice(), queue.as_slice()) {
            APIType::SQS
        } else {
            APIType::Unknown
        }
    }
}

/// A member of an extension: its name, and its value where that is a
/// string.
#[derive(Debug, Clone, PartialEq, Eq)]
pub struct Member {
    pub name: String,
    pub text: Option<String>,
}

/// An extension of an operation: its name, and its members where it is an
/// object.
#[derive(Debug, Clone, PartialEq, Eq)]
pub struct Extension {
    pub name: String,
    pub members: Vec<Member>,
}

/// An operation, as far as this crate reads it.
#[derive(Debug, Clone, PartialEq, Eq)]
pub struct ApiOperation {
    /// The extensions, in their order.
    pub extensions: Vec<Extension>,
    /// Whether the operation takes a request body.
    pub request_body: bool,
    /// How many parameters the operation takes.
    pub parameters: usize,
}

/// The operations on one path, each under its method.
#[derive(Debug, Clone, PartialEq, Eq)]
pub struct ApiItem {
    pub get: Option<ApiOperation>,
    pub post: Option<ApiOperation>,
    pub put: Option<ApiOperation>,
    pub patch: Option<ApiOperation>,
    pub delete: Option<ApiOperation>,
    pub options: Option<ApiOperation>,
    pub head: Option<ApiOperation>,
    pub trace: Option<ApiOperation>,
}

/// A path of a document, with its item unless the document only refers to
/// one.
#[derive(Debug, Clone, PartialEq, Eq)]
pub struct ApiPath {
    pub path: String,
    pub item: Option<ApiItem>,
}

/// A document: its paths, in their order.
#[derive(Debug, Clone, PartialEq, Eq)]
pub struct Document {
    pub paths: Vec<ApiPath>,
}

/// `openapiv3::PathItem`: the item of a path as it is read. Nothing is
/// known of it.
#[verifier::external_type_specification]
#[verifier::external_body]
pub struct ExPathItem(openapiv3::PathItem);

/// `openapiv3::Operation`: an operation as it is read. Nothing is known of
/// it.
#[verifier::external_type_specification]
#[verifier::external_body]
pub struct ExOperation(openapiv3::Operation);

/// `serde_json::Value`: the value of an extension as it is read. Nothing
/// is known of it.
#[verifier::external_type_specification]
#[verifier::external_body]
pub struct ExValue(serde_json::Value);

/// What `serde_yaml::from_str` makes of a text that is read as a document
/// of `openapiv3`: the paths of the document, or what it says against the
/// text.
pub uninterp spec fn parsed_document(text: Seq<char>) -> Result<Document, String>;

/// `serde_yaml::from_str` reads the text as an `openapiv3::OpenAPI`. The
/// result is a function of the text alone: the paths of the document in
/// their order, each with its item unless it is a reference, or the message
/// of the error.
///
/// The text is first read as a `serde_yaml::Value`, which refuses a key that
/// stands twice in a mapping. `openapiv3` reads what stands under a path a
/// second time where the first reading fails, through a `serde_json::Value`,
/// and panics where the second does not fail. A `serde_json::Value` differs
/// from what it is made of where a key stands twice and where a number is
/// not finite; so neither is handed over.
#[verifier::external_body]
fn parse_document(text: &str) -> (r: Result<Document, String>)
    requires
        finite(text@),
    ensures
        r == parsed_document(text@),
{
    if let Err(e) = serde_yaml::from_str::<serde_yaml::Value>(text) {
        return Err(e.to_string());
    }
    match serde_yaml::from_str::<openapiv3::OpenAPI>(text) {
        Ok(document) => Ok(
            Document {
                paths: document.paths.paths.iter().map(
                    |(path, item)| ApiPath { path: path.clone(), item: item.as_item().map(item_of) },
                ).collect(),
            },
        ),
        Err(e) => Err(e.to_string()),
    }
}

/// The operations of a path item of `openapiv3`, each under its method.
#[verifier::external_body]
fn item_of(item: &openapiv3::PathItem) -> ApiItem {
    ApiItem {
        get: item.get.as_ref().map(operation_of),
        post: item.post.as_ref().map(operation_of),
        put: item.put.as_ref().map(operation_of),
        patch: item.patch.as_ref().map(operation_of),
        delete: item.delete.as_ref().map(operation_of),
        options: item.options.as_ref().map(operation_of),
        head: item.head.as_ref().map(operation_of),
        trace: item.trace.as_ref().map(operation_of),
    }
}

/// An operation of `openapiv3`: its extensions in their order, whether it
/// has a request body, and the number of its parameters.
#[verifier::external_body]
fn operation_of(operation: &openapiv3::Operation) -> ApiOperation {
    ApiOperation {
        extensions: operation.extensions.iter().map(
            |(name, value)| Extension { name: name.clone(), members: members_of(value) },
        ).collect(),
        request_body: operation.request_body.is_some(),
        parameters: operation.parameters.len(),
    }
}

/// The members of a value of `serde_json` that is an object, each with its
/// value where `as_str` gives one; none for any other value.
#[verifier::external_body]
fn members_of(value: &serde_json::Value) -> Vec<Member> {
    match value.as_object() {
        Some(object) => object.iter().map(
            |(name, v)| Member { name: name.clone(), text: v.as_str().map(str::to_owned) },
        ).collect(),
        None => Vec::new(),
    }
}

/// The name of the extension that holds the gateway's integration.
pub open spec fn integration_extension() -> Seq<char> {
    "x-amazon-apigateway-integration"@
}

/// Where the first extension called `name` stands at or after `from`, or
/// -1.
pub open spec fn extension_index(extensions: Seq<Extension>, name: Seq<char>, from: int) -> int
    decreases extensions.len() - from,
{
    if from < 0 || from >= extensions.len() {
        -1
    } else if extensions[from].name@ == name {
        from
    } else {
        extension_index(extensions, name, from + 1)
    }
}

/// Where the first member called `name` stands at or after `from`, or -1.
pub open spec fn member_index(members: Seq<Member>, name: Seq<char>, from: int) -> int
    decreases members.len() - from,
{
    if from < 0 || from >= members.len() {
        -1
    } else if members[from].name@ == name {
        from
    } else {
        member_index(members, name, from + 1)
    }
}

/// The `uri` of the integration of an operation. The operation must have
/// the extension, and the extension a member `uri` that is a string.
pub open spec fn integration_uri(operation: ApiOperation) -> Result<Seq<char>, Fault> {
    if extension_index(operation.extensions@, integration_extension(), 0) < 0 {
        Err(Fault::MissingIntegration)
    } else {
        let members = operation.extensions@[extension_index(
            operation.extensions@,
            integration_extension(),
            0,
        )].members@;
        if member_index(members, "uri"@, 0) < 0 {
            Err(Fault::MissingUri)
        } else {
            match members[member_index(members, "uri"@, 0)].text {
                Some(uri) => Ok(uri@),
                None => Err(Fault::MissingUri),
            }
        }
    }
}

/// What backs an integration with this `uri`: a state machine if the `uri`
/// holds `states:action`; else a lambda if it holds `lambda:path`; else a
/// queue if it holds `sqs:action`.
pub open spec fn classify(uri: Seq<char>) -> APIType {
    if contains(uri, "states:action"@) {
        APIType::StepFunction
    } else if contains(uri, "lambda:path"@) {
        APIType::Lambda
    } else if contains(uri, "sqs:action"@) {
        APIType::SQS
    } else {
        APIType::Unknown
    }
}

/// What is said of an operation that changes data and takes nothing.
pub open spec fn no_request_body(method: HttpMethod, path: Seq<char>) -> Seq<char> {
    "The "@ + method.token() + " method for "@ + path
        + " does not have a request body or parameters (queries)"@
}

/// What is said of an `OPTIONS` operation.
pub open spec fn options_operation(path: Seq<char>) -> Seq<char> {
    "Double check if OPTIONS method for "@ + path
        + " should have a request body and/or parameters (queries)"@
}

/// What the method of an operation asks of it. `POST`, `PUT` and `PATCH`
/// get a warning without a request body and without a parameter. `OPTIONS`
/// always gets one. `GET` and `DELETE` ask nothing. No other method is
/// supported.
pub open spec fn method_findings(operation: ApiOperation, path: Seq<char>, method: HttpMethod) -> Result<
    Seq<Finding>,
    Failure,
> {
    match method {
        HttpMethod::Get | HttpMethod::Delete => Ok(Seq::empty()),
        HttpMethod::Post | HttpMethod::Put | HttpMethod::Patch => if !operation.request_body
            && operation.parameters == 0 {
            Ok(seq![warning(Issue::MissingRequestBody, no_request_body(method, path))])
        } else {
            Ok(Seq::empty())
        },
        HttpMethod::Options => Ok(
            seq![warning(Issue::OptionsOperation, options_operation(path))],
        ),
        _ => Err(Failure::UnsupportedMethod(method, path)),
    }
}

/// The endpoint that one operation declares, with the warnings that go with
/// it. The integration and its `uri` are looked for first, then the method
/// is asked, then the backend is read from the `uri`.
pub open spec fn endpoint_of(operation: ApiOperation, path: Seq<char>, method: HttpMethod) -> Result<
    (Endpoint, Seq<Finding>),
    Failure,
> {
    match integration_uri(operation) {
        Err(fault) => Err(Failure::Structure(fault, path)),
        Ok(uri) => match method_findings(operation, path, method) {
            Err(e) => Err(e),
            Ok(found) => if classify(uri) == APIType::Unknown {
                Err(Failure::UnknownBackend(uri))
            } else {
                Ok((Endpoint { path, method, uri, backend: classify(uri) }, found))
            },
        },
    }
}

/// A model of the specification: its endpoints and the warnings that go
/// with them, or why there is none.
pub type Specified = Result<(Seq<Endpoint>, Seq<Finding>), Failure>;

/// The model `so_far` with one more operation, if the path declares it.
pub open spec fn with_operation(
    so_far: Specified,
    operation: Option<ApiOperation>,
    path: Seq<char>,
    method: HttpMethod,
) -> Specified {
    match so_far {
        Err(e) => Err(e),
        Ok(model) => match operation {
            None => Ok(model),
            Some(declared) => match endpoint_of(declared, path, method) {
                Err(e) => Err(e),
                Ok(found) => Ok((model.0.push(found.0), model.1 + found.1)),
            },
        },
    }
}

/// The model `so_far` with the operations that the item of a path declares
/// for the methods that change or read data: `GET`, `POST`, `PUT`, `PATCH`
/// and `DELETE`, in this order.
pub open spec fn with_main(so_far: Specified, item: ApiItem, path: Seq<char>) -> Specified {
    with_operation(
        with_operation(
            with_operation(
                with_operation(
                    with_operation(so_far, item.get, path, HttpMethod::Get),
                    item.post,
                    path,
                    HttpMethod::Post,
                ),
                item.put,
                path,
                HttpMethod::Put,
            ),
            item.patch,
            path,
            HttpMethod::Patch,
        ),
        item.delete,
        path,
        HttpMethod::Delete,
    )
}

/// The model `so_far` with the operations of one path. Only `GET`, `POST`,
/// `PUT`, `PATCH` and `DELETE` are read: what a path declares for `OPTIONS`,
/// `HEAD` or `TRACE` gives no endpoint and is held against nothing. A path
/// that refers to its item has none to read.
pub open spec fn with_path(so_far: Specified, entry: ApiPath) -> Specified {
    match so_far {
        Err(e) => Err(e),
        Ok(model) => match entry.item {
            None => Err(Failure::Structure(Fault::ReferencedPath, entry.path@)),
            Some(item) => with_main(so_far, item, entry.path@),
        },
    }
}

/// How many operations an item declares for the methods that are read.
pub open spec fn declared_in(item: ApiItem) -> nat {
    (if item.get is Some { 1nat } else { 0 }) + (if item.post is Some { 1nat } else { 0 }) + (
    if item.put is Some { 1nat } else { 0 }) + (if item.patch is Some { 1nat } else { 0 }) + (
    if item.delete is Some { 1nat } else { 0 })
}

/// How many operations the first `n` paths declare for the methods that
/// are read.
pub open spec fn operations(paths: Seq<ApiPath>, n: int) -> nat
    decreases n,
{
    if n <= 0 {
        0
    } else {
        operations(paths, n - 1) + match paths[n - 1].item {
            Some(item) => declared_in(item),
            None => 0,
        }
    }
}

/// A model has one endpoint for each operation that the paths declare for
/// `GET`, `POST`, `PUT`, `PATCH` or `DELETE`, and no other: where one of
/// them fails there is no model, never a shorter one.
pub proof fn lemma_one_endpoint_for_each_operation(paths: Seq<ApiPath>, n: int)
    requires
        0 <= n <= paths.len(),
        walk(paths, n) is Ok,
    ensures
        walk(paths, n)->Ok_0.0.len() == operations(paths, n),
    decreases n,
{
    if n > 0 {
        lemma_one_endpoint_for_each_operation(paths, n - 1);
    }
}

/// The model of the first `n` paths.
pub open spec fn walk(paths: Seq<ApiPath>, n: int) -> Specified
    decreases n,
{
    if n <= 0 {
        Ok((Seq::empty(), Seq::empty()))
    } else {
        with_path(walk(paths, n - 1), paths[n - 1])
    }
}

/// The model of a document: the endpoints of its paths in their order, each
/// path with its operations in theirs, and the warnings in the same order.
/// The first operation that declares no endpoint ends the walk.
pub open spec fn specification(document: Document) -> Specified {
    walk(document.paths@, document.paths@.len() as int)
}

/// What is said of a text from which a number that is not finite may be
/// read.
pub open spec fn not_finite() -> Seq<char> {
    "the text may hold a number that is not finite"@
}

/// What is made of the text of a document: its paths, or what is said
/// against it, by the reader or for a number that it may hold. A text of
/// which [`finite`] does not hold is never read.
pub open spec fn document_of(text: Seq<char>) -> Result<Document, Seq<char>> {
    if !finite(text) {
        Err(not_finite())
    } else {
        match parsed_document(text) {
            Ok(document) => Ok(document),
            Err(message) => Err(message@),
        }
    }
}

/// What reading a text gives, with the message taken by its characters.
pub open spec fn read(r: Result<Document, String>) -> Result<Document, Seq<char>> {
    match r {
        Ok(document) => Ok(document),
        Err(message) => Err(message@),
    }
}

/// The model of a text: that of its document, or the message of the error.
pub open spec fn specification_of_text(parsed: Result<Document, Seq<char>>) -> Specified {
    match parsed {
        Ok(document) => specification(document),
        Err(message) => Err(Failure::Syntax(message)),
    }
}

/// What building a model gives, as a value of the specification.
pub open spec fn specified(r: Result<(Vec<OpenAPIData>, Diagnostics), ModelError>) -> Specified {
    match r {
        Ok(model) => Ok((endpoints(model.0@), model.1@)),
        Err(e) => Err(e@),
    }
}

/// The first extension called `name`.
pub fn find_extension<'a>(operation: &'a ApiOperation, name: &str) -> (r: Option<&'a Extension>)
    ensures
        match r {
            Some(extension) => 0 <= extension_index(operation.extensions@, name@, 0)
                < operation.extensions@.len() && *extension
                == operation.extensions@[extension_index(operation.extensions@, name@, 0)],
            None => extension_index(operation.extensions@, name@, 0) == -1,
        },
{
    let mut i: usize = 0;
    while i < operation.extensions.len()
        invariant
            i <= operation.extensions.len(),
            extension_index(operation.extensions@, name@, 0) == extension_index(
                operation.extensions@,
                name@,
                i as int,
            ),
        decreases operation.extensions.len() - i,
    {
        if equal(operation.extensions[i].name.as_str(), name) {
            return Some(&operation.extensions[i]);
        }
        i += 1;
    }
    None
}

/// The first member called `name`.
pub fn find_member<'a>(extension: &'a Extension, name: &str) -> (r: Option<&'a Member>)
    ensures
        match r {
            Some(member) => 0 <= member_index(extension.members@, name@, 0)
                < extension.members@.len() && *member == extension.members@[member_index(
                extension.members@,
                name@,
                0,
            )],
            None => member_index(extension.members@, name@, 0) == -1,
        },
{
    let mut i: usize = 0;
    while i < extension.members.len()
        invariant
            i <= extension.members.len(),
            member_index(extension.members@, name@, 0) == member_index(
                extension.members@,
                name@,
                i as int,
            ),
        decreases extension.members.len() - i,
    {
        if equal(extension.members[i].name.as_str(), name) {
            return Some(&extension.members[i]);
        }
        i += 1;
    }
    None
}

/// The `uri` of the integration of an operation.
pub fn find_uri<'a>(operation: &'a ApiOperation) -> (r: Result<&'a String, Fault>)
    ensures
        match r {
            Ok(uri) => integration_uri(*operation) == Ok::<Seq<char>, Fault>(uri@),
            Err(fault) => integration_uri(*operation) == Err::<Seq<char>, Fault>(fault),
        },
{
    match find_extension(operation, "x-amazon-apigateway-integration") {
        None => Err(Fault::MissingIntegration),
        Some(extension) => match find_member(extension, "uri") {
            None => Err(Fault::MissingUri),
            Some(member) => match &member.text {
                Some(uri) => Ok(uri),
                None => Err(Fault::MissingUri),
            },
        },
    }
}

fn say_no_request_body(method: HttpMethod, path: &str) -> (r: String)
    ensures
        r@ == no_request_body(method, path@),
{
    let mut m = "The ".to_owned();
    m.append(method.as_str());
    m.append(" method for ");
    m.append(path);
    m.append(" does not have a request body or parameters (queries)");
    m
}

fn say_options_operation(path: &str) -> (r: String)
    ensures
        r@ == options_operation(path@),
{
    let mut m = "Double check if OPTIONS method for ".to_owned();
    m.append(path);
    m.append(" should have a request body and/or parameters (queries)");
    m
}

/// What the method of an operation asks of it.
fn ask_method(operation: &ApiOperation, path: &str, method: HttpMethod) -> (r: Result<
    Diagnostics,
    ModelError,
>)
    ensures
        match r {
            Ok(found) => method_findings(*operation, path@, method) == Ok::<Seq<Finding>, Failure>(
                found@,
            ),
            Err(e) => method_findings(*operation, path@, method) == Err::<Seq<Finding>, Failure>(
                e@,
            ),
        },
{
    let mut found = Diagnostics::new();
    match method {
        HttpMethod::Get | HttpMethod::Delete => {},
        HttpMethod::Post | HttpMethod::Put | HttpMethod::Patch => {
            if !operation.request_body && operation.parameters == 0 {
                found.warning(Issue::MissingRequestBody, say_no_request_body(method, path));
            }
        },
        HttpMethod::Options => {
            found.warning(Issue::OptionsOperation, say_options_operation(path));
        },
        _ => {
            return Err(ModelError::UnsupportedMethod(method, path.to_owned()));
        },
    }
    Ok(found)
}

/// The endpoint that one operation declares, with the warnings that go with
/// it.
pub fn extract_api_data_for_item(item: &ApiOperation, path: &str, method: HttpMethod) -> (r: Result<
    (OpenAPIData, Diagnostics),
    ModelError,
>)
    ensures
        match r {
            Ok(found) => endpoint_of(*item, path@, method) == Ok::<
                (Endpoint, Seq<Finding>),
                Failure,
            >((found.0@, found.1@)),
            Err(e) => endpoint_of(*item, path@, method) == Err::<
                (Endpoint, Seq<Finding>),
                Failure,
            >(e@),
        },
{
    let uri = match find_uri(item) {
        Ok(uri) => uri,
        Err(fault) => {
            return Err(ModelError::Structure(fault, path.to_owned()));
        },
    };
    let found = ask_method(item, path, method)?;
    let api_type = APIType::of_uri(uri.as_str());
    if api_type == APIType::Unknown {
        return Err(ModelError::UnknownBackend(uri.clone()));
    }
    Ok(
        (
            OpenAPIData {
                path: path.to_owned(),
                method,
                uri: uri.clone(),
                execution_type: api_type,
            },
            found,
        ),
    )
}

/// The model so far with one more operation, if the path declares it.
fn add_operation(
    so_far: (Vec<OpenAPIData>, Diagnostics),
    operation: &Option<ApiOperation>,
    path: &str,
    method: HttpMethod,
) -> (r: Result<(Vec<OpenAPIData>, Diagnostics), ModelError>)
    ensures
        specified(r) == with_operation(specified(Ok(so_far)), *operation, path@, method),
{
    let mut data = so_far.0;
    let mut found = so_far.1;
    match operation {
        None => Ok((data, found)),
        Some(declared) => {
            let ghost before = endpoints(data@);
            let one = extract_api_data_for_item(declared, path, method)?;
            data.push(one.0);
            found.append(one.1);
            assert(endpoints(data@) =~= before.push(one.0@));
            Ok((data, found))
        },
    }
}

/// The model so far with the operations of one path.
fn add_path(so_far: (Vec<OpenAPIData>, Diagnostics), entry: &ApiPath) -> (r: Result<
    (Vec<OpenAPIData>, Diagnostics),
    ModelError,
>)
    ensures
        specified(r) == with_path(specified(Ok(so_far)), *entry),
{
    let path = entry.path.as_str();
    let item = match &entry.item {
        Some(item) => item,
        None => {
            return Err(ModelError::Structure(Fault::ReferencedPath, entry.path.clone()));
        },
    };
    let model = add_operation(so_far, &item.get, path, HttpMethod::Get)?;
    let model = add_operation(model, &item.post, path, HttpMethod::Post)?;
    let model = add_operation(model, &item.put, path, HttpMethod::Put)?;
    let model = add_operation(model, &item.patch, path, HttpMethod::Patch)?;
    add_operation(model, &item.delete, path, HttpMethod::Delete)
}

/// Once a path has failed, so have all the paths up to any later one, and
/// with the same failure.
pub proof fn lemma_walk_fails(paths: Seq<ApiPath>, k: int, n: int)
    requires
        walk(paths, k) is Err,
        k <= n,
    ensures
        walk(paths, n) == walk(paths, k),
    decreases n - k,
{
    if k < n {
        lemma_walk_fails(paths, k, n - 1);
    }
}

/// The model of a document.
pub fn endpoints_of(document: &Document) -> (r: Result<(Vec<OpenAPIData>, Diagnostics), ModelError>)
    ensures
        specified(r) == specification(*document),
{
    let mut model: (Vec<OpenAPIData>, Diagnostics) = (Vec::new(), Diagnostics::new());
    assert(endpoints(model.0@) =~= Seq::empty());
    let mut i: usize = 0;
    while i < document.paths.len()
        invariant
            i <= document.paths.len(),
            specified(Ok(model)) == walk(document.paths@, i as int),
        decreases document.paths.len() - i,
    {
        match add_path(model, &document.paths[i]) {
            Ok(next) => {
                model = next;
            },
            Err(e) => {
                proof {
                    assert(walk(document.paths@, i as int + 1) is Err);
                    lemma_walk_fails(document.paths@, i as int + 1, document.paths@.len() as int);
                }
                return Err(e);
            },
        }
        i += 1;
    }
    Ok(model)
}

/// Reads the text of a document into its paths.
pub fn read_document(text: &str) -> (r: Result<Document, String>)
    ensures
        read(r) == document_of(text@),
{
    if is_finite(text) {
        parse_document(text)
    } else {
        Err("the text may hold a number that is not finite".to_owned())
    }
}

/// The model of the text of a document.
pub fn extract_api_data(content: String) -> (r: Result<(Vec<OpenAPIData>, Diagnostics), ModelError>)
    ensures
        specified(r) == specification_of_text(document_of(content@)),
{
    match read_document(content.as_str()) {
        Ok(document) => endpoints_of(&document),
        Err(message) => Err(ModelError::Syntax(message)),
    }
}

} // verus!
