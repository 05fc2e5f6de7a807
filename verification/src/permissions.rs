//! The permissions to invoke: what `lambdas_permissions` in the block
//! `locals` grants.
//!
//! The object holds one group of permissions for each key of a lambda, and
//! each group is an array of permissions. A permission names its
//! `principal`, which says what triggers the lambda. A permission for the
//! gateway also names the `source_arn`, from which a route is read.

use crate::config::{read_config, config_of, ConfigBody, ConfigEntry, ConfigKey, ConfigValue, Shape};
use crate::diagnostics::{error, Diagnostics, Finding, Issue};
use crate::error::{Failure, Fault, ModelError};
use crate::registry::{
    duplicate_key, entry_index, find_entry, find_local, lemma_same_lambdas_twice, local, outcome,
    same_lambdas, unquoted,
};
use crate::route::{resolve, resolve_route, routes, APIPath, Route};
use crate::terraform::{functions, Function, Lambda, LambdaTriggerType};
use crate::text::{chars_of, equal, string_of, trim, trimmed, without};
use vstd::prelude::*;

verus! {

/// What triggers a lambda that `principal` may invoke: the gateway, or the
/// event bus for its own principal and for the scheduler's. No other
/// principal is known.
pub open spec fn principal_trigger(principal: Seq<char>) -> Option<LambdaTriggerType> {
    if principal == "apigateway.amazonaws.com"@ {
        Some(LambdaTriggerType::ApiGateway)
    } else if principal == "events.amazonaws.com"@ || principal == "scheduler.amazonaws.com"@ {
        Some(LambdaTriggerType::EventBridge)
    } else {
        None
    }
}

/// Where the first lambda with the key `key` stands at or after `from`, or
/// -1.
pub open spec fn key_index(fs: Seq<Function>, key: Seq<char>, from: int) -> int
    decreases fs.len() - from,
{
    if from < 0 || from >= fs.len() {
        -1
    } else if fs[from].key == key {
        from
    } else {
        key_index(fs, key, from + 1)
    }
}

/// Where the first entry whose key is no plain name stands at or after
/// `from`, or -1.
pub open spec fn expression_index(entries: Seq<ConfigEntry>, from: int) -> int
    decreases entries.len() - from,
{
    if from < 0 || from >= entries.len() {
        -1
    } else if entries[from].key is Expression {
        from
    } else {
        expression_index(entries, from + 1)
    }
}

/// The route that a permission for the gateway grants to the lambda `key`:
/// the one that its `source_arn` stands for, the path without white space
/// around it.
pub open spec fn granted_route(entries: Seq<ConfigEntry>, key: Seq<char>) -> Result<Route, Failure> {
    if entry_index(entries, "source_arn"@, 0) < 0 {
        Err(Failure::Structure(Fault::MissingSourceArn, key))
    } else {
        match resolve(entries[entry_index(entries, "source_arn"@, 0)].value.text@) {
            Ok(route) => Ok(Route { method: route.method, path: trim(route.path) }),
            Err(e) => Err(Failure::Pattern(e)),
        }
    }
}

/// The lambda `f` after one permission. The principal, read without double
/// quotes, sets what triggers the lambda. Under the gateway the route of
/// the permission comes after the routes that the lambda has.
pub open spec fn grant(f: Function, entries: Seq<ConfigEntry>) -> Result<Function, Failure> {
    if entry_index(entries, "principal"@, 0) < 0 {
        Err(Failure::Structure(Fault::MissingPrincipal, f.key))
    } else {
        let principal = without(entries[entry_index(entries, "principal"@, 0)].value.text@, '"');
        match principal_trigger(principal) {
            None => Err(Failure::UnsupportedPrincipal(principal)),
            Some(trigger) => if trigger == LambdaTriggerType::ApiGateway {
                match granted_route(entries, f.key) {
                    Err(e) => Err(e),
                    Ok(route) => Ok(Function { trigger, routes: f.routes.push(route), ..f }),
                }
            } else {
                Ok(Function { trigger, ..f })
            },
        }
    }
}

/// The lambdas after one permission of the group `key`. The permission must
/// be an object. It goes to the first lambda with that key; where there is
/// none, nothing changes.
pub open spec fn grant_item(fs: Seq<Function>, key: Seq<char>, item: ConfigValue) -> Result<
    Seq<Function>,
    Failure,
> {
    match item.shape {
        Shape::Object(entries) => if key_index(fs, key, 0) < 0 {
            Ok(fs)
        } else {
            match grant(fs[key_index(fs, key, 0)], entries@) {
                Err(e) => Err(e),
                Ok(f) => Ok(fs.update(key_index(fs, key, 0), f)),
            }
        },
        _ => Err(Failure::Structure(Fault::ExpectedObject, key)),
    }
}

/// The lambdas after the first `n` permissions of the group `key`.
pub open spec fn grant_items(fs: Seq<Function>, key: Seq<char>, items: Seq<ConfigValue>, n: int) -> Result<
    Seq<Function>,
    Failure,
>
    decreases n,
{
    if n <= 0 {
        Ok(fs)
    } else {
        match grant_items(fs, key, items, n - 1) {
            Err(e) => Err(e),
            Ok(granted) => grant_item(granted, key, items[n - 1]),
        }
    }
}

/// The lambdas after one group of permissions, which must be an array.
pub open spec fn grant_group(fs: Seq<Function>, group: ConfigEntry) -> Result<Seq<Function>, Failure> {
    match group.value.shape {
        Shape::Array(items) => grant_items(fs, group.key.text(), items@, items@.len() as int),
        _ => Err(Failure::Structure(Fault::ExpectedArray, group.key.text())),
    }
}

/// The lambdas after the first `n` groups of permissions.
pub open spec fn grant_groups(fs: Seq<Function>, groups: Seq<ConfigEntry>, n: int) -> Result<
    Seq<Function>,
    Failure,
>
    decreases n,
{
    if n <= 0 {
        Ok(fs)
    } else {
        match grant_groups(fs, groups, n - 1) {
            Err(e) => Err(e),
            Ok(granted) => grant_group(granted, groups[n - 1]),
        }
    }
}

/// What is said of a group of permissions whose key no lambda has.
pub open spec fn extra_key(key: Seq<char>) -> Seq<char> {
    "'lambda_permissions' has extra key '"@ + key + "'"@
}

/// What is held against the group at `i` and those after it, up to `n`:
/// each later group under the same key.
pub open spec fn repeated_findings(groups: Seq<ConfigEntry>, i: int, n: int) -> Seq<Finding>
    decreases n - i,
{
    if n <= i + 1 {
        Seq::empty()
    } else {
        repeated_findings(groups, i, n - 1) + if groups[i].key.text() == groups[n - 1].key.text() {
            seq![error(Issue::DuplicatePermissionKey, duplicate_key(groups[i].key.text()))]
        } else {
            Seq::<Finding>::empty()
        }
    }
}

/// What is held against one group: that no lambda has its key, then each
/// later group under the same key.
pub open spec fn group_findings(fs: Seq<Function>, groups: Seq<ConfigEntry>, i: int) -> Seq<Finding> {
    (if key_index(fs, groups[i].key.text(), 0) < 0 {
        seq![error(Issue::UnknownPermissionKey, extra_key(groups[i].key.text()))]
    } else {
        Seq::<Finding>::empty()
    }) + repeated_findings(groups, i, groups.len() as int)
}

/// What is held against the first `n` groups.
pub open spec fn permission_findings(fs: Seq<Function>, groups: Seq<ConfigEntry>, n: int) -> Seq<
    Finding,
>
    decreases n,
{
    if n <= 0 {
        Seq::empty()
    } else {
        permission_findings(fs, groups, n - 1) + group_findings(fs, groups, n - 1)
    }
}

/// The lambdas `fs` after all groups, if nothing is held against the groups.
pub open spec fn granted(fs: Seq<Function>, groups: Seq<ConfigEntry>) -> Result<
    Seq<Function>,
    Failure,
> {
    match grant_groups(fs, groups, groups.len() as int) {
        Err(e) => Err(e),
        Ok(after) => if permission_findings(after, groups, groups.len() as int).len() == 0 {
            Ok(after)
        } else {
            Err(Failure::Invalid(permission_findings(after, groups, groups.len() as int)))
        },
    }
}

/// The lambdas `fs` with the permissions that a configuration grants. The
/// object `lambdas_permissions` in `locals` must be there, and each of its
/// keys a plain name. The groups are taken in their order and the
/// permissions of a group in theirs; the first that fails ends the stage.
/// Then every group must stand under the key of a lambda, and no two under
/// the same.
pub open spec fn permissions(body: ConfigBody, fs: Seq<Function>) -> Result<Seq<Function>, Failure> {
    match local(body, "lambdas_permissions"@, Fault::MissingPermissions) {
        Err(fault) => Err(Failure::Structure(fault, Seq::empty())),
        Ok(value) => match value.shape {
            Shape::Object(groups) => if expression_index(groups@, 0) >= 0 {
                Err(
                    Failure::Structure(
                        Fault::ExpectedIdentifier,
                        groups@[expression_index(groups@, 0)].key.text(),
                    ),
                )
            } else {
                granted(fs, groups@)
            },
            _ => Err(Failure::Structure(Fault::ExpectedObject, Seq::empty())),
        },
    }
}

/// The lambdas with the permissions that a text grants: those of its tree,
/// or the message of the parser.
pub open spec fn permissions_of_text(parsed: Result<ConfigBody, Seq<char>>, fs: Seq<Function>) -> Result<
    Seq<Function>,
    Failure,
> {
    match parsed {
        Ok(body) => permissions(body, fs),
        Err(message) => Err(Failure::Syntax(message)),
    }
}

/// What triggers a lambda that `principal` may invoke.
pub fn trigger_of(principal: &str) -> (r: Option<LambdaTriggerType>)
    ensures
        r == principal_trigger(principal@),
{
    if equal(principal, "apigateway.amazonaws.com") {
        Some(LambdaTriggerType::ApiGateway)
    } else if equal(principal, "events.amazonaws.com") || equal(
        principal,
        "scheduler.amazonaws.com",
    ) {
        Some(LambdaTriggerType::EventBridge)
    } else {
        None
    }
}

/// Where the first lambda with the key `key` stands.
pub fn find_lambda(lambdas: &[Lambda], key: &str) -> (r: Option<usize>)
    ensures
        match r {
            Some(at) => at < lambdas@.len() && at as int == key_index(functions(lambdas@), key@, 0),
            None => key_index(functions(lambdas@), key@, 0) == -1,
        },
{
    let ghost fs = functions(lambdas@);
    let mut i: usize = 0;
    while i < lambdas.len()
        invariant
            i <= lambdas.len(),
            fs == functions(lambdas@),
            key_index(fs, key@, 0) == key_index(fs, key@, i as int),
        decreases lambdas.len() - i,
    {
        assert(fs[i as int] == lambdas@[i as int]@);
        if equal(lambdas[i].key.as_str(), key) {
            return Some(i);
        }
        i += 1;
    }
    None
}

/// The route that a permission for the gateway grants.
fn granted_api(entries: &Vec<ConfigEntry>, key: &str) -> (r: Result<APIPath, ModelError>)
    ensures
        match r {
            Ok(api) => granted_route(entries@, key@) == Ok::<Route, Failure>(api@),
            Err(e) => granted_route(entries@, key@) == Err::<Route, Failure>(e@),
        },
{
    match find_entry(entries, "source_arn") {
        None => Err(ModelError::Structure(Fault::MissingSourceArn, key.to_owned())),
        Some(source) => {
            let raw = chars_of(source.value.text.as_str());
            match resolve_route(raw.as_slice()) {
                Ok(found) => {
                    let path = trimmed(found.1.as_slice());
                    Ok(APIPath { method: found.0, route: string_of(path.as_slice()) })
                },
                Err(e) => Err(ModelError::Pattern(e)),
            }
        },
    }
}

/// The lambda after one permission.
fn grant_lambda(lambda: Lambda, entries: &Vec<ConfigEntry>) -> (r: Result<Lambda, ModelError>)
    ensures
        match r {
            Ok(after) => grant(lambda@, entries@) == Ok::<Function, Failure>(after@),
            Err(e) => grant(lambda@, entries@) == Err::<Function, Failure>(e@),
        },
{
    let mut lambda = lambda;
    let ghost f = lambda@;
    let principal = match find_entry(entries, "principal") {
        None => {
            return Err(ModelError::Structure(Fault::MissingPrincipal, lambda.key));
        },
        Some(entry) => unquoted(entry.value.text.as_str()),
    };
    match trigger_of(principal.as_str()) {
        None => Err(ModelError::UnsupportedPrincipal(principal)),
        Some(trigger) => {
            lambda.lambda_type = trigger;
            if trigger == LambdaTriggerType::ApiGateway {
                match granted_api(entries, lambda.key.as_str()) {
                    Err(e) => Err(e),
                    Ok(api) => {
                        lambda.apis.push(api);
                        assert(lambda@.routes =~= f.routes.push(api@));
                        Ok(lambda)
                    },
                }
            } else {
                Ok(lambda)
            }
        },
    }
}

/// The lambdas after one permission of the group `key`.
fn grant_to(lambdas: Vec<Lambda>, key: &str, item: &ConfigValue) -> (r: Result<
    Vec<Lambda>,
    ModelError,
>)
    ensures
        outcome(r) == grant_item(functions(lambdas@), key@, *item),
{
    let mut lambdas = lambdas;
    let ghost fs = functions(lambdas@);
    match &item.shape {
        Shape::Object(entries) => match find_lambda(lambdas.as_slice(), key) {
            None => Ok(lambdas),
            Some(at) => {
                let lambda = lambdas.remove(at);
                assert(lambda@ == fs[at as int]);
                match grant_lambda(lambda, entries) {
                    Err(e) => Err(e),
                    Ok(after) => {
                        lambdas.insert(at, after);
                        assert(functions(lambdas@) =~= fs.update(at as int, after@));
                        Ok(lambdas)
                    },
                }
            },
        },
        _ => Err(ModelError::Structure(Fault::ExpectedObject, key.to_owned())),
    }
}

/// The lambdas after one group of permissions.
#[verifier::loop_isolation(false)]
fn grant_all(lambdas: Vec<Lambda>, group: &ConfigEntry) -> (r: Result<Vec<Lambda>, ModelError>)
    ensures
        outcome(r) == grant_group(functions(lambdas@), *group),
{
    let ghost fs = functions(lambdas@);
    let key = group.key.as_str();
    let items = match &group.value.shape {
        Shape::Array(items) => items,
        _ => {
            return Err(ModelError::Structure(Fault::ExpectedArray, key.to_owned()));
        },
    };
    let mut lambdas = lambdas;
    let mut i: usize = 0;
    while i < items.len()
        invariant
            i <= items.len(),
            key@ == group.key.text(),
            grant_items(fs, key@, items@, i as int) == Ok::<Seq<Function>, Failure>(
                functions(lambdas@),
            ),
        decreases items.len() - i,
    {
        match grant_to(lambdas, key, &items[i]) {
            Ok(after) => {
                lambdas = after;
            },
            Err(e) => {
                proof {
                    assert(grant_items(fs, key@, items@, i as int + 1) is Err);
                    lemma_grant_items_fail(fs, key@, items@, i as int + 1, items@.len() as int);
                }
                return Err(e);
            },
        }
        i += 1;
    }
    Ok(lambdas)
}

/// Once a permission has failed, so have all the permissions up to any
/// later one, and with the same failure.
pub proof fn lemma_grant_items_fail(
    fs: Seq<Function>,
    key: Seq<char>,
    items: Seq<ConfigValue>,
    k: int,
    n: int,
)
    requires
        grant_items(fs, key, items, k) is Err,
        k <= n,
    ensures
        grant_items(fs, key, items, n) == grant_items(fs, key, items, k),
    decreases n - k,
{
    if k < n {
        lemma_grant_items_fail(fs, key, items, k, n - 1);
    }
}

/// Once a group has failed, so have all the groups up to any later one, and
/// with the same failure.
pub proof fn lemma_grant_groups_fail(fs: Seq<Function>, groups: Seq<ConfigEntry>, k: int, n: int)
    requires
        grant_groups(fs, groups, k) is Err,
        k <= n,
    ensures
        grant_groups(fs, groups, n) == grant_groups(fs, groups, k),
    decreases n - k,
{
    if k < n {
        lemma_grant_groups_fail(fs, groups, k, n - 1);
    }
}

/// The permissions of a group leave every lambda under its key and with its
/// handler.
pub proof fn lemma_grant_items_keep(
    fs: Seq<Function>,
    key: Seq<char>,
    items: Seq<ConfigValue>,
    n: int,
)
    requires
        grant_items(fs, key, items, n) is Ok,
    ensures
        same_lambdas(fs, grant_items(fs, key, items, n)->Ok_0),
    decreases n,
{
    if n > 0 {
        lemma_grant_items_keep(fs, key, items, n - 1);
        let before = grant_items(fs, key, items, n - 1)->Ok_0;
        let after = grant_items(fs, key, items, n)->Ok_0;
        lemma_grant_item_keeps(before, key, items[n - 1]);
        lemma_same_lambdas_twice(fs, before, after);
    }
}

/// What `key_index` finds is a lambda with the key.
pub proof fn lemma_key_index(fs: Seq<Function>, key: Seq<char>, from: int)
    requires
        0 <= from,
    ensures
        key_index(fs, key, from) == -1 || (from <= key_index(fs, key, from) < fs.len()
            && fs[key_index(fs, key, from)].key == key),
    decreases fs.len() - from,
{
    if from < fs.len() && fs[from].key != key {
        lemma_key_index(fs, key, from + 1);
    }
}

/// One permission leaves every lambda under its key and with its handler.
pub proof fn lemma_grant_item_keeps(fs: Seq<Function>, key: Seq<char>, item: ConfigValue)
    requires
        grant_item(fs, key, item) is Ok,
    ensures
        same_lambdas(fs, grant_item(fs, key, item)->Ok_0),
{
    lemma_key_index(fs, key, 0);
    let after = grant_item(fs, key, item)->Ok_0;
    assert forall|i: int| 0 <= i < fs.len() implies (#[trigger] fs[i]).key == after[i].key
        && fs[i].handler == after[i].handler by {}
}

/// The groups of permissions leave every lambda under its key and with its
/// handler.
pub proof fn lemma_grant_groups_keep(fs: Seq<Function>, groups: Seq<ConfigEntry>, n: int)
    requires
        grant_groups(fs, groups, n) is Ok,
    ensures
        same_lambdas(fs, grant_groups(fs, groups, n)->Ok_0),
    decreases n,
{
    if n > 0 {
        lemma_grant_groups_keep(fs, groups, n - 1);
        let before = grant_groups(fs, groups, n - 1)->Ok_0;
        let after = grant_groups(fs, groups, n)->Ok_0;
        match groups[n - 1].value.shape {
            Shape::Array(items) => {
                lemma_grant_items_keep(
                    before,
                    groups[n - 1].key.text(),
                    items@,
                    items@.len() as int,
                );
            },
            _ => {},
        }
        lemma_same_lambdas_twice(fs, before, after);
    }
}

/// The stage of the permissions leaves every lambda under its key and with
/// its handler.
pub proof fn lemma_permissions_keep(body: ConfigBody, fs: Seq<Function>)
    requires
        permissions(body, fs) is Ok,
    ensures
        same_lambdas(fs, permissions(body, fs)->Ok_0),
{
    match local(body, "lambdas_permissions"@, Fault::MissingPermissions) {
        Ok(value) => match value.shape {
            Shape::Object(groups) => {
                lemma_grant_groups_keep(fs, groups@, groups@.len() as int);
            },
            _ => {},
        },
        Err(_) => {},
    }
}

fn say_extra_key(key: &str) -> (r: String)
    ensures
        r@ == extra_key(key@),
{
    let mut m = "'lambda_permissions' has extra key '".to_owned();
    m.append(key);
    m.append("'");
    m
}

fn say_duplicate_key(key: &str) -> (r: String)
    ensures
        r@ == duplicate_key(key@),
{
    let mut m = "Key is duplicated: ".to_owned();
    m.append(key);
    m
}

/// What is held against the groups of permissions: each key that no lambda
/// has, and each key that two groups share.
pub fn check_permissions(lambdas: &[Lambda], groups: &Vec<ConfigEntry>) -> (r: Diagnostics)
    ensures
        r@ == permission_findings(functions(lambdas@), groups@, groups@.len() as int),
{
    let ghost fs = functions(lambdas@);
    let mut found = Diagnostics::new();
    let mut i: usize = 0;
    while i < groups.len()
        invariant
            i <= groups.len(),
            fs == functions(lambdas@),
            found@ == permission_findings(fs, groups@, i as int),
        decreases groups.len() - i,
    {
        let ghost before = found@;
        let key = groups[i].key.as_str();
        let mut group = Diagnostics::new();
        if find_lambda(lambdas, key).is_none() {
            group.error(Issue::UnknownPermissionKey, say_extra_key(key));
        }
        let ghost first = group@;
        let mut j: usize = i + 1;
        while j < groups.len()
            invariant
                i < j <= groups.len(),
                key@ == groups@[i as int].key.text(),
                group@ == first + repeated_findings(groups@, i as int, j as int),
            decreases groups.len() - j,
        {
            let ghost row = repeated_findings(groups@, i as int, j as int);
            if equal(key, groups[j].key.as_str()) {
                group.error(Issue::DuplicatePermissionKey, say_duplicate_key(key));
                assert(group@ == first + (row + seq![
                    error(Issue::DuplicatePermissionKey, duplicate_key(key@)),
                ]));
            } else {
                assert(group@ == first + (row + Seq::<Finding>::empty()));
            }
            j += 1;
        }
        assert(group@ == group_findings(fs, groups@, i as int));
        found.append(group);
        i += 1;
    }
    found
}

/// Where the first entry whose key is no plain name stands.
fn find_expression(entries: &Vec<ConfigEntry>) -> (r: Option<usize>)
    ensures
        match r {
            Some(at) => at < entries@.len() && at as int == expression_index(entries@, 0),
            None => expression_index(entries@, 0) == -1,
        },
{
    let mut i: usize = 0;
    while i < entries.len()
        invariant
            i <= entries.len(),
            expression_index(entries@, 0) == expression_index(entries@, i as int),
        decreases entries.len() - i,
    {
        match &entries[i].key {
            ConfigKey::Expression(_) => {
                return Some(i);
            },
            ConfigKey::Identifier(_) => {},
        }
        i += 1;
    }
    None
}

/// The lambdas with the permissions that the tree of a configuration
/// grants.
#[verifier::loop_isolation(false)]
pub fn permissions_of(body: &ConfigBody, lambdas: Vec<Lambda>) -> (r: Result<
    Vec<Lambda>,
    ModelError,
>)
    ensures
        outcome(r) == permissions(*body, functions(lambdas@)),
{
    let ghost fs = functions(lambdas@);
    let value = match find_local(body, "lambdas_permissions", Fault::MissingPermissions) {
        Ok(value) => value,
        Err(fault) => {
            return Err(ModelError::Structure(fault, String::new()));
        },
    };
    let groups = match &value.shape {
        Shape::Object(groups) => groups,
        _ => {
            return Err(ModelError::Structure(Fault::ExpectedObject, String::new()));
        },
    };
    if let Some(at) = find_expression(groups) {
        return Err(
            ModelError::Structure(Fault::ExpectedIdentifier, groups[at].key.as_str().to_owned()),
        );
    }
    let mut lambdas = lambdas;
    let mut i: usize = 0;
    while i < groups.len()
        invariant
            i <= groups.len(),
            grant_groups(fs, groups@, i as int) == Ok::<Seq<Function>, Failure>(
                functions(lambdas@),
            ),
        decreases groups.len() - i,
    {
        match grant_all(lambdas, &groups[i]) {
            Ok(after) => {
                lambdas = after;
            },
            Err(e) => {
                proof {
                    assert(grant_groups(fs, groups@, i as int + 1) is Err);
                    lemma_grant_groups_fail(fs, groups@, i as int + 1, groups@.len() as int);
                }
                return Err(e);
            },
        }
        i += 1;
    }
    let found = check_permissions(lambdas.as_slice(), groups);
    if found.is_empty() {
        Ok(lambdas)
    } else {
        Err(ModelError::Invalid(found))
    }
}

/// The lambdas with the routes and triggers that the text of the
/// permissions gives them.
///
/// The parser refuses a text in which an object holds one key twice: such a
/// text has no tree, and fails with the parser's message as
/// [`ModelError::Syntax`]. That two groups stand under one key is held
/// against a tree that was built otherwise ([`permissions_of`]); a tree
/// from the parser cannot show it.
pub fn validate_lambda_permissions(lambda_permissions: &str, lambda_metadata: Vec<Lambda>) -> (r:
    Result<Vec<Lambda>, ModelError>)
    ensures
        outcome(r) == permissions_of_text(
            config_of(lambda_permissions@),
            functions(lambda_metadata@),
        ),
{
    match read_config(lambda_permissions) {
        Ok(body) => permissions_of(&body, lambda_metadata),
        Err(message) => Err(ModelError::Syntax(message)),
    }
}

} // verus!
