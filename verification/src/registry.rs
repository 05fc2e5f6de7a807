//! The registry of lambdas: what `lambdas` in the block `locals` declares.
//!
//! Each entry of the object `lambdas` declares one lambda under its key,
//! with a `handler`. No two lambdas may share a key, and no two a handler.

use crate::config::{
    read_config, config_of, ConfigAttribute, ConfigBlock, ConfigBody, ConfigEntry, ConfigKey,
    ConfigValue, Shape,
};
use crate::diagnostics::{error, lemma_holds_add, Diagnostics, Finding, Issue};
use crate::error::{Failure, Fault, ModelError};
use crate::terraform::{declared, functions, Function, Lambda, LambdaTriggerType};
use crate::text::{chars_of, either, equal, matches_either, string_of, strip, without};
use vstd::prelude::*;

verus! {

/// Where the first block called `name` stands at or after `from`, or -1.
pub open spec fn block_index(blocks: Seq<ConfigBlock>, name: Seq<char>, from: int) -> int
    decreases blocks.len() - from,
{
    if from < 0 || from >= blocks.len() {
        -1
    } else if blocks[from].identifier@ == name {
        from
    } else {
        block_index(blocks, name, from + 1)
    }
}

/// Where the first attribute called `name` stands at or after `from`, or -1.
pub open spec fn attribute_index(attributes: Seq<ConfigAttribute>, name: Seq<char>, from: int) -> int
    decreases attributes.len() - from,
{
    if from < 0 || from >= attributes.len() {
        -1
    } else if attributes[from].key@ == name {
        from
    } else {
        attribute_index(attributes, name, from + 1)
    }
}

/// Where the first entry whose key reads `name` stands at or after `from`,
/// or -1.
pub open spec fn entry_index(entries: Seq<ConfigEntry>, name: Seq<char>, from: int) -> int
    decreases entries.len() - from,
{
    if from < 0 || from >= entries.len() {
        -1
    } else if entries[from].key.text() == name {
        from
    } else {
        entry_index(entries, name, from + 1)
    }
}

/// The value of the attribute `name` in the first block `locals`. Without
/// such a block `MissingLocals` is the fault, without the attribute
/// `missing`.
pub open spec fn local(body: ConfigBody, name: Seq<char>, missing: Fault) -> Result<
    ConfigValue,
    Fault,
> {
    if block_index(body.blocks@, "locals"@, 0) < 0 {
        Err(Fault::MissingLocals)
    } else {
        let block = body.blocks@[block_index(body.blocks@, "locals"@, 0)];
        if attribute_index(block.attributes@, name, 0) < 0 {
            Err(missing)
        } else {
            Ok(block.attributes@[attribute_index(block.attributes@, name, 0)].value)
        }
    }
}

/// The key names the handler: a plain name that spells `handler`, in
/// whatever case.
pub open spec fn is_handler_key(key: ConfigKey) -> bool {
    match key {
        ConfigKey::Identifier(name) => matches_either(name@, "handler"@, "HANDLER"@),
        ConfigKey::Expression(_) => false,
    }
}

/// Where the first entry that names the handler stands at or after `from`,
/// or -1.
pub open spec fn handler_index(entries: Seq<ConfigEntry>, from: int) -> int
    decreases entries.len() - from,
{
    if from < 0 || from >= entries.len() {
        -1
    } else if is_handler_key(entries[from].key) {
        from
    } else {
        handler_index(entries, from + 1)
    }
}

/// The lambda that one entry of `lambdas` declares. Its key must be a plain
/// name and its value an object with a handler. The handler is the value as
/// it is written, without double quotes.
pub open spec fn declaration(entry: ConfigEntry) -> Result<Function, Failure> {
    match entry.key {
        ConfigKey::Identifier(name) => match entry.value.shape {
            Shape::Object(data) => if handler_index(data@, 0) < 0 {
                Err(Failure::Structure(Fault::MissingHandler, name@))
            } else {
                Ok(declared(name@, without(data@[handler_index(data@, 0)].value.text@, '"')))
            },
            _ => Err(Failure::Structure(Fault::ExpectedObject, name@)),
        },
        ConfigKey::Expression(written) => Err(
            Failure::Structure(Fault::ExpectedIdentifier, written@),
        ),
    }
}

/// The lambdas that the first `n` entries declare, in their order, or the
/// failure of the first entry that declares none.
pub open spec fn declarations(entries: Seq<ConfigEntry>, n: int) -> Result<Seq<Function>, Failure>
    decreases n,
{
    if n <= 0 {
        Ok(Seq::empty())
    } else {
        match declarations(entries, n - 1) {
            Err(e) => Err(e),
            Ok(fs) => match declaration(entries[n - 1]) {
                Err(e) => Err(e),
                Ok(f) => Ok(fs.push(f)),
            },
        }
    }
}

/// What is said of a key that two lambdas share.
pub open spec fn duplicate_key(key: Seq<char>) -> Seq<char> {
    "Key is duplicated: "@ + key
}

/// What is said of a handler that two lambdas share.
pub open spec fn duplicate_handler(first: Seq<char>, second: Seq<char>, handler: Seq<char>) -> Seq<
    char,
> {
    "Both lambda keys '"@ + first + "' and '"@ + second + "' are using the same handler "@
        + handler
}

/// What is held against the lambda `a` and a later lambda `b`: first that
/// they share a key, then that they share a handler.
pub open spec fn pair_findings(a: Function, b: Function) -> Seq<Finding> {
    (if a.key == b.key {
        seq![error(Issue::DuplicateKey, duplicate_key(a.key))]
    } else {
        Seq::<Finding>::empty()
    }) + (if a.handler == b.handler {
        seq![error(Issue::DuplicateHandler, duplicate_handler(a.key, b.key, b.handler))]
    } else {
        Seq::<Finding>::empty()
    })
}

/// What is held against the lambda at `i` and those after it, up to `n`.
pub open spec fn later_findings(fs: Seq<Function>, i: int, n: int) -> Seq<Finding>
    decreases n - i,
{
    if n <= i + 1 {
        Seq::empty()
    } else {
        later_findings(fs, i, n - 1) + pair_findings(fs[i], fs[n - 1])
    }
}

/// What is held against the first `n` lambdas, each with all that follow it.
pub open spec fn registry_findings(fs: Seq<Function>, n: int) -> Seq<Finding>
    decreases n,
{
    if n <= 0 {
        Seq::empty()
    } else {
        registry_findings(fs, n - 1) + later_findings(fs, n - 1, fs.len() as int)
    }
}

/// The lambdas that `fs` declares, if nothing is held against them.
pub open spec fn consistent(fs: Seq<Function>) -> Result<Seq<Function>, Failure> {
    if registry_findings(fs, fs.len() as int).len() == 0 {
        Ok(fs)
    } else {
        Err(Failure::Invalid(registry_findings(fs, fs.len() as int)))
    }
}

/// The registry that a configuration declares: the lambdas of the object
/// `lambdas` in `locals`, in their order, each with its key and its
/// handler and nothing else. There is none if the object is absent or
/// misshapen, or if two lambdas share a key or a handler.
pub open spec fn registry(body: ConfigBody) -> Result<Seq<Function>, Failure> {
    match declared_in(body) {
        Err(e) => Err(e),
        Ok(fs) => consistent(fs),
    }
}

/// The lambdas that the object `lambdas` in `locals` declares, before
/// anything is held against them.
pub open spec fn declared_in(body: ConfigBody) -> Result<Seq<Function>, Failure> {
    match local(body, "lambdas"@, Fault::MissingLambdas) {
        Err(fault) => Err(Failure::Structure(fault, Seq::empty())),
        Ok(value) => match value.shape {
            Shape::Object(entries) => declarations(entries@, entries@.len() as int),
            _ => Err(Failure::Structure(Fault::ExpectedObject, Seq::empty())),
        },
    }
}

/// What a stage gives, as a value of the specification.
pub open spec fn outcome(r: Result<Vec<Lambda>, ModelError>) -> Result<Seq<Function>, Failure> {
    match r {
        Ok(lambdas) => Ok(functions(lambdas@)),
        Err(e) => Err(e@),
    }
}

/// The registry that a text declares: that of its tree, or the message of
/// the parser.
pub open spec fn registry_of_text(parsed: Result<ConfigBody, Seq<char>>) -> Result<
    Seq<Function>,
    Failure,
> {
    match parsed {
        Ok(body) => registry(body),
        Err(message) => Err(Failure::Syntax(message)),
    }
}

/// The first block called `name`.
fn find_block<'a>(body: &'a ConfigBody, name: &str) -> (r: Option<&'a ConfigBlock>)
    ensures
        match r {
            Some(block) => 0 <= block_index(body.blocks@, name@, 0) < body.blocks@.len() && *block
                == body.blocks@[block_index(body.blocks@, name@, 0)],
            None => block_index(body.blocks@, name@, 0) == -1,
        },
{
    let mut i: usize = 0;
    while i < body.blocks.len()
        invariant
            i <= body.blocks.len(),
            block_index(body.blocks@, name@, 0) == block_index(body.blocks@, name@, i as int),
        decreases body.blocks.len() - i,
    {
        if equal(body.blocks[i].identifier.as_str(), name) {
            return Some(&body.blocks[i]);
        }
        i += 1;
    }
    None
}

/// The first attribute of `block` called `name`.
fn find_attribute<'a>(block: &'a ConfigBlock, name: &str) -> (r: Option<&'a ConfigAttribute>)
    ensures
        match r {
            Some(attribute) => 0 <= attribute_index(block.attributes@, name@, 0)
                < block.attributes@.len() && *attribute == block.attributes@[attribute_index(
                block.attributes@,
                name@,
                0,
            )],
            None => attribute_index(block.attributes@, name@, 0) == -1,
        },
{
    let mut j: usize = 0;
    while j < block.attributes.len()
        invariant
            j <= block.attributes.len(),
            attribute_index(block.attributes@, name@, 0) == attribute_index(
                block.attributes@,
                name@,
                j as int,
            ),
        decreases block.attributes.len() - j,
    {
        if equal(block.attributes[j].key.as_str(), name) {
            return Some(&block.attributes[j]);
        }
        j += 1;
    }
    None
}

/// The value of the attribute `name` in the first block `locals`.
pub fn find_local<'a>(body: &'a ConfigBody, name: &str, missing: Fault) -> (r: Result<
    &'a ConfigValue,
    Fault,
>)
    ensures
        match r {
            Ok(value) => local(*body, name@, missing) == Ok::<ConfigValue, Fault>(*value),
            Err(fault) => local(*body, name@, missing) == Err::<ConfigValue, Fault>(fault),
        },
{
    match find_block(body, "locals") {
        Some(block) => match find_attribute(block, name) {
            Some(attribute) => Ok(&attribute.value),
            None => Err(missing),
        },
        None => Err(Fault::MissingLocals),
    }
}

/// The first entry whose key reads `name`.
pub fn find_entry<'a>(entries: &'a Vec<ConfigEntry>, name: &str) -> (r: Option<&'a ConfigEntry>)
    ensures
        match r {
            Some(entry) => 0 <= entry_index(entries@, name@, 0) < entries@.len() && *entry
                == entries@[entry_index(entries@, name@, 0)],
            None => entry_index(entries@, name@, 0) == -1,
        },
{
    let mut i: usize = 0;
    while i < entries.len()
        invariant
            i <= entries.len(),
            entry_index(entries@, name@, 0) == entry_index(entries@, name@, i as int),
        decreases entries.len() - i,
    {
        if equal(entries[i].key.as_str(), name) {
            return Some(&entries[i]);
        }
        i += 1;
    }
    None
}

/// The first entry that names the handler.
fn find_handler<'a>(entries: &'a Vec<ConfigEntry>) -> (r: Option<&'a ConfigEntry>)
    ensures
        match r {
            Some(entry) => 0 <= handler_index(entries@, 0) < entries@.len() && *entry
                == entries@[handler_index(entries@, 0)],
            None => handler_index(entries@, 0) == -1,
        },
{
    let lower = chars_of("handler");
    let upper = chars_of("HANDLER");
    let mut i: usize = 0;
    while i < entries.len()
        invariant
            i <= entries.len(),
            lower@ == "handler"@,
            upper@ == "HANDLER"@,
            handler_index(entries@, 0) == handler_index(entries@, i as int),
        decreases entries.len() - i,
    {
        let named = match &entries[i].key {
            ConfigKey::Identifier(name) => {
                let chars = chars_of(name.as_str());
                either(chars.as_slice(), lower.as_slice(), upper.as_slice())
            },
            ConfigKey::Expression(_) => false,
        };
        if named {
            return Some(&entries[i]);
        }
        i += 1;
    }
    None
}

/// `text` without double quotes.
pub fn unquoted(text: &str) -> (r: String)
    ensures
        r@ == without(text@, '"'),
{
    let chars = chars_of(text);
    let bare = strip(chars.as_slice(), '"');
    string_of(bare.as_slice())
}

/// The lambda that one entry of `lambdas` declares.
fn declare(entry: &ConfigEntry) -> (r: Result<Lambda, ModelError>)
    ensures
        match r {
            Ok(lambda) => declaration(*entry) == Ok::<Function, Failure>(lambda@),
            Err(e) => declaration(*entry) == Err::<Function, Failure>(e@),
        },
{
    match &entry.key {
        ConfigKey::Identifier(name) => match &entry.value.shape {
            Shape::Object(data) => match find_handler(data) {
                Some(found) => {
                    let lambda = Lambda {
                        key: name.clone(),
                        handler: unquoted(found.value.text.as_str()),
                        step_function: false,
                        apis: Vec::new(),
                        arn_template_key: None,
                        lambda_type: LambdaTriggerType::ApiGateway,
                    };
                    assert(lambda@.routes =~= Seq::empty());
                    Ok(lambda)
                },
                None => Err(ModelError::Structure(Fault::MissingHandler, name.clone())),
            },
            _ => Err(ModelError::Structure(Fault::ExpectedObject, name.clone())),
        },
        ConfigKey::Expression(written) => Err(
            ModelError::Structure(Fault::ExpectedIdentifier, written.clone()),
        ),
    }
}

fn say_duplicate_key(key: &str) -> (r: String)
    ensures
        r@ == duplicate_key(key@),
{
    let mut m = "Key is duplicated: ".to_owned();
    m.append(key);
    m
}

fn say_duplicate_handler(first: &str, second: &str, handler: &str) -> (r: String)
    ensures
        r@ == duplicate_handler(first@, second@, handler@),
{
    let mut m = "Both lambda keys '".to_owned();
    m.append(first);
    m.append("' and '");
    m.append(second);
    m.append("' are using the same handler ");
    m.append(handler);
    m
}

/// What is held against the declared lambdas: each key and each handler
/// that two of them share.
pub fn check_registry(lambdas: &[Lambda]) -> (r: Diagnostics)
    ensures
        r@ == registry_findings(functions(lambdas@), lambdas@.len() as int),
{
    let ghost fs = functions(lambdas@);
    let mut found = Diagnostics::new();
    let mut i: usize = 0;
    while i < lambdas.len()
        invariant
            i <= lambdas.len(),
            fs == functions(lambdas@),
            found@ == registry_findings(fs, i as int),
        decreases lambdas.len() - i,
    {
        let ghost before = found@;
        let mut j: usize = i + 1;
        while j < lambdas.len()
            invariant
                i < j <= lambdas.len(),
                fs == functions(lambdas@),
                found@ == before + later_findings(fs, i as int, j as int),
            decreases lambdas.len() - j,
        {
            let a = &lambdas[i];
            let b = &lambdas[j];
            assert(fs[i as int] == a@ && fs[j as int] == b@);
            let ghost row = later_findings(fs, i as int, j as int);
            let mut pair = Diagnostics::new();
            if a.key == b.key {
                pair.error(Issue::DuplicateKey, say_duplicate_key(a.key.as_str()));
            }
            if a.handler == b.handler {
                pair.error(
                    Issue::DuplicateHandler,
                    say_duplicate_handler(a.key.as_str(), b.key.as_str(), b.handler.as_str()),
                );
            }
            assert(pair@ == pair_findings(fs[i as int], fs[j as int]));
            found.append(pair);
            assert(found@ == before + (row + pair_findings(fs[i as int], fs[j as int])));
            j += 1;
        }
        i += 1;
    }
    found
}

/// The registry that the tree of a configuration declares.
#[verifier::loop_isolation(false)]
pub fn lambdas_of(body: &ConfigBody) -> (r: Result<Vec<Lambda>, ModelError>)
    ensures
        outcome(r) == registry(*body),
        r matches Ok(lambdas) ==> distinct(functions(lambdas@)),
{
    proof {
        if declared_in(*body) is Ok {
            lemma_consistent_means_distinct(declared_in(*body)->Ok_0);
        }
    }
    let value = match find_local(body, "lambdas", Fault::MissingLambdas) {
        Ok(value) => value,
        Err(fault) => {
            return Err(ModelError::Structure(fault, String::new()));
        },
    };
    let entries = match &value.shape {
        Shape::Object(entries) => entries,
        _ => {
            return Err(ModelError::Structure(Fault::ExpectedObject, String::new()));
        },
    };
    let mut lambdas: Vec<Lambda> = Vec::new();
    let mut i: usize = 0;
    assert(functions(lambdas@) =~= Seq::empty());
    while i < entries.len()
        invariant
            i <= entries.len(),
            declarations(entries@, i as int) == Ok::<Seq<Function>, Failure>(functions(lambdas@)),
        decreases entries.len() - i,
    {
        match declare(&entries[i]) {
            Ok(lambda) => {
                let ghost before = functions(lambdas@);
                lambdas.push(lambda);
                assert(functions(lambdas@) =~= before.push(lambda@));
            },
            Err(e) => {
                proof {
                    assert(declarations(entries@, i as int + 1) is Err);
                    lemma_declarations_fail(entries@, i as int + 1, entries@.len() as int);
                }
                return Err(e);
            },
        }
        i += 1;
    }
    let found = check_registry(lambdas.as_slice());
    if found.is_empty() {
        Ok(lambdas)
    } else {
        Err(ModelError::Invalid(found))
    }
}

/// Once an entry has failed, so have all the entries up to any later one,
/// and with the same failure.
pub proof fn lemma_declarations_fail(entries: Seq<ConfigEntry>, k: int, n: int)
    requires
        declarations(entries, k) is Err,
        k <= n,
    ensures
        declarations(entries, n) == declarations(entries, k),
    decreases n - k,
{
    if k < n {
        lemma_declarations_fail(entries, k, n - 1);
    }
}

/// The lambdas that the text of the registry declares.
///
/// The parser refuses a text in which an object holds one key twice: such a
/// text has no tree, and fails with the parser's message as
/// [`ModelError::Syntax`]. That two lambdas share a key is held against a
/// tree that was built otherwise ([`lambdas_of`]); a tree from the parser
/// cannot show it.
pub fn validate_lambda(lambda: &str) -> (r: Result<Vec<Lambda>, ModelError>)
    ensures
        outcome(r) == registry_of_text(config_of(lambda@)),
{
    match read_config(lambda) {
        Ok(body) => lambdas_of(&body),
        Err(message) => Err(ModelError::Syntax(message)),
    }
}

/// What is held against the lambda at `i` and one of those after it is
/// among what is held against it and all of them up to `n`.
pub proof fn lemma_later_findings_hold(fs: Seq<Function>, i: int, n: int, j: int, x: Finding)
    requires
        i < j < n,
        pair_findings(fs[i], fs[j]).contains(x),
    ensures
        later_findings(fs, i, n).contains(x),
    decreases n - i,
{
    if j < n - 1 {
        lemma_later_findings_hold(fs, i, n - 1, j, x);
    }
    lemma_holds_add(later_findings(fs, i, n - 1), pair_findings(fs[i], fs[n - 1]), x);
}

/// What is held against one of the first `n` lambdas and those after it is
/// among what is held against these lambdas.
pub proof fn lemma_registry_findings_hold(fs: Seq<Function>, n: int, i: int, x: Finding)
    requires
        0 <= i < n,
        later_findings(fs, i, fs.len() as int).contains(x),
    ensures
        registry_findings(fs, n).contains(x),
    decreases n,
{
    if i < n - 1 {
        lemma_registry_findings_hold(fs, n - 1, i, x);
    }
    lemma_holds_add(registry_findings(fs, n - 1), later_findings(fs, n - 1, fs.len() as int), x);
}

/// Two lambdas with the same handler are never consistent, whatever their
/// keys: the error that names the two and their handler is held against
/// them.
pub proof fn lemma_shared_handler_refused(fs: Seq<Function>, i: int, j: int)
    requires
        0 <= i < j < fs.len(),
        fs[i].handler == fs[j].handler,
    ensures
        consistent(fs) matches Err(Failure::Invalid(found)) && found.contains(
            error(Issue::DuplicateHandler, duplicate_handler(fs[i].key, fs[j].key, fs[j].handler)),
        ),
{
    let x = error(Issue::DuplicateHandler, duplicate_handler(fs[i].key, fs[j].key, fs[j].handler));
    let pair = pair_findings(fs[i], fs[j]);
    assert(pair[pair.len() - 1] == x);
    lemma_later_findings_hold(fs, i, fs.len() as int, j, x);
    lemma_registry_findings_hold(fs, fs.len() as int, i, x);
}

/// No two of the lambdas share a key, and no two a handler.
pub open spec fn distinct(fs: Seq<Function>) -> bool {
    forall|i: int, j: int|
        0 <= i < j < fs.len() ==> (#[trigger] fs[i]).key != (#[trigger] fs[j]).key
            && fs[i].handler != fs[j].handler
}

/// The lambdas `b` are the lambdas `a`, each under its key and with its
/// handler, whatever else has changed.
pub open spec fn same_lambdas(a: Seq<Function>, b: Seq<Function>) -> bool {
    &&& a.len() == b.len()
    &&& forall|i: int|
        0 <= i < a.len() ==> (#[trigger] a[i]).key == b[i].key && a[i].handler == b[i].handler
}

/// Lambdas that are consistent are distinct.
pub proof fn lemma_consistent_is_distinct(fs: Seq<Function>)
    requires
        consistent(fs) is Ok,
    ensures
        distinct(fs),
{
    assert forall|i: int, j: int| 0 <= i < j < fs.len() implies (#[trigger] fs[i]).key != (
    #[trigger] fs[j]).key && fs[i].handler != fs[j].handler by {
        if fs[i].handler == fs[j].handler {
            lemma_shared_handler_refused(fs, i, j);
        } else if fs[i].key == fs[j].key {
            let x = error(Issue::DuplicateKey, duplicate_key(fs[i].key));
            assert(pair_findings(fs[i], fs[j])[0] == x);
            lemma_later_findings_hold(fs, i, fs.len() as int, j, x);
            lemma_registry_findings_hold(fs, fs.len() as int, i, x);
        }
    }
}

/// Nothing is held against a lambda and those after it if it shares
/// neither key nor handler with any of them.
pub proof fn lemma_later_findings_none(fs: Seq<Function>, i: int, n: int)
    requires
        0 <= i,
        n <= fs.len(),
        distinct(fs),
    ensures
        later_findings(fs, i, n) == Seq::<Finding>::empty(),
    decreases n - i,
{
    if n > i + 1 {
        lemma_later_findings_none(fs, i, n - 1);
        assert(fs[i].key != fs[n - 1].key && fs[i].handler != fs[n - 1].handler);
        assert(pair_findings(fs[i], fs[n - 1]) =~= Seq::<Finding>::empty());
    }
}

/// Nothing is held against distinct lambdas.
pub proof fn lemma_registry_findings_none(fs: Seq<Function>, n: int)
    requires
        n <= fs.len(),
        distinct(fs),
    ensures
        registry_findings(fs, n) == Seq::<Finding>::empty(),
    decreases n,
{
    if n > 0 {
        lemma_registry_findings_none(fs, n - 1);
        lemma_later_findings_none(fs, n - 1, fs.len() as int);
    }
}

/// Lambdas are consistent exactly if they are distinct.
pub proof fn lemma_consistent_means_distinct(fs: Seq<Function>)
    ensures
        consistent(fs) is Ok <==> distinct(fs),
        distinct(fs) ==> consistent(fs) == Ok::<Seq<Function>, Failure>(fs),
{
    if distinct(fs) {
        lemma_registry_findings_none(fs, fs.len() as int);
    }
    if consistent(fs) is Ok {
        lemma_consistent_is_distinct(fs);
    }
}

/// Distinct lambdas stay distinct whatever changes but their keys and
/// handlers.
pub proof fn lemma_distinct_stays(a: Seq<Function>, b: Seq<Function>)
    requires
        distinct(a),
        same_lambdas(a, b),
    ensures
        distinct(b),
{
    assert forall|i: int, j: int| 0 <= i < j < b.len() implies (#[trigger] b[i]).key != (
    #[trigger] b[j]).key && b[i].handler != b[j].handler by {
        assert(a[i].key == b[i].key && a[j].key == b[j].key);
    }
}

/// The same lambdas twice over are the same lambdas.
pub proof fn lemma_same_lambdas_twice(a: Seq<Function>, b: Seq<Function>, c: Seq<Function>)
    requires
        same_lambdas(a, b),
        same_lambdas(b, c),
    ensures
        same_lambdas(a, c),
{
    assert forall|i: int| 0 <= i < a.len() implies (#[trigger] a[i]).key == c[i].key
        && a[i].handler == c[i].handler by {
        assert(a[i].key == b[i].key && b[i].key == c[i].key);
    }
}

/// A configuration that declares two lambdas with the same handler has no
/// registry: the stage ends with the error that names the two.
pub proof fn lemma_registry_refuses_shared_handler(
    body: ConfigBody,
    fs: Seq<Function>,
    i: int,
    j: int,
)
    requires
        declared_in(body) == Ok::<Seq<Function>, Failure>(fs),
        0 <= i < j < fs.len(),
        fs[i].handler == fs[j].handler,
    ensures
        registry(body) matches Err(Failure::Invalid(found)) && found.contains(
            error(Issue::DuplicateHandler, duplicate_handler(fs[i].key, fs[j].key, fs[j].handler)),
        ),
{
    lemma_shared_handler_refused(fs, i, j);
}

} // verus!
