//! What the gateway and the state machines say of the lambdas.
//!
//! Both are read line by line. A line of the gateway that names the key of
//! a lambda gives the lambda its placeholder: what stands before the colon
//! of the line. A line of a state machine that refers to a lambda by its
//! key links the lambda to the state machines.

use crate::config::{read_config, config_of, ConfigBody};
use crate::diagnostics::{error, lemma_holds_add, Diagnostics, Finding, Issue};
use crate::error::{Failure, ModelError};
use crate::registry::{lemma_same_lambdas_twice, outcome, same_lambdas};
use crate::terraform::{functions, Function, Lambda};
use crate::text::{
    before, chars_of, contains, head, includes, lines, matches_at, occurs_at, split_lines,
    string_of, trim, trimmed, views,
};
use vstd::prelude::*;

verus! {

/// The line is a comment: behind white space it begins with `#` or `//`.
pub open spec fn is_comment(line: Seq<char>) -> bool {
    matches_at(trim(line), 0, "#"@) || matches_at(trim(line), 0, "//"@)
}

/// The placeholder that a line of the gateway gives: what stands before its
/// first colon, without white space around it.
pub open spec fn placeholder_of(line: Seq<char>) -> Seq<char> {
    trim(before(line, ':'))
}

/// The line names the lambda: it is no comment, and the key of the lambda
/// occurs in it.
pub open spec fn names(line: Seq<char>, f: Function) -> bool {
    !is_comment(line) && contains(line, f.key)
}

/// The lambda after one line of the gateway: a line that names it gives it
/// its placeholder.
pub open spec fn wire_one(f: Function, line: Seq<char>) -> Function {
    if names(line, f) {
        Function { placeholder: Some(placeholder_of(line)), ..f }
    } else {
        f
    }
}

/// The lambdas after one line of the gateway. The line gives its
/// placeholder to every lambda that it names.
pub open spec fn wire(fs: Seq<Function>, line: Seq<char>) -> Seq<Function> {
    Seq::new(fs.len(), |i: int| wire_one(fs[i], line))
}

/// What is said of a lambda that the gateway is wired to twice.
pub open spec fn used_more_than_once(key: Seq<char>) -> Seq<char> {
    "The lambda key '"@ + key + "' is used more than once"@
}

/// What is held against one line of the gateway and one lambda: that the
/// line names the lambda and the lambda has a placeholder already.
pub open spec fn wire_one_findings(f: Function, line: Seq<char>) -> Seq<Finding> {
    if names(line, f) && f.placeholder is Some {
        seq![error(Issue::DuplicatePlaceholder, used_more_than_once(f.key))]
    } else {
        Seq::empty()
    }
}

/// What is held against one line of the gateway and the first `n` lambdas,
/// in the order of the lambdas.
pub open spec fn named_findings(fs: Seq<Function>, line: Seq<char>, n: int) -> Seq<Finding>
    decreases n,
{
    if n <= 0 {
        Seq::empty()
    } else {
        named_findings(fs, line, n - 1) + wire_one_findings(fs[n - 1], line)
    }
}

/// What is held against one line of the gateway: one error for each lambda
/// that it names and that has a placeholder already.
pub open spec fn wire_findings(fs: Seq<Function>, line: Seq<char>) -> Seq<Finding> {
    named_findings(fs, line, fs.len() as int)
}

/// The lambdas after the first `n` lines of the gateway.
pub open spec fn wired(fs: Seq<Function>, ls: Seq<Seq<char>>, n: int) -> Seq<Function>
    decreases n,
{
    if n <= 0 {
        fs
    } else {
        wire(wired(fs, ls, n - 1), ls[n - 1])
    }
}

/// What is held against the first `n` lines of the gateway.
pub open spec fn wiring_findings(fs: Seq<Function>, ls: Seq<Seq<char>>, n: int) -> Seq<Finding>
    decreases n,
{
    if n <= 0 {
        Seq::empty()
    } else {
        wiring_findings(fs, ls, n - 1) + wire_findings(wired(fs, ls, n - 1), ls[n - 1])
    }
}

/// The lambdas `fs` with the placeholders that the text of the gateway
/// gives them, if no lambda is given two.
pub open spec fn gateway(text: Seq<char>, fs: Seq<Function>) -> Result<Seq<Function>, Failure> {
    if wiring_findings(fs, lines(text), lines(text).len() as int).len() == 0 {
        Ok(wired(fs, lines(text), lines(text).len() as int))
    } else {
        Err(Failure::Invalid(wiring_findings(fs, lines(text), lines(text).len() as int)))
    }
}

/// The same for a text that must also be in its language.
pub open spec fn gateway_of_text(
    parsed: Result<ConfigBody, Seq<char>>,
    text: Seq<char>,
    fs: Seq<Function>,
) -> Result<Seq<Function>, Failure> {
    match parsed {
        Ok(_) => gateway(text, fs),
        Err(message) => Err(Failure::Syntax(message)),
    }
}

/// How a state machine refers to the lambda `key`.
pub open spec fn reference(key: Seq<char>) -> Seq<char> {
    "module.lambda[\""@ + key
}

/// Some line of `ls` refers to the lambda `key`.
pub open spec fn refers(ls: Seq<Seq<char>>, key: Seq<char>) -> bool {
    exists|i: int| 0 <= i < ls.len() && contains(#[trigger] ls[i], reference(key))
}

/// The lambda `f`, linked to the state machines if a line of `ls` refers to
/// it.
pub open spec fn linked(f: Function, ls: Seq<Seq<char>>) -> Function {
    Function { step_function: f.step_function || refers(ls, f.key), ..f }
}

/// The lambdas `fs`, each linked to the state machines if a line of the
/// text refers to it.
pub open spec fn state_machines(text: Seq<char>, fs: Seq<Function>) -> Seq<Function> {
    Seq::new(fs.len(), |i: int| linked(fs[i], lines(text)))
}

/// The same for a text that must also be in its language.
pub open spec fn state_machines_of_text(
    parsed: Result<ConfigBody, Seq<char>>,
    text: Seq<char>,
    fs: Seq<Function>,
) -> Result<Seq<Function>, Failure> {
    match parsed {
        Ok(_) => Ok(state_machines(text, fs)),
        Err(message) => Err(Failure::Syntax(message)),
    }
}

/// The lines of the gateway leave every lambda under its key and with its
/// handler.
pub proof fn lemma_wired_keeps(fs: Seq<Function>, ls: Seq<Seq<char>>, n: int)
    ensures
        same_lambdas(fs, wired(fs, ls, n)),
    decreases n,
{
    if n > 0 {
        lemma_wired_keeps(fs, ls, n - 1);
        let before = wired(fs, ls, n - 1);
        lemma_wire_keeps(before, ls[n - 1]);
        lemma_same_lambdas_twice(fs, before, wired(fs, ls, n));
    }
}

/// One line of the gateway leaves every lambda under its key and with its
/// handler.
pub proof fn lemma_wire_keeps(fs: Seq<Function>, line: Seq<char>)
    ensures
        same_lambdas(fs, wire(fs, line)),
{
}

/// A lambda that two lines of the gateway name is wired twice: the second
/// of the lines is held against it, whatever other lambdas the lines name.
pub proof fn lemma_named_twice_refused(
    fs: Seq<Function>,
    ls: Seq<Seq<char>>,
    i: int,
    a: int,
    b: int,
)
    requires
        0 <= i < fs.len(),
        0 <= a < b < ls.len(),
        names(ls[a], fs[i]),
        names(ls[b], fs[i]),
    ensures
        wiring_findings(fs, ls, ls.len() as int).contains(
            error(Issue::DuplicatePlaceholder, used_more_than_once(fs[i].key)),
        ),
{
    let x = error(Issue::DuplicatePlaceholder, used_more_than_once(fs[i].key));
    let before = wired(fs, ls, b);
    lemma_wired_keeps(fs, ls, b);
    lemma_wired_holds(fs, ls, b, i, a);
    assert(wire_one_findings(before[i], ls[b])[0] == x);
    lemma_named_findings_hold(before, ls[b], before.len() as int, i, x);
    lemma_wiring_findings_hold(fs, ls, ls.len() as int, b, x);
}

/// A gateway in which two lines name one lambda gives no lambdas: the run
/// ends with what is held against it.
pub proof fn lemma_gateway_refuses_second_line(
    text: Seq<char>,
    fs: Seq<Function>,
    i: int,
    a: int,
    b: int,
)
    requires
        0 <= i < fs.len(),
        0 <= a < b < lines(text).len(),
        names(lines(text)[a], fs[i]),
        names(lines(text)[b], fs[i]),
    ensures
        gateway(text, fs) is Err,
{
    let ls = lines(text);
    let x = error(Issue::DuplicatePlaceholder, used_more_than_once(fs[i].key));
    lemma_named_twice_refused(fs, ls, i, a, b);
    let found = wiring_findings(fs, ls, ls.len() as int);
    let at = choose|at: int| 0 <= at < found.len() && found[at] == x;
    assert(found.len() > 0);
}

/// A lambda that one of the first `n` lines names has a placeholder after
/// these lines, and keeps its key.
pub proof fn lemma_wired_holds(fs: Seq<Function>, ls: Seq<Seq<char>>, n: int, i: int, a: int)
    requires
        0 <= i < fs.len(),
        0 <= a < n,
        names(ls[a], fs[i]),
    ensures
        wired(fs, ls, n).len() == fs.len(),
        wired(fs, ls, n)[i].placeholder is Some,
        wired(fs, ls, n)[i].key == fs[i].key,
    decreases n,
{
    lemma_wired_keeps(fs, ls, n);
    lemma_wired_keeps(fs, ls, n - 1);
    if a < n - 1 {
        lemma_wired_holds(fs, ls, n - 1, i, a);
    }
}

/// What is held against a line and one of the first `n` lambdas is among
/// what is held against the line and these lambdas.
pub proof fn lemma_named_findings_hold(
    fs: Seq<Function>,
    line: Seq<char>,
    n: int,
    i: int,
    x: Finding,
)
    requires
        0 <= i < n,
        wire_one_findings(fs[i], line).contains(x),
    ensures
        named_findings(fs, line, n).contains(x),
    decreases n,
{
    if i < n - 1 {
        lemma_named_findings_hold(fs, line, n - 1, i, x);
    }
    lemma_holds_add(named_findings(fs, line, n - 1), wire_one_findings(fs[n - 1], line), x);
}

/// What is held against one of the first `n` lines is among what is held
/// against these lines.
pub proof fn lemma_wiring_findings_hold(
    fs: Seq<Function>,
    ls: Seq<Seq<char>>,
    n: int,
    b: int,
    x: Finding,
)
    requires
        0 <= b < n,
        wire_findings(wired(fs, ls, b), ls[b]).contains(x),
    ensures
        wiring_findings(fs, ls, n).contains(x),
    decreases n,
{
    if b < n - 1 {
        lemma_wiring_findings_hold(fs, ls, n - 1, b, x);
    }
    lemma_holds_add(
        wiring_findings(fs, ls, n - 1),
        wire_findings(wired(fs, ls, n - 1), ls[n - 1]),
        x,
    );
}

/// The state machines leave every lambda under its key and with its
/// handler.
pub proof fn lemma_state_machines_keep(text: Seq<char>, fs: Seq<Function>)
    ensures
        same_lambdas(fs, state_machines(text, fs)),
{
}

/// Whether the line is a comment.
pub fn comment(line: &[char]) -> (r: bool)
    ensures
        r == is_comment(line@),
{
    let bare = trimmed(line);
    let hash = chars_of("#");
    let slashes = chars_of("//");
    occurs_at(bare.as_slice(), 0, hash.as_slice()) || occurs_at(
        bare.as_slice(),
        0,
        slashes.as_slice(),
    )
}

fn say_used_more_than_once(key: &str) -> (r: String)
    ensures
        r@ == used_more_than_once(key@),
{
    let mut m = "The lambda key '".to_owned();
    m.append(key);
    m.append("' is used more than once");
    m
}

/// The lambdas after one line of the gateway, and what is held against the
/// line.
fn wire_line(lambdas: Vec<Lambda>, line: &[char]) -> (r: (Vec<Lambda>, Diagnostics))
    ensures
        functions(r.0@) == wire(functions(lambdas@), line@),
        r.1@ == wire_findings(functions(lambdas@), line@),
{
    let mut lambdas = lambdas;
    let ghost fs = functions(lambdas@);
    let mut found = Diagnostics::new();
    if comment(line) {
        assert(functions(lambdas@) =~= wire(fs, line@));
        proof {
            lemma_named_findings_none(fs, line@, fs.len() as int);
        }
        return (lambdas, found);
    }
    let name = trimmed(head(line, ':').as_slice());
    let mut i: usize = 0;
    while i < lambdas.len()
        invariant
            i <= lambdas.len(),
            lambdas@.len() == fs.len(),
            !is_comment(line@),
            name@ == placeholder_of(line@),
            forall|k: int| 0 <= k < i ==> (#[trigger] functions(lambdas@)[k]) == wire_one(fs[k], line@),
            forall|k: int| i <= k < fs.len() ==> (#[trigger] functions(lambdas@)[k]) == fs[k],
            found@ == named_findings(fs, line@, i as int),
        decreases lambdas.len() - i,
    {
        let ghost held = functions(lambdas@);
        let key = chars_of(lambdas[i].key.as_str());
        assert(held[i as int] == lambdas@[i as int]@);
        if includes(line, key.as_slice()) {
            let mut lambda = lambdas.remove(i);
            assert(lambda@ == fs[i as int]);
            if lambda.arn_template_key.is_some() {
                found.error(
                    Issue::DuplicatePlaceholder,
                    say_used_more_than_once(lambda.key.as_str()),
                );
            } else {
                assert(found@ + Seq::<Finding>::empty() == found@);
            }
            lambda.arn_template_key = Some(string_of(name.as_slice()));
            assert(lambda@ == wire_one(fs[i as int], line@));
            lambdas.insert(i, lambda);
            assert(functions(lambdas@) =~= held.update(i as int, wire_one(fs[i as int], line@)));
        } else {
            assert(found@ + Seq::<Finding>::empty() == found@);
        }
        i += 1;
    }
    assert(functions(lambdas@) =~= wire(fs, line@));
    (lambdas, found)
}

/// Nothing is held against a line that is a comment.
pub proof fn lemma_named_findings_none(fs: Seq<Function>, line: Seq<char>, n: int)
    requires
        is_comment(line),
    ensures
        named_findings(fs, line, n) == Seq::<Finding>::empty(),
    decreases n,
{
    if n > 0 {
        lemma_named_findings_none(fs, line, n - 1);
    }
}

/// The lambdas with the placeholders that the lines of the gateway give
/// them.
pub fn wire_gateway(text: &str, lambdas: Vec<Lambda>) -> (r: Result<Vec<Lambda>, ModelError>)
    ensures
        outcome(r) == gateway(text@, functions(lambdas@)),
{
    let ghost fs = functions(lambdas@);
    let chars = chars_of(text);
    let rows = split_lines(chars.as_slice());
    let ghost ls = lines(text@);
    let mut lambdas = lambdas;
    let mut found = Diagnostics::new();
    let mut i: usize = 0;
    while i < rows.len()
        invariant
            i <= rows.len(),
            views(rows@) == ls,
            functions(lambdas@) == wired(fs, ls, i as int),
            found@ == wiring_findings(fs, ls, i as int),
        decreases rows.len() - i,
    {
        assert(ls[i as int] == rows@[i as int]@);
        let step = wire_line(lambdas, rows[i].as_slice());
        lambdas = step.0;
        found.append(step.1);
        i += 1;
    }
    if found.is_empty() {
        Ok(lambdas)
    } else {
        Err(ModelError::Invalid(found))
    }
}

/// Validate and extract data from api_gateway.tf
pub fn extract_api_gw(api_gw: &str, lambda: Vec<Lambda>) -> (r: Result<Vec<Lambda>, ModelError>)
    ensures
        outcome(r) == gateway_of_text(config_of(api_gw@), api_gw@, functions(lambda@)),
{
    match read_config(api_gw) {
        Ok(_) => wire_gateway(api_gw, lambda),
        Err(message) => Err(ModelError::Syntax(message)),
    }
}

/// How a state machine refers to the lambda `key`.
fn reference_to(key: &str) -> (r: Vec<char>)
    ensures
        r@ == reference(key@),
{
    let mut pattern = "module.lambda[\"".to_owned();
    pattern.append(key);
    chars_of(pattern.as_str())
}

/// Whether some of the lines refers to the lambda `key`.
fn is_referred(rows: &Vec<Vec<char>>, key: &str) -> (r: bool)
    ensures
        r == refers(views(rows@), key@),
{
    let pattern = reference_to(key);
    let ghost ls = views(rows@);
    let mut i: usize = 0;
    while i < rows.len()
        invariant
            i <= rows.len(),
            ls == views(rows@),
            pattern@ == reference(key@),
            forall|k: int| 0 <= k < i ==> !contains(#[trigger] ls[k], reference(key@)),
        decreases rows.len() - i,
    {
        assert(ls[i as int] == rows@[i as int]@);
        if includes(rows[i].as_slice(), pattern.as_slice()) {
            return true;
        }
        i += 1;
    }
    false
}

/// The lambdas, each linked to the state machines if a line of the text
/// refers to it.
pub fn link_state_machines(lambdas: Vec<Lambda>, text: &str) -> (r: Vec<Lambda>)
    ensures
        functions(r@) == state_machines(text@, functions(lambdas@)),
{
    let ghost fs = functions(lambdas@);
    let chars = chars_of(text);
    let rows = split_lines(chars.as_slice());
    let ghost ls = lines(text@);
    let mut lambdas = lambdas;
    let mut i: usize = 0;
    while i < lambdas.len()
        invariant
            i <= lambdas.len(),
            views(rows@) == ls,
            lambdas@.len() == fs.len(),
            forall|k: int| 0 <= k < i ==> (#[trigger] functions(lambdas@)[k]) == linked(fs[k], ls),
            forall|k: int| i <= k < fs.len() ==> (#[trigger] functions(lambdas@)[k]) == fs[k],
        decreases lambdas.len() - i,
    {
        let ghost held = functions(lambdas@);
        let mut lambda = lambdas.remove(i);
        assert(lambda@ == held[i as int]);
        if is_referred(&rows, lambda.key.as_str()) {
            lambda.step_function = true;
        }
        assert(lambda@ == linked(fs[i as int], ls));
        lambdas.insert(i, lambda);
        assert(functions(lambdas@) =~= held.update(i as int, linked(fs[i as int], ls)));
        i += 1;
    }
    assert(functions(lambdas@) =~= state_machines(text@, fs));
    lambdas
}

/// Validate and extract data from step_function.tf
pub fn extract_step_function(lambda_data: Vec<Lambda>, step_fn: &str) -> (r: Result<
    Vec<Lambda>,
    ModelError,
>)
    ensures
        outcome(r) == state_machines_of_text(
            config_of(step_fn@),
            step_fn@,
            functions(lambda_data@),
        ),
{
    match read_config(step_fn) {
        Ok(_) => Ok(link_state_machines(lambda_data, step_fn)),
        Err(message) => Err(ModelError::Syntax(message)),
    }
}

} // verus!
