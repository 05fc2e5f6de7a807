//! Routes, and how one is read out of the source of a gateway permission.
//!
//! A permission names its source as a text such as
//! `${module.api.execution_arn}/*/POST/orders/{id}`: what stands before the
//! path, then a stage, a method and a path, each of which may be a
//! wildcard. [`resolve`] says which route such a text stands for.

use crate::text::{
    after, before, chars_of, contains, count, erase, find, head, includes, index_from,
    lemma_contains_count, lemma_contains_index, lemma_contains_without, lemma_count_add,
    lemma_count_none, lemma_index_from, lemma_index_from_first, lemma_index_of_first,
    lemma_trim_nothing, lemma_without_leaves_none, lemma_without_none, matches_at, occurrences,
    remove_all, slice_of, string_of, strip, tail, trim, trimmed, without,
};
use crate::util::{is_plain, lemma_name_is_plain, HttpMethod};
use vstd::prelude::*;

verus! {

/// API path data
#[derive(Debug, Clone, PartialEq, Eq, PartialOrd, Ord)]
pub struct APIPath {
    /// The HTTP method e.g. GET, POST
    pub method: HttpMethod,
    /// The route path
    pub route: String,
}

/// A pair of method and path that a lambda answers.
pub struct Route {
    pub method: HttpMethod,
    pub path: Seq<char>,
}

impl View for APIPath {
    type V = Route;

    open spec fn view(&self) -> Route {
        Route { method: self.method, path: self.route@ }
    }
}

impl Default for APIPath {
    fn default() -> (r: APIPath)
        ensures
            r@ == (Route { method: HttpMethod::Get, path: Seq::empty() }),
    {
        APIPath { method: HttpMethod::Get, route: String::new() }
    }
}

/// The routes that the paths `v` stand for.
pub open spec fn routes(v: Seq<APIPath>) -> Seq<Route> {
    Seq::new(v.len(), |i: int| v[i]@)
}

/// Why the source of a permission stands for no route.
#[derive(Debug, Clone, Copy, PartialEq, Eq, Structural, Hash)]
pub enum PatternError {
    /// Stage, method and path are all wildcards: the route must be made
    /// explicit.
    TooPermissive,
    /// No method that this crate supports can be read from the text.
    UnsupportedMethod,
}

/// The stage, the method and the path, all of them wildcards.
pub open spec fn triple_wildcard() -> Seq<char> {
    "/*/*/*"@
}

/// The stage and the method, both of them wildcards.
pub open spec fn double_wildcard() -> Seq<char> {
    "/*/*"@
}

/// `path` behind a slash.
pub open spec fn rooted(path: Seq<char>) -> Seq<char> {
    seq!['/'] + path
}

/// `s` without the slash that it may begin with.
pub open spec fn unrooted(s: Seq<char>) -> Seq<char> {
    if s.len() > 0 && s[0] == '/' {
        s.skip(1)
    } else {
        s
    }
}

/// What follows the first occurrence of `pat` in `s`; nothing where there
/// is none.
pub open spec fn after_pattern(s: Seq<char>, pat: Seq<char>) -> Seq<char> {
    if index_from(s, pat, 0) < 0 {
        Seq::empty()
    } else {
        s.skip(index_from(s, pat, 0) + pat.len())
    }
}

/// What a text names once its prefix is gone: what stands between its first
/// closing brace and the next one, or the end. A text without a closing
/// brace has no prefix, and nothing is left of it.
pub open spec fn remainder(section: Seq<char>) -> Seq<char> {
    before(after(section, '}'), '}')
}

/// What is read from `line` for `method`, if its token occurs in `line`:
/// the token, and `line` with every occurrence of the token behind a slash
/// taken out.
pub open spec fn extraction(line: Seq<char>, method: HttpMethod) -> Option<
    (Seq<char>, Seq<char>),
> {
    if contains(line, method.token()) {
        Some((method.token(), remove_all(line, rooted(method.token()))))
    } else {
        None
    }
}

/// The route that `line` stands for under `method`, if its token occurs.
pub open spec fn extracted(line: Seq<char>, method: HttpMethod) -> Option<Route> {
    match extraction(line, method) {
        Some(found) => Some(Route { method, path: found.1 }),
        None => None,
    }
}

/// The route of a text that spells its method out. The first of `GET`,
/// `POST`, `PUT`, `DELETE` and `PATCH`, in this order, whose token occurs in
/// `line` is the method.
pub open spec fn explicit(line: Seq<char>) -> Result<Route, PatternError> {
    if extracted(line, HttpMethod::Get) is Some {
        Ok(extracted(line, HttpMethod::Get)->0)
    } else if extracted(line, HttpMethod::Post) is Some {
        Ok(extracted(line, HttpMethod::Post)->0)
    } else if extracted(line, HttpMethod::Put) is Some {
        Ok(extracted(line, HttpMethod::Put)->0)
    } else if extracted(line, HttpMethod::Delete) is Some {
        Ok(extracted(line, HttpMethod::Delete)->0)
    } else if extracted(line, HttpMethod::Patch) is Some {
        Ok(extracted(line, HttpMethod::Patch)->0)
    } else {
        Err(PatternError::UnsupportedMethod)
    }
}

/// The route of a text with one wildcard, the stage. `rest` is what follows
/// the wildcard: a slash, the method, and behind another slash the path,
/// which is taken as it is.
pub open spec fn behind_stage(rest: Seq<char>) -> Result<Route, PatternError> {
    if rest.len() > 0 && rest[0] == '/' {
        match HttpMethod::parse_spec(trim(before(rest.skip(1), '/'))) {
            Some(method) => Ok(Route { method, path: rooted(after(rest.skip(1), '/')) }),
            None => Err(PatternError::UnsupportedMethod),
        }
    } else {
        Err(PatternError::UnsupportedMethod)
    }
}

/// The route that the source `raw` of a permission stands for. Double
/// quotes count for nothing. Then, in this order:
/// a text that holds three wildcards in a row is refused;
/// with one wildcard, the method and the path follow it;
/// with two, and both in a row, any method is meant and the path follows;
/// any other text spells its method out behind its prefix, and white space
/// around what is left of it counts for nothing.
pub open spec fn resolve(raw: Seq<char>) -> Result<Route, PatternError> {
    let section = without(raw, '"');
    if contains(section, triple_wildcard()) {
        Err(PatternError::TooPermissive)
    } else if count(section, '*') == 1 {
        behind_stage(after(section, '*'))
    } else if count(section, '*') == 2 && contains(section, double_wildcard()) {
        Ok(
            Route {
                method: HttpMethod::Any,
                path: rooted(unrooted(after_pattern(section, double_wildcard()))),
            },
        )
    } else {
        explicit(trim(remainder(section)))
    }
}

/// `path` behind a slash.
fn root(path: &[char]) -> (r: Vec<char>)
    ensures
        r@ == rooted(path@),
{
    let mut out: Vec<char> = Vec::new();
    out.push('/');
    let mut i: usize = 0;
    while i < path.len()
        invariant
            i <= path.len(),
            out@ == seq!['/'] + path@.take(i as int),
        decreases path.len() - i,
    {
        out.push(path[i]);
        i += 1;
    }
    assert(path@.take(path.len() as int) == path@);
    out
}

/// The path that is read from `line` for `method`, if its token occurs.
fn extract(line: &[char], method: HttpMethod) -> (r: Option<Vec<char>>)
    ensures
        match r {
            Some(path) => extracted(line@, method) == Some(Route { method, path: path@ }),
            None => extracted(line@, method) is None,
        },
{
    let token = chars_of(method.as_str());
    if includes(line, token.as_slice()) {
        let segment = root(token.as_slice());
        Some(erase(line, segment.as_slice()))
    } else {
        None
    }
}

/// Extract the API endpoint and HTTP method
pub fn extract_api_and_method(line: &str, method: HttpMethod) -> (r: Option<(String, String)>)
    ensures
        match r {
            Some(found) => extraction(line@, method) == Some((found.0@, found.1@)),
            None => extraction(line@, method) is None,
        },
{
    let chars = chars_of(line);
    match extract(chars.as_slice(), method) {
        Some(path) => Some((method.to_string(), string_of(path.as_slice()))),
        None => None,
    }
}

/// The route of a text that spells its method out.
fn resolve_explicit(line: &[char]) -> (r: Result<(HttpMethod, Vec<char>), PatternError>)
    ensures
        match r {
            Ok(found) => explicit(line@) == Ok::<Route, PatternError>(
                Route { method: found.0, path: found.1@ },
            ),
            Err(e) => explicit(line@) == Err::<Route, PatternError>(e),
        },
{
    if let Some(path) = extract(line, HttpMethod::Get) {
        Ok((HttpMethod::Get, path))
    } else if let Some(path) = extract(line, HttpMethod::Post) {
        Ok((HttpMethod::Post, path))
    } else if let Some(path) = extract(line, HttpMethod::Put) {
        Ok((HttpMethod::Put, path))
    } else if let Some(path) = extract(line, HttpMethod::Delete) {
        Ok((HttpMethod::Delete, path))
    } else if let Some(path) = extract(line, HttpMethod::Patch) {
        Ok((HttpMethod::Patch, path))
    } else {
        Err(PatternError::UnsupportedMethod)
    }
}

/// The route of a text with one wildcard, from what follows the wildcard.
fn resolve_behind_stage(rest: &[char]) -> (r: Result<(HttpMethod, Vec<char>), PatternError>)
    ensures
        match r {
            Ok(found) => behind_stage(rest@) == Ok::<Route, PatternError>(
                Route { method: found.0, path: found.1@ },
            ),
            Err(e) => behind_stage(rest@) == Err::<Route, PatternError>(e),
        },
{
    if rest.len() == 0 || rest[0] != '/' {
        return Err(PatternError::UnsupportedMethod);
    }
    let segments = slice_of(rest, 1, rest.len());
    assert(segments@ == rest@.skip(1));
    let name = trimmed(head(segments.as_slice(), '/').as_slice());
    match HttpMethod::parse_chars(name.as_slice()) {
        Some(method) => {
            let path = tail(segments.as_slice(), '/');
            Ok((method, root(path.as_slice())))
        },
        None => Err(PatternError::UnsupportedMethod),
    }
}

/// The method and the path of the route that `raw` stands for.
pub fn resolve_route(raw: &[char]) -> (r: Result<(HttpMethod, Vec<char>), PatternError>)
    ensures
        match r {
            Ok(found) => resolve(raw@) == Ok::<Route, PatternError>(
                Route { method: found.0, path: found.1@ },
            ),
            Err(e) => resolve(raw@) == Err::<Route, PatternError>(e),
        },
{
    let section = strip(raw, '"');
    let triple = chars_of("/*/*/*");
    if includes(section.as_slice(), triple.as_slice()) {
        return Err(PatternError::TooPermissive);
    }
    let wildcards = occurrences(section.as_slice(), '*');
    if wildcards == 1 {
        let rest = tail(section.as_slice(), '*');
        return resolve_behind_stage(rest.as_slice());
    }
    let double = chars_of("/*/*");
    if wildcards == 2 {
        proof {
            lemma_contains_index(section@, double@);
            lemma_index_from(section@, double@, 0);
        }
        if let Some(at) = find(section.as_slice(), double.as_slice(), 0) {
            assert(matches_at(section@, at as int, double@));
            assert(at + double.len() <= section.len());
            let rest = slice_of(section.as_slice(), at + double.len(), section.len());
            assert(rest@ == after_pattern(section@, double_wildcard()));
            let path = if rest.len() > 0 && rest[0] == '/' {
                let cut = slice_of(rest.as_slice(), 1, rest.len());
                assert(cut@ == rest@.skip(1));
                cut
            } else {
                rest
            };
            return Ok((HttpMethod::Any, root(path.as_slice())));
        }
    }
    let prefixed = tail(section.as_slice(), '}');
    let line = trimmed(head(prefixed.as_slice(), '}').as_slice());
    resolve_explicit(line.as_slice())
}

/// Extract API endpoint and HTTP method from the ARN
pub fn handle_api_gateway_lambda(source_arn: String) -> (r: Result<Vec<String>, PatternError>)
    ensures
        match r {
            Ok(data) => {
                &&& data@.len() == 2
                &&& resolve(source_arn@) matches Ok(route)
                &&& data@[0]@ == route.method.token()
                &&& data@[1]@ == route.path
            },
            Err(e) => resolve(source_arn@) == Err::<Route, PatternError>(e),
        },
{
    let chars = chars_of(source_arn.as_str());
    match resolve_route(chars.as_slice()) {
        Ok(found) => {
            let mut data: Vec<String> = Vec::new();
            data.push(found.0.to_string());
            data.push(string_of(found.1.as_slice()));
            Ok(data)
        },
        Err(e) => Err(e),
    }
}

/// A stage that is a wildcard, with the slashes around it.
pub open spec fn any_stage() -> Seq<char> {
    "/*/"@
}

/// A text with three wildcards in a row is always refused as too
/// permissive, whatever else it holds.
pub proof fn lemma_three_wildcards_refused(raw: Seq<char>)
    requires
        contains(raw, triple_wildcard()),
    ensures
        resolve(raw) == Err::<Route, PatternError>(PatternError::TooPermissive),
{
    reveal_strlit("/*/*/*");
    let triple = triple_wildcard();
    assert forall|i: int| 0 <= i < triple.len() implies triple[i] != '"' by {
        assert(i == 0 || i == 1 || i == 2 || i == 3 || i == 4 || i == 5);
    }
    lemma_count_none(triple, '"');
    lemma_contains_without(raw, triple, '"');
}

/// A text whose only wildcard is the stage stands for the method that is
/// named behind the stage and for the path that follows the name. The path
/// is kept as it is, with whatever query and fragment it ends in.
///
/// The text is `lead`, a wildcard between slashes, `name`, a slash and
/// `path`. It holds no double quote.
pub proof fn lemma_single_wildcard(
    lead: Seq<char>,
    name: Seq<char>,
    method: HttpMethod,
    path: Seq<char>,
)
    requires
        HttpMethod::parse_spec(name) == Some(method),
        count(lead + any_stage() + name + seq!['/'] + path, '*') == 1,
        count(lead + any_stage() + name + seq!['/'] + path, '"') == 0,
    ensures
        resolve(lead + any_stage() + name + seq!['/'] + path) == Ok::<Route, PatternError>(
            Route { method, path: rooted(path) },
        ),
{
    let raw = lead + any_stage() + name + seq!['/'] + path;
    lemma_without_none(raw, '"');
    lemma_wildcard_counts();
    if contains(raw, triple_wildcard()) {
        lemma_contains_count(raw, triple_wildcard(), '*');
    }
    assert(lead + any_stage() + (name + seq!['/'] + path) =~= raw);
    lemma_behind_only_wildcard(lead, name + seq!['/'] + path);
    lemma_behind_stage(name, method, path);
}

/// The stage as a wildcard holds one wildcard, and three wildcards in a row
/// hold three.
proof fn lemma_wildcard_counts()
    ensures
        count(any_stage(), '*') == 1,
        count(triple_wildcard(), '*') == 3,
{
    reveal_strlit("/*/");
    reveal_strlit("/*/*/*");
    let stage = any_stage();
    let triple = triple_wildcard();
    assert(stage =~= seq!['/', '*', '/']);
    assert(triple =~= seq!['/', '*', '/', '*', '/', '*']);
    assert(count(seq!['/', '*', '/'], '*') == 1) by {
        let s = seq!['/', '*', '/'];
        assert(s.drop_last() =~= seq!['/', '*']);
        assert(s.drop_last().drop_last() =~= seq!['/']);
        assert(s.drop_last().drop_last().drop_last() =~= Seq::<char>::empty());
        reveal_with_fuel(count, 4);
    }
    assert(count(seq!['/', '*', '/', '*', '/', '*'], '*') == 3) by {
        let t = seq!['/', '*', '/', '*', '/', '*'];
        assert(t.drop_last() =~= seq!['/', '*', '/', '*', '/']);
        assert(t.drop_last().drop_last() =~= seq!['/', '*', '/', '*']);
        assert(t.drop_last().drop_last().drop_last() =~= seq!['/', '*', '/']);
        assert(seq!['/', '*', '/', '*', '/'].last() == '/');
        assert(seq!['/', '*', '/', '*'].last() == '*');
        reveal_with_fuel(count, 4);
    }
}

/// Where the stage is the only wildcard of a text, what follows the
/// wildcard is a slash and what follows the stage.
proof fn lemma_behind_only_wildcard(lead: Seq<char>, rest: Seq<char>)
    requires
        count(lead + any_stage() + rest, '*') == 1,
    ensures
        after(lead + any_stage() + rest, '*') == seq!['/'] + rest,
{
    reveal_strlit("/*/");
    let stage = any_stage();
    let raw = lead + stage + rest;
    let star = lead.len() as int + 1;
    lemma_wildcard_counts();
    lemma_count_add(lead + stage, rest, '*');
    lemma_count_add(lead, stage, '*');
    lemma_count_none(lead, '*');
    assert(raw[star] == stage[1]);
    assert forall|j: int| 0 <= j < star implies raw[j] != '*' by {
        if j < lead.len() {
            assert(raw[j] == lead[j]);
        } else {
            assert(raw[j] == stage[0]);
        }
    }
    lemma_index_of_first(raw, '*', star, 0);
    assert(raw.skip(star + 1) =~= seq!['/'] + rest);
}

/// Behind the stage, the name of a method, a slash and a path stand for
/// the method and for the path as it is.
proof fn lemma_behind_stage(name: Seq<char>, method: HttpMethod, path: Seq<char>)
    requires
        HttpMethod::parse_spec(name) == Some(method),
    ensures
        behind_stage(seq!['/'] + (name + seq!['/'] + path)) == Ok::<Route, PatternError>(
            Route { method, path: rooted(path) },
        ),
{
    let tail = name + seq!['/'] + path;
    let rest = seq!['/'] + tail;
    assert(method.named_by(name));
    lemma_name_is_plain(method, name);
    assert(rest.skip(1) =~= tail);
    assert(tail[name.len() as int] == '/');
    assert forall|j: int| 0 <= j < name.len() implies tail[j] != '/' by {
        assert(tail[j] == name[j]);
        assert(is_plain(name[j]));
    }
    lemma_index_of_first(tail, '/', name.len() as int, 0);
    assert(before(tail, '/') =~= name);
    assert(after(tail, '/') =~= path);
    assert(is_plain(name[0]) && is_plain(name.last()));
    lemma_trim_nothing(name);
}

/// A stage and a method that are both wildcards, with the slashes around
/// them.
pub open spec fn any_stage_and_method() -> Seq<char> {
    "/*/*/"@
}

/// A text whose only wildcards are the stage and the method stands for any
/// method on the path that follows them, kept as it is.
///
/// The text is `lead`, two wildcards between slashes, and `path`. It holds
/// no double quote.
pub proof fn lemma_double_wildcard(lead: Seq<char>, path: Seq<char>)
    requires
        count(lead + any_stage_and_method() + path, '*') == 2,
        count(lead + any_stage_and_method() + path, '"') == 0,
    ensures
        resolve(lead + any_stage_and_method() + path) == Ok::<Route, PatternError>(
            Route { method: HttpMethod::Any, path: rooted(path) },
        ),
{
    reveal_strlit("/*/*/");
    reveal_strlit("/*/*");
    let both = any_stage_and_method();
    let double = double_wildcard();
    let raw = lead + both + path;
    let at = lead.len() as int;
    lemma_without_none(raw, '"');
    lemma_wildcard_counts();
    if contains(raw, triple_wildcard()) {
        lemma_contains_count(raw, triple_wildcard(), '*');
    }
    // The two wildcards are those of the stage and the method.
    assert(count(both, '*') == 2) by {
        reveal_strlit("/*/");
        assert(both =~= seq!['/', '*', '/', '*', '/']);
        let s = seq!['/', '*', '/', '*', '/'];
        assert(s.drop_last() =~= seq!['/', '*', '/', '*']);
        assert(s.drop_last().drop_last() =~= any_stage());
        reveal_with_fuel(count, 3);
    }
    lemma_count_add(lead + both, path, '*');
    lemma_count_add(lead, both, '*');
    lemma_count_none(lead, '*');
    // They stand first where `lead` ends.
    assert(raw.subrange(at, at + 4) =~= double);
    assert(matches_at(raw, at, double));
    assert forall|j: int| 0 <= j < at implies !matches_at(raw, j, double) by {
        if matches_at(raw, j, double) {
            assert(raw.subrange(j, j + 4)[1] == double[1]);
            assert(raw[j + 1] == '*');
            if j + 1 < at {
                assert(raw[j + 1] == lead[j + 1]);
            } else {
                assert(raw[j + 1] == both[0]);
            }
        }
    }
    lemma_index_from_first(raw, double, at, 0);
    assert(after_pattern(raw, double) =~= seq!['/'] + path);
    assert(unrooted(seq!['/'] + path) =~= path);
}

/// A text stands for what it stands for without its double quotes.
pub proof fn lemma_quotes_count_for_nothing(raw: Seq<char>)
    ensures
        resolve(raw) == resolve(without(raw, '"')),
{
    lemma_without_leaves_none(raw, '"');
    lemma_without_none(without(raw, '"'), '"');
}

} // verus!
