//! HTTP methods.

use crate::text::{chars_of, either, matches_either};
use vstd::prelude::*;

verus! {

/// HTTP methods
#[derive(Debug, Clone, Copy, PartialEq, Eq, Structural, PartialOrd, Ord, Hash)]
pub enum HttpMethod {
    Get,
    Post,
    Put,
    Delete,
    Patch,
    Head,
    Options,
    Trace,
    Connect,
    /// Any HTTP method is allowed
    Any,
}

impl HttpMethod {
    /// The canonical token of the method: its upper-case name, `*` for any
    /// method.
    pub open spec fn token(self) -> Seq<char> {
        match self {
            HttpMethod::Get => "GET"@,
            HttpMethod::Post => "POST"@,
            HttpMethod::Put => "PUT"@,
            HttpMethod::Delete => "DELETE"@,
            HttpMethod::Patch => "PATCH"@,
            HttpMethod::Head => "HEAD"@,
            HttpMethod::Options => "OPTIONS"@,
            HttpMethod::Trace => "TRACE"@,
            HttpMethod::Connect => "CONNECT"@,
            HttpMethod::Any => "*"@,
        }
    }

    /// The token in lower case.
    pub open spec fn lower_token(self) -> Seq<char> {
        match self {
            HttpMethod::Get => "get"@,
            HttpMethod::Post => "post"@,
            HttpMethod::Put => "put"@,
            HttpMethod::Delete => "delete"@,
            HttpMethod::Patch => "patch"@,
            HttpMethod::Head => "head"@,
            HttpMethod::Options => "options"@,
            HttpMethod::Trace => "trace"@,
            HttpMethod::Connect => "connect"@,
            HttpMethod::Any => "*"@,
        }
    }

    /// `s` names this method, in whatever case each letter stands.
    pub open spec fn named_by(self, s: Seq<char>) -> bool {
        matches_either(s, self.lower_token(), self.token())
    }

    /// The method that `s` names, if it names one. The methods are tried in
    /// the order of their declaration.
    pub open spec fn parse_spec(s: Seq<char>) -> Option<HttpMethod> {
        if HttpMethod::Get.named_by(s) {
            Some(HttpMethod::Get)
        } else if HttpMethod::Post.named_by(s) {
            Some(HttpMethod::Post)
        } else if HttpMethod::Put.named_by(s) {
            Some(HttpMethod::Put)
        } else if HttpMethod::Delete.named_by(s) {
            Some(HttpMethod::Delete)
        } else if HttpMethod::Patch.named_by(s) {
            Some(HttpMethod::Patch)
        } else if HttpMethod::Head.named_by(s) {
            Some(HttpMethod::Head)
        } else if HttpMethod::Options.named_by(s) {
            Some(HttpMethod::Options)
        } else if HttpMethod::Trace.named_by(s) {
            Some(HttpMethod::Trace)
        } else if HttpMethod::Connect.named_by(s) {
            Some(HttpMethod::Connect)
        } else if HttpMethod::Any.named_by(s) {
            Some(HttpMethod::Any)
        } else {
            None
        }
    }

    /// The canonical token of the method.
    pub fn as_str(&self) -> (r: &'static str)
        ensures
            r@ == self.token(),
    {
        match self {
            HttpMethod::Get => "GET",
            HttpMethod::Post => "POST",
            HttpMethod::Put => "PUT",
            HttpMethod::Delete => "DELETE",
            HttpMethod::Patch => "PATCH",
            HttpMethod::Head => "HEAD",
            HttpMethod::Options => "OPTIONS",
            HttpMethod::Trace => "TRACE",
            HttpMethod::Connect => "CONNECT",
            HttpMethod::Any => "*",
        }
    }

    /// The token in lower case.
    fn lower_str(&self) -> (r: &'static str)
        ensures
            r@ == self.lower_token(),
    {
        match self {
            HttpMethod::Get => "get",
            HttpMethod::Post => "post",
            HttpMethod::Put => "put",
            HttpMethod::Delete => "delete",
            HttpMethod::Patch => "patch",
            HttpMethod::Head => "head",
            HttpMethod::Options => "options",
            HttpMethod::Trace => "trace",
            HttpMethod::Connect => "connect",
            HttpMethod::Any => "*",
        }
    }

    /// The canonical token of the method, as an owned string.
    pub fn to_string(&self) -> (r: String)
        ensures
            r@ == self.token(),
    {
        self.as_str().to_owned()
    }

    /// Whether `s` names this method, in whatever case.
    pub fn is_named_by(&self, s: &[char]) -> (r: bool)
        ensures
            r == self.named_by(s@),
    {
        let lower = chars_of(self.lower_str());
        let upper = chars_of(self.as_str());
        either(s, lower.as_slice(), upper.as_slice())
    }

    /// The method that `s` names, in whatever case: `None` where it names
    /// none.
    pub fn parse(s: &str) -> (r: Option<HttpMethod>)
        ensures
            r == HttpMethod::parse_spec(s@),
    {
        let chars = chars_of(s);
        HttpMethod::parse_chars(chars.as_slice())
    }

    /// The method that the characters `s` name.
    pub fn parse_chars(s: &[char]) -> (r: Option<HttpMethod>)
        ensures
            r == HttpMethod::parse_spec(s@),
    {
        if HttpMethod::Get.is_named_by(s) {
            Some(HttpMethod::Get)
        } else if HttpMethod::Post.is_named_by(s) {
            Some(HttpMethod::Post)
        } else if HttpMethod::Put.is_named_by(s) {
            Some(HttpMethod::Put)
        } else if HttpMethod::Delete.is_named_by(s) {
            Some(HttpMethod::Delete)
        } else if HttpMethod::Patch.is_named_by(s) {
            Some(HttpMethod::Patch)
        } else if HttpMethod::Head.is_named_by(s) {
            Some(HttpMethod::Head)
        } else if HttpMethod::Options.is_named_by(s) {
            Some(HttpMethod::Options)
        } else if HttpMethod::Trace.is_named_by(s) {
            Some(HttpMethod::Trace)
        } else if HttpMethod::Connect.is_named_by(s) {
            Some(HttpMethod::Connect)
        } else if HttpMethod::Any.is_named_by(s) {
            Some(HttpMethod::Any)
        } else {
            None
        }
    }

    /// The method that `s` names. A string that names no method has none.
    pub fn from(s: &str) -> (r: HttpMethod)
        requires
            HttpMethod::parse_spec(s@) is Some,
        ensures
            Some(r) == HttpMethod::parse_spec(s@),
    {
        match HttpMethod::parse(s) {
            Some(method) => method,
            None => unreached(),
        }
    }
}

impl Default for HttpMethod {
    fn default() -> (r: HttpMethod)
        ensures
            r == HttpMethod::Get,
    {
        HttpMethod::Get
    }
}

/// A token names its own method, and only that one.
pub proof fn lemma_token_parses(method: HttpMethod)
    ensures
        HttpMethod::parse_spec(method.token()) == Some(method),
        HttpMethod::parse_spec(method.lower_token()) == Some(method),
{
    reveal_strlit("GET");
    reveal_strlit("POST");
    reveal_strlit("PUT");
    reveal_strlit("DELETE");
    reveal_strlit("PATCH");
    reveal_strlit("HEAD");
    reveal_strlit("OPTIONS");
    reveal_strlit("TRACE");
    reveal_strlit("CONNECT");
    reveal_strlit("*");
    reveal_strlit("get");
    reveal_strlit("post");
    reveal_strlit("put");
    reveal_strlit("delete");
    reveal_strlit("patch");
    reveal_strlit("head");
    reveal_strlit("options");
    reveal_strlit("trace");
    reveal_strlit("connect");
    let t = method.token();
    let l = method.lower_token();
    assert(method.named_by(t));
    assert(method.named_by(l));
    lemma_names_apart(t);
    lemma_names_apart(l);
}

/// A string names at most one method.
pub proof fn lemma_names_apart(s: Seq<char>)
    ensures
        forall|a: HttpMethod, b: HttpMethod| a.named_by(s) && b.named_by(s) ==> a == b,
{
    reveal_strlit("GET");
    reveal_strlit("POST");
    reveal_strlit("PUT");
    reveal_strlit("DELETE");
    reveal_strlit("PATCH");
    reveal_strlit("HEAD");
    reveal_strlit("OPTIONS");
    reveal_strlit("TRACE");
    reveal_strlit("CONNECT");
    reveal_strlit("*");
    reveal_strlit("get");
    reveal_strlit("post");
    reveal_strlit("put");
    reveal_strlit("delete");
    reveal_strlit("patch");
    reveal_strlit("head");
    reveal_strlit("options");
    reveal_strlit("trace");
    reveal_strlit("connect");
    assert forall|a: HttpMethod, b: HttpMethod| a.named_by(s) && b.named_by(s) implies a == b by {
        let la = a.lower_token();
        let lb = b.lower_token();
        let ua = a.token();
        let ub = b.token();
        if a != b {
            assert(s.len() == la.len() && s.len() == lb.len());
            // Two names of one length differ in their first or second letter.
            assert(s[0] == la[0] || s[0] == ua[0]);
            assert(s[0] == lb[0] || s[0] == ub[0]);
            if s.len() > 1 {
                assert(s[1] == la[1] || s[1] == ua[1]);
                assert(s[1] == lb[1] || s[1] == ub[1]);
            }
        }
    }
}

/// A letter of the alphabet of ASCII, or the wildcard.
pub open spec fn is_plain(c: char) -> bool {
    ('a' <= c && c <= 'z') || ('A' <= c && c <= 'Z') || c == '*'
}

/// The name of a method is not empty and holds nothing but letters, or it
/// is the wildcard.
pub proof fn lemma_name_is_plain(method: HttpMethod, s: Seq<char>)
    requires
        method.named_by(s),
    ensures
        s.len() > 0,
        forall|i: int| 0 <= i < s.len() ==> is_plain(#[trigger] s[i]),
{
    reveal_strlit("GET");
    reveal_strlit("POST");
    reveal_strlit("PUT");
    reveal_strlit("DELETE");
    reveal_strlit("PATCH");
    reveal_strlit("HEAD");
    reveal_strlit("OPTIONS");
    reveal_strlit("TRACE");
    reveal_strlit("CONNECT");
    reveal_strlit("*");
    reveal_strlit("get");
    reveal_strlit("post");
    reveal_strlit("put");
    reveal_strlit("delete");
    reveal_strlit("patch");
    reveal_strlit("head");
    reveal_strlit("options");
    reveal_strlit("trace");
    reveal_strlit("connect");
    let l = method.lower_token();
    let u = method.token();
    assert forall|i: int| 0 <= i < s.len() implies is_plain(#[trigger] s[i]) by {
        assert(s[i] == l[i] || s[i] == u[i]);
        assert(i == 0 || i == 1 || i == 2 || i == 3 || i == 4 || i == 5 || i == 6);
        assert(is_plain(l[i]) && is_plain(u[i]));
    }
}

} // verus!
