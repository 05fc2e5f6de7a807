//! Diagnostics: what a validation run found, in the order it found it.

use vstd::prelude::*;

verus! {

/// How much a diagnostic weighs.
#[derive(Debug, Clone, Copy, PartialEq, Eq, Structural, Hash)]
pub enum Severity {
    /// The two descriptions disagree, or one of them is inconsistent.
    Error,
    /// A shape that is legal but suspicious.
    Warning,
    /// Something that was seen and not checked.
    Info,
}

/// What a diagnostic is about.
#[derive(Debug, Clone, Copy, PartialEq, Eq, Structural, Hash)]
pub enum Issue {
    /// Two lambdas are declared under one key.
    DuplicateKey,
    /// Two lambdas share one handler.
    DuplicateHandler,
    /// A permission is granted to a key that no lambda has.
    UnknownPermissionKey,
    /// Two groups of permissions stand under one key.
    DuplicatePermissionKey,
    /// A lambda is wired to the gateway more than once.
    DuplicatePlaceholder,
    /// A lambda has routes and no placeholder in the gateway.
    MissingPlaceholder,
    /// A lambda has a placeholder in the gateway and no route.
    MissingRoutes,
    /// A lambda that nothing triggers.
    UnusedLambda,
    /// Two tags with one name and one description.
    DuplicateTag,
    /// A document that breaks the rules of OpenAPI.
    InvalidDocument,
    /// A document that could not be read as OpenAPI.
    UnreadableDocument,
    /// A document whose references run in a circle.
    CyclicReference,
    /// An operation that changes data and takes neither body nor parameter.
    MissingRequestBody,
    /// An `OPTIONS` operation.
    OptionsOperation,
    /// An operation without the gateway's integration extension.
    MissingIntegration,
    /// An integration extension without a `uri`.
    MissingUri,
    /// A route of a lambda whose path the specification does not declare.
    PathNotInSpecification,
    /// A route of a lambda whose method the specification does not declare
    /// for the path.
    MethodNotInSpecification,
    /// An integration `uri` that does not hold the lambda's placeholder.
    PlaceholderNotInUri,
    /// An integration `uri` that starts a state machine where a lambda was
    /// expected.
    ExecutionTypeMismatch,
    /// A placeholder that no integration `uri` of the specification holds.
    PlaceholderNeverReferenced,
    /// An endpoint backed by a lambda whose path no lambda answers.
    PathNotInInfrastructure,
    /// An endpoint backed by a lambda whose method no lambda answers on the
    /// path.
    MethodNotInInfrastructure,
    /// An endpoint whose backend is not checked against the infrastructure.
    BackendNotChecked,
}

/// One diagnostic.
#[derive(Debug, Clone, PartialEq, Eq)]
pub struct Diagnostic {
    pub severity: Severity,
    pub issue: Issue,
    pub message: String,
}

/// A diagnostic as a value of the specification.
pub struct Finding {
    pub severity: Severity,
    pub issue: Issue,
    pub message: Seq<char>,
}

impl View for Diagnostic {
    type V = Finding;

    open spec fn view(&self) -> Finding {
        Finding { severity: self.severity, issue: self.issue, message: self.message@ }
    }
}

/// An error about `issue` that reads `message`.
pub open spec fn error(issue: Issue, message: Seq<char>) -> Finding {
    Finding { severity: Severity::Error, issue, message }
}

/// A warning about `issue` that reads `message`.
pub open spec fn warning(issue: Issue, message: Seq<char>) -> Finding {
    Finding { severity: Severity::Warning, issue, message }
}

/// A note about `issue` that reads `message`.
pub open spec fn info(issue: Issue, message: Seq<char>) -> Finding {
    Finding { severity: Severity::Info, issue, message }
}

/// The findings that the diagnostics `v` stand for.
pub open spec fn findings(v: Seq<Diagnostic>) -> Seq<Finding> {
    Seq::new(v.len(), |i: int| v[i]@)
}

/// No finding of `fs` is an error.
pub open spec fn valid(fs: Seq<Finding>) -> bool {
    forall|i: int| 0 <= i < fs.len() ==> (#[trigger] fs[i]).severity != Severity::Error
}

/// How many findings of `fs` are about `issue`.
pub open spec fn count_issue(fs: Seq<Finding>, issue: Issue) -> nat
    decreases fs.len(),
{
    if fs.len() == 0 {
        0
    } else {
        count_issue(fs.drop_last(), issue) + if fs.last().issue == issue {
            1nat
        } else {
            0nat
        }
    }
}

/// The diagnostics of one run, in the order in which they were recorded.
/// Nothing is ever taken out.
#[derive(Debug, Clone, PartialEq, Eq)]
pub struct Diagnostics {
    entries: Vec<Diagnostic>,
}

impl View for Diagnostics {
    type V = Seq<Finding>;

    closed spec fn view(&self) -> Seq<Finding> {
        findings(self.entries@)
    }
}

impl Diagnostics {
    /// No diagnostics.
    pub fn new() -> (r: Diagnostics)
        ensures
            r@ == Seq::<Finding>::empty(),
    {
        Diagnostics { entries: Vec::new() }
    }

    /// Records `diagnostic` after all others.
    pub fn push(&mut self, diagnostic: Diagnostic)
        ensures
            final(self)@ == old(self)@.push(diagnostic@),
    {
        self.entries.push(diagnostic);
        assert(findings(self.entries@) =~= findings(old(self).entries@).push(diagnostic@));
    }

    /// Records an error.
    pub fn error(&mut self, issue: Issue, message: String)
        ensures
            final(self)@ == old(self)@.push(error(issue, message@)),
    {
        self.push(Diagnostic { severity: Severity::Error, issue, message });
    }

    /// Records a warning.
    pub fn warning(&mut self, issue: Issue, message: String)
        ensures
            final(self)@ == old(self)@.push(warning(issue, message@)),
    {
        self.push(Diagnostic { severity: Severity::Warning, issue, message });
    }

    /// Records a note.
    pub fn info(&mut self, issue: Issue, message: String)
        ensures
            final(self)@ == old(self)@.push(info(issue, message@)),
    {
        self.push(Diagnostic { severity: Severity::Info, issue, message });
    }

    /// Records all of `other`, in its order, after all others.
    pub fn append(&mut self, other: Diagnostics)
        ensures
            final(self)@ == old(self)@ + other@,
    {
        let mut other = other;
        let ghost added = other.entries@;
        self.entries.append(&mut other.entries);
        assert(findings(self.entries@) =~= findings(old(self).entries@) + findings(added));
    }

    /// How many diagnostics were recorded.
    pub fn len(&self) -> (r: usize)
        ensures
            r == self@.len(),
    {
        self.entries.len()
    }

    /// Whether nothing was recorded.
    pub fn is_empty(&self) -> (r: bool)
        ensures
            r == (self@.len() == 0),
    {
        self.entries.len() == 0
    }

    /// The diagnostic recorded at position `index`.
    pub fn get(&self, index: usize) -> (r: &Diagnostic)
        requires
            index < self@.len(),
        ensures
            r@ == self@[index as int],
    {
        &self.entries[index]
    }

    /// All diagnostics, in the order in which they were recorded.
    pub fn entries(&self) -> (r: &Vec<Diagnostic>)
        ensures
            findings(r@) == self@,
    {
        &self.entries
    }

    /// Whether the run is valid: no error was recorded. Warnings and notes do
    /// not count.
    pub fn is_valid(&self) -> (r: bool)
        ensures
            r == valid(self@),
    {
        let mut i: usize = 0;
        while i < self.entries.len()
            invariant
                i <= self.entries.len(),
                forall|j: int| 0 <= j < i ==> (#[trigger] self@[j]).severity != Severity::Error,
            decreases self.entries.len() - i,
        {
            if self.entries[i].severity == Severity::Error {
                assert(self@[i as int].severity == Severity::Error);
                return false;
            }
            i += 1;
        }
        true
    }

    /// How many of the diagnostics are about `issue`.
    pub fn count(&self, issue: Issue) -> (r: usize)
        ensures
            r == count_issue(self@, issue),
    {
        let mut n: usize = 0;
        let mut i: usize = 0;
        while i < self.entries.len()
            invariant
                i <= self.entries.len(),
                n <= i,
                n == count_issue(self@.take(i as int), issue),
            decreases self.entries.len() - i,
        {
            assert(self@.take(i + 1).drop_last() == self@.take(i as int));
            if self.entries[i].issue == issue {
                n += 1;
            }
            i += 1;
        }
        assert(self@.take(self.entries.len() as int) == self@);
        n
    }

    /// What the diagnostics read, in the order in which they were recorded.
    pub fn messages(&self) -> (r: Vec<String>)
        ensures
            r@.len() == self@.len(),
            forall|i: int| 0 <= i < r@.len() ==> (#[trigger] r@[i])@ == self@[i].message,
    {
        let mut out: Vec<String> = Vec::new();
        let mut i: usize = 0;
        while i < self.entries.len()
            invariant
                i <= self.entries.len(),
                out@.len() == i,
                forall|k: int| 0 <= k < i ==> (#[trigger] out@[k])@ == self@[k].message,
            decreases self.entries.len() - i,
        {
            out.push(self.entries[i].message.clone());
            i += 1;
        }
        out
    }
}

/// Counting an issue in two runs of findings adds up.
pub proof fn lemma_count_issue_add(a: Seq<Finding>, b: Seq<Finding>, issue: Issue)
    ensures
        count_issue(a + b, issue) == count_issue(a, issue) + count_issue(b, issue),
    decreases b.len(),
{
    if b.len() == 0 {
        assert(a + b == a);
    } else {
        assert((a + b).drop_last() == a + b.drop_last());
        lemma_count_issue_add(a, b.drop_last(), issue);
    }
}

/// Two runs of findings are free of errors exactly if each is.
pub proof fn lemma_valid_add(a: Seq<Finding>, b: Seq<Finding>)
    ensures
        valid(a + b) <==> valid(a) && valid(b),
{
    if valid(a + b) {
        assert forall|i: int| 0 <= i < a.len() implies (#[trigger] a[i]).severity
            != Severity::Error by {
            assert((a + b)[i] == a[i]);
        }
        assert forall|i: int| 0 <= i < b.len() implies (#[trigger] b[i]).severity
            != Severity::Error by {
            assert((a + b)[a.len() + i] == b[i]);
        }
    }
}

/// What one of two runs of findings holds, both together hold.
pub proof fn lemma_holds_add(a: Seq<Finding>, b: Seq<Finding>, x: Finding)
    requires
        a.contains(x) || b.contains(x),
    ensures
        (a + b).contains(x),
{
    if a.contains(x) {
        let i = choose|i: int| 0 <= i < a.len() && a[i] == x;
        assert((a + b)[i] == x);
    } else {
        let i = choose|i: int| 0 <= i < b.len() && b[i] == x;
        assert((a + b)[a.len() + i] == x);
    }
}

/// No finding of `fs` is about `issue`.
pub open spec fn free_of(fs: Seq<Finding>, issue: Issue) -> bool {
    forall|i: int| 0 <= i < fs.len() ==> (#[trigger] fs[i]).issue != issue
}

/// An issue that no finding is about is counted zero times.
pub proof fn lemma_count_free(fs: Seq<Finding>, issue: Issue)
    requires
        free_of(fs, issue),
    ensures
        count_issue(fs, issue) == 0,
    decreases fs.len(),
{
    if fs.len() > 0 {
        assert forall|i: int| 0 <= i < fs.drop_last().len() implies (#[trigger] fs.drop_last()[i]).issue
            != issue by {
            assert(fs.drop_last()[i] == fs[i]);
        }
        lemma_count_free(fs.drop_last(), issue);
        assert(fs.last() == fs[fs.len() - 1]);
    }
}

/// Two runs of findings are free of an issue if each is.
pub proof fn lemma_free_add(a: Seq<Finding>, b: Seq<Finding>, issue: Issue)
    requires
        free_of(a, issue),
        free_of(b, issue),
    ensures
        free_of(a + b, issue),
{
    assert forall|i: int| 0 <= i < (a + b).len() implies (#[trigger] (a + b)[i]).issue
        != issue by {
        if i < a.len() {
            assert((a + b)[i] == a[i]);
        } else {
            assert((a + b)[i] == b[i - a.len()]);
        }
    }
}

} // verus!
