//! The documents of the specification: what is made of the outcome of
//! checking each of them, and of their tags, before the endpoints are read.

use crate::diagnostics::{error, valid, warning, Diagnostics, Finding, Issue};
use crate::error::{Failure, ModelError};
use crate::open_api::{
    extract_api_data, document_of, specification_of_text, specified, Document, OpenAPIData,
    Specified,
};
use crate::text::equal;
use vstd::prelude::*;

verus! {

/// A tag of a document.
#[derive(Debug, Clone, PartialEq, Eq)]
pub struct Tag {
    pub name: String,
    pub description: Option<String>,
}

/// How the check of one document ended.
#[derive(Debug, Clone, PartialEq, Eq)]
pub enum DocumentCheck {
    /// The document keeps the rules of OpenAPI; its tags.
    Valid(Vec<Tag>),
    /// The document breaks a rule; which.
    Invalid(String),
    /// The references of the document run in a circle; what was said of it.
    Cyclic(String),
    /// The document could not be read; why.
    Unreadable(String),
}

/// A file of the specification and how its check ended.
#[derive(Debug, Clone, PartialEq, Eq)]
pub struct CheckedFile {
    pub name: String,
    pub check: DocumentCheck,
}

/// What is said of a document that breaks a rule.
pub open spec fn not_valid(file: Seq<char>, reason: Seq<char>) -> Seq<char> {
    "API document "@ + file + " is not valid: "@ + reason
}

/// What is said of a document that could not be read.
pub open spec fn not_parsed(file: Seq<char>, reason: Seq<char>) -> Seq<char> {
    "API document "@ + file + " was not able to be parsed: "@ + reason
}

/// What is held against one document. References that run in a circle are
/// an error, or only a warning where `skip_cyclic` says so.
pub open spec fn file_findings(check: DocumentCheck, file: Seq<char>, skip_cyclic: bool) -> Seq<
    Finding,
> {
    match check {
        DocumentCheck::Valid(_) => Seq::empty(),
        DocumentCheck::Invalid(reason) => seq![
            error(Issue::InvalidDocument, not_valid(file, reason@)),
        ],
        DocumentCheck::Cyclic(reason) => if skip_cyclic {
            seq![warning(Issue::CyclicReference, not_parsed(file, reason@))]
        } else {
            seq![error(Issue::CyclicReference, not_parsed(file, reason@))]
        },
        DocumentCheck::Unreadable(reason) => seq![
            error(Issue::UnreadableDocument, not_parsed(file, reason@)),
        ],
    }
}

/// The tags that one document adds: its own if it is valid.
pub open spec fn file_tags(check: DocumentCheck) -> Seq<Tag> {
    match check {
        DocumentCheck::Valid(tags) => tags@,
        _ => Seq::empty(),
    }
}

/// What is held against the first `n` files.
pub open spec fn files_findings(files: Seq<CheckedFile>, skip_cyclic: bool, n: int) -> Seq<Finding>
    decreases n,
{
    if n <= 0 {
        Seq::empty()
    } else {
        files_findings(files, skip_cyclic, n - 1) + file_findings(
            files[n - 1].check,
            files[n - 1].name@,
            skip_cyclic,
        )
    }
}

/// The tags of the first `n` files, in the order of the files.
pub open spec fn files_tags(files: Seq<CheckedFile>, n: int) -> Seq<Tag>
    decreases n,
{
    if n <= 0 {
        Seq::empty()
    } else {
        files_tags(files, n - 1) + file_tags(files[n - 1].check)
    }
}

/// The description of a tag as it is shown; nothing for a tag without one.
pub open spec fn description_text(tag: Tag) -> Seq<char> {
    match tag.description {
        Some(description) => description@,
        None => Seq::empty(),
    }
}

/// Two tags read the same: one name, and one description or none.
pub open spec fn same_tag(a: Tag, b: Tag) -> bool {
    a.name@ == b.name@ && match (a.description, b.description) {
        (Some(x), Some(y)) => x@ == y@,
        (None, None) => true,
        _ => false,
    }
}

/// What is said of a tag that stands twice.
pub open spec fn duplicate_tag(tag: Tag) -> Seq<char> {
    "Duplicate tags: Name: "@ + tag.name@ + "\nDescription: "@ + description_text(tag)
}

/// What is held against the tag at `i` and those after it, up to `n`: each
/// later tag that reads the same.
pub open spec fn repeated_tags(tags: Seq<Tag>, i: int, n: int) -> Seq<Finding>
    decreases n - i,
{
    if n <= i + 1 {
        Seq::empty()
    } else {
        repeated_tags(tags, i, n - 1) + if same_tag(tags[i], tags[n - 1]) {
            seq![error(Issue::DuplicateTag, duplicate_tag(tags[n - 1]))]
        } else {
            Seq::<Finding>::empty()
        }
    }
}

/// What is held against the first `n` tags, each with all that follow it.
pub open spec fn tag_findings(tags: Seq<Tag>, n: int) -> Seq<Finding>
    decreases n,
{
    if n <= 0 {
        Seq::empty()
    } else {
        tag_findings(tags, n - 1) + repeated_tags(tags, n - 1, tags.len() as int)
    }
}

/// What is held against the document that the files were merged into, if
/// they were.
pub open spec fn merged_findings(merged: Option<DocumentCheck>, skip_cyclic: bool) -> Seq<Finding> {
    match merged {
        Some(check) => file_findings(check, "(merged)"@, skip_cyclic),
        None => Seq::empty(),
    }
}

/// What is made of the checks of the documents. An error in a file ends the
/// stage with all that was held against the files. So does a tag that
/// stands twice among the tags of the files, and then an error in the
/// merged document. Without any of these, the warnings are kept.
pub open spec fn documents(
    files: Seq<CheckedFile>,
    merged: Option<DocumentCheck>,
    skip_cyclic: bool,
) -> Result<Seq<Finding>, Failure> {
    let checked = files_findings(files, skip_cyclic, files.len() as int);
    let tags = files_tags(files, files.len() as int);
    let repeated = tag_findings(tags, tags.len() as int);
    let all = checked + merged_findings(merged, skip_cyclic);
    if !valid(checked) {
        Err(Failure::Invalid(checked))
    } else if repeated.len() > 0 {
        Err(Failure::Invalid(checked + repeated))
    } else if !valid(all) {
        Err(Failure::Invalid(all))
    } else {
        Ok(all)
    }
}

/// The name under which a folder without any document is reported as
/// missing.
pub open spec fn any_document() -> Seq<char> {
    "*.yaml"@
}

/// The model of the text of the specification, which must be there: a
/// folder without documents has no text, and so no model.
pub open spec fn specification_of(content: Option<String>) -> Specified {
    match content {
        Some(text) => specification_of_text(document_of(text@)),
        None => Err(Failure::MissingFile(any_document())),
    }
}

/// The model of the specification: the endpoints of its text, after the
/// warnings of the checks those of the endpoints. There is none if the
/// checks end the stage, if there is no text, or if the text has no model.
pub open spec fn open_api(
    files: Seq<CheckedFile>,
    merged: Option<DocumentCheck>,
    content: Option<String>,
    skip_cyclic: bool,
) -> Specified {
    match documents(files, merged, skip_cyclic) {
        Err(e) => Err(e),
        Ok(found) => match specification_of(content) {
            Err(e) => Err(e),
            Ok(model) => Ok((model.0, found + model.1)),
        },
    }
}

impl Tag {
    /// A copy of the tag.
    pub fn duplicate(&self) -> (r: Tag)
        ensures
            r == *self,
    {
        Tag {
            name: self.name.clone(),
            description: match &self.description {
                Some(description) => Some(description.clone()),
                None => None,
            },
        }
    }

    /// Whether the two tags read the same.
    pub fn same(&self, other: &Tag) -> (r: bool)
        ensures
            r == same_tag(*self, *other),
    {
        equal(self.name.as_str(), other.name.as_str()) && match (
            &self.description,
            &other.description,
        ) {
            (Some(x), Some(y)) => equal(x.as_str(), y.as_str()),
            (None, None) => true,
            _ => false,
        }
    }
}

fn say_not_valid(file: &str, reason: &str) -> (r: String)
    ensures
        r@ == not_valid(file@, reason@),
{
    let mut m = "API document ".to_owned();
    m.append(file);
    m.append(" is not valid: ");
    m.append(reason);
    m
}

fn say_not_parsed(file: &str, reason: &str) -> (r: String)
    ensures
        r@ == not_parsed(file@, reason@),
{
    let mut m = "API document ".to_owned();
    m.append(file);
    m.append(" was not able to be parsed: ");
    m.append(reason);
    m
}

fn say_duplicate_tag(tag: &Tag) -> (r: String)
    ensures
        r@ == duplicate_tag(*tag),
{
    let mut m = "Duplicate tags: Name: ".to_owned();
    m.append(tag.name.as_str());
    m.append("\nDescription: ");
    match &tag.description {
        Some(description) => {
            m.append(description.as_str());
        },
        None => {
            assert(m@ + Seq::<char>::empty() == m@);
        },
    }
    m
}

/// Takes the outcome of the check of one document: its tags come after
/// `tags`, and what is held against it is handed back.
pub fn validate_file(check: &DocumentCheck, file: &str, tags: &mut Vec<Tag>, skip_cyclic: bool) -> (r:
    Diagnostics)
    ensures
        r@ == file_findings(*check, file@, skip_cyclic),
        final(tags)@ == old(tags)@ + file_tags(*check),
{
    let mut found = Diagnostics::new();
    match check {
        DocumentCheck::Valid(own) => {
            let mut i: usize = 0;
            while i < own.len()
                invariant
                    i <= own.len(),
                    tags@ == old(tags)@ + own@.take(i as int),
                decreases own.len() - i,
            {
                tags.push(own[i].duplicate());
                assert(own@.take(i + 1) == own@.take(i as int).push(own@[i as int]));
                i += 1;
            }
            assert(own@.take(own.len() as int) == own@);
        },
        DocumentCheck::Invalid(reason) => {
            found.error(Issue::InvalidDocument, say_not_valid(file, reason.as_str()));
        },
        DocumentCheck::Cyclic(reason) => {
            if skip_cyclic {
                found.warning(Issue::CyclicReference, say_not_parsed(file, reason.as_str()));
            } else {
                found.error(Issue::CyclicReference, say_not_parsed(file, reason.as_str()));
            }
        },
        DocumentCheck::Unreadable(reason) => {
            found.error(Issue::UnreadableDocument, say_not_parsed(file, reason.as_str()));
        },
    }
    found
}

/// What is held against the tags: each that stands twice.
pub fn check_tags(tags: &[Tag]) -> (r: Diagnostics)
    ensures
        r@ == tag_findings(tags@, tags@.len() as int),
{
    let mut found = Diagnostics::new();
    let mut i: usize = 0;
    while i < tags.len()
        invariant
            i <= tags.len(),
            found@ == tag_findings(tags@, i as int),
        decreases tags.len() - i,
    {
        let ghost before = found@;
        let mut j: usize = i + 1;
        while j < tags.len()
            invariant
                i < j <= tags.len(),
                found@ == before + repeated_tags(tags@, i as int, j as int),
            decreases tags.len() - j,
        {
            let ghost row = repeated_tags(tags@, i as int, j as int);
            if tags[i].same(&tags[j]) {
                found.error(Issue::DuplicateTag, say_duplicate_tag(&tags[j]));
                assert(found@ == before + (row + seq![
                    error(Issue::DuplicateTag, duplicate_tag(tags@[j as int])),
                ]));
            } else {
                assert(found@ == before + (row + Seq::<Finding>::empty()));
            }
            j += 1;
        }
        i += 1;
    }
    found
}

/// What is made of the checks of the documents.
pub fn check_documents(files: &[CheckedFile], merged: &Option<DocumentCheck>, skip_cyclic: bool) -> (r:
    Result<Diagnostics, ModelError>)
    ensures
        match r {
            Ok(found) => documents(files@, *merged, skip_cyclic) == Ok::<Seq<Finding>, Failure>(
                found@,
            ),
            Err(e) => documents(files@, *merged, skip_cyclic) == Err::<Seq<Finding>, Failure>(e@),
        },
{
    let mut found = Diagnostics::new();
    let mut tags: Vec<Tag> = Vec::new();
    let mut i: usize = 0;
    while i < files.len()
        invariant
            i <= files.len(),
            found@ == files_findings(files@, skip_cyclic, i as int),
            tags@ == files_tags(files@, i as int),
        decreases files.len() - i,
    {
        let one = validate_file(&files[i].check, files[i].name.as_str(), &mut tags, skip_cyclic);
        found.append(one);
        i += 1;
    }
    if !found.is_valid() {
        return Err(ModelError::Invalid(found));
    }
    let repeated = check_tags(tags.as_slice());
    if !repeated.is_empty() {
        found.append(repeated);
        return Err(ModelError::Invalid(found));
    }
    match merged {
        Some(check) => {
            let mut none: Vec<Tag> = Vec::new();
            let one = validate_file(check, "(merged)", &mut none, skip_cyclic);
            found.append(one);
        },
        None => {
            assert(found@ + Seq::<Finding>::empty() == found@);
        },
    }
    if found.is_valid() {
        Ok(found)
    } else {
        Err(ModelError::Invalid(found))
    }
}

/// Builds the model of the specification from the checks of its files, the
/// check of the document that they were merged into where there are
/// several, and the text from which the endpoints are read. A folder
/// without documents has no text: that is a missing file.
pub fn validate_open_api(
    files: &[CheckedFile],
    merged: &Option<DocumentCheck>,
    content: Option<String>,
    skip_cyclic: bool,
) -> (r: Result<(Vec<OpenAPIData>, Diagnostics), ModelError>)
    ensures
        specified(r) == open_api(files@, *merged, content, skip_cyclic),
        content is None ==> r is Err,
{
    let mut found = check_documents(files, merged, skip_cyclic)?;
    let model = match content {
        Some(text) => extract_api_data(text)?,
        None => {
            return Err(ModelError::MissingFile("*.yaml".to_owned()));
        },
    };
    found.append(model.1);
    Ok((model.0, found))
}

} // verus!
