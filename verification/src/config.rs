//! The tree of a configuration text, as far as this crate reads it, and the
//! parser that builds it.

use crate::nesting::{nesting, nests, NESTING_LIMIT};
use vstd::prelude::*;

verus! {

/// The key of an entry of an object.
#[derive(Debug, PartialEq, Eq)]
pub enum ConfigKey {
    /// A plain name.
    Identifier(String),
    /// Any other expression, as it is written.
    Expression(String),
}

impl ConfigKey {
    /// The key as it is written.
    pub open spec fn text(self) -> Seq<char> {
        match self {
            ConfigKey::Identifier(name) => name@,
            ConfigKey::Expression(written) => written@,
        }
    }

    /// The key as it is written.
    pub fn as_str(&self) -> (r: &str)
        ensures
            r@ == self.text(),
    {
        match self {
            ConfigKey::Identifier(name) => name.as_str(),
            ConfigKey::Expression(written) => written.as_str(),
        }
    }
}

/// What a value is made of.
#[derive(Debug, PartialEq, Eq)]
pub enum Shape {
    /// Anything but an object or an array.
    Scalar,
    /// An object: its entries, in their order.
    Object(Vec<ConfigEntry>),
    /// An array: its items, in their order.
    Array(Vec<ConfigValue>),
}

/// A value: how it is written, and what it is made of.
#[derive(Debug, PartialEq, Eq)]
pub struct ConfigValue {
    pub text: String,
    pub shape: Shape,
}

/// An entry of an object.
#[derive(Debug, PartialEq, Eq)]
pub struct ConfigEntry {
    pub key: ConfigKey,
    pub value: ConfigValue,
}

/// An attribute of a block.
#[derive(Debug, PartialEq, Eq)]
pub struct ConfigAttribute {
    pub key: String,
    pub value: ConfigValue,
}

/// A block: its name and the attributes that stand in it.
#[derive(Debug, PartialEq, Eq)]
pub struct ConfigBlock {
    pub identifier: String,
    pub attributes: Vec<ConfigAttribute>,
}

/// A configuration text as a tree: its blocks, in their order.
#[derive(Debug, PartialEq, Eq)]
pub struct ConfigBody {
    pub blocks: Vec<ConfigBlock>,
}

/// `hcl::Block`: a block as the parser returns it. Nothing is known of it.
#[verifier::external_type_specification]
#[verifier::external_body]
pub struct ExBlock(hcl::Block);

/// `hcl::Expression`: the value of an attribute or of an entry as the
/// parser returns it. Nothing is known of it.
#[verifier::external_type_specification]
#[verifier::external_body]
pub struct ExExpression(hcl::Expression);

/// `hcl::ObjectKey`: the key of an entry as the parser returns it. Nothing
/// is known of it.
#[verifier::external_type_specification]
#[verifier::external_body]
pub struct ExObjectKey(hcl::ObjectKey);

/// What `hcl::parse` makes of a text: the tree, or what it says against
/// the text.
pub uninterp spec fn parsed_config(text: Seq<char>) -> Result<ConfigBody, String>;

/// `hcl::parse` reads the text. The result is a function of the text alone:
/// the blocks at the top of the tree that the parser returns, each with its
/// attributes, or the parser's message.
///
/// The parser descends without a limit of its own, so a text that nests
/// deeper than [`NESTING_LIMIT`] is not handed to it.
#[verifier::external_body]
fn parse_config(text: &str) -> (r: Result<ConfigBody, String>)
    requires
        nesting(text@) <= NESTING_LIMIT,
    ensures
        r == parsed_config(text@),
{
    match hcl::parse(text) {
        Ok(body) => Ok(ConfigBody { blocks: body.blocks().map(block_of).collect() }),
        Err(e) => Err(e.to_string()),
    }
}

/// What is said of a text that nests too deep to be parsed.
pub open spec fn too_deep() -> Seq<char> {
    "the text nests too deep to be parsed"@
}

/// What is made of a configuration text: the tree that the parser makes of
/// it, or what is said against it, by the parser or for its nesting. A text
/// that nests deeper than [`NESTING_LIMIT`] is never parsed.
pub open spec fn config_of(text: Seq<char>) -> Result<ConfigBody, Seq<char>> {
    if nesting(text) > NESTING_LIMIT {
        Err(too_deep())
    } else {
        match parsed_config(text) {
            Ok(body) => Ok(body),
            Err(message) => Err(message@),
        }
    }
}

/// What reading a text gives, with the message taken by its characters.
pub open spec fn shown(r: Result<ConfigBody, String>) -> Result<ConfigBody, Seq<char>> {
    match r {
        Ok(body) => Ok(body),
        Err(message) => Err(message@),
    }
}

/// Reads a configuration text into its tree.
pub fn read_config(text: &str) -> (r: Result<ConfigBody, String>)
    ensures
        shown(r) == config_of(text@),
{
    if nests(text) > NESTING_LIMIT {
        Err("the text nests too deep to be parsed".to_owned())
    } else {
        parse_config(text)
    }
}

/// A block of `hcl` with its name and its own attributes, each by its key
/// and its value.
#[verifier::external_body]
fn block_of(block: &hcl::Block) -> ConfigBlock {
    ConfigBlock {
        identifier: block.identifier.to_string(),
        attributes: block.body.attributes().map(
            |a| ConfigAttribute { key: a.key.to_string(), value: value_of(&a.expr) },
        ).collect(),
    }
}

/// An expression of `hcl` with the text that its `Display` gives, and with
/// its entries or items where it is an object or an array.
#[verifier::external_body]
fn value_of(expr: &hcl::Expression) -> ConfigValue {
    let shape = match expr {
        hcl::Expression::Object(object) => Shape::Object(
            object.iter().map(|(k, v)| ConfigEntry { key: key_of(k), value: value_of(v) }).collect(),
        ),
        hcl::Expression::Array(items) => Shape::Array(items.iter().map(value_of).collect()),
        _ => Shape::Scalar,
    };
    ConfigValue { text: expr.to_string(), shape }
}

/// A key of an object of `hcl` with the text that its `Display` gives.
#[verifier::external_body]
fn key_of(key: &hcl::ObjectKey) -> ConfigKey {
    match key {
        hcl::ObjectKey::Identifier(name) => ConfigKey::Identifier(name.to_string()),
        other => ConfigKey::Expression(other.to_string()),
    }
}

} // verus!
