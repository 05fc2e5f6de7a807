//! Cross-checks a Terraform description of Lambda functions against the
//! OpenAPI documents that describe the same HTTP surface.
//!
//! Two models are built and then reconciled.
//!
//! - [`terraform`] builds the model of the infrastructure in stages: the
//!   lambdas of the [`registry`], the routes that the [`permissions`] grant
//!   them (each read from the source of a permission, see [`route`]), and
//!   what the gateway and the state machines say of them ([`wiring`]).
//! - [`open_api`] builds the model of the specification: one endpoint for
//!   each operation, with the backend that its integration names;
//!   [`documents`] first takes the outcome of checking each document.
//! - [`cross_validation`] reconciles the two, lambda by lambda and endpoint
//!   by endpoint, and records every mismatch among the [`diagnostics`].
//!
//! [`verification`] runs all of this from the texts to the diagnostics.
//! Every rule is stated over sequences of characters with the functions of
//! [`text`]; [`config`] holds the tree of a configuration text and the
//! parser behind it. Two guards stand before the parsers: [`nesting`] for
//! the texts of the infrastructure, [`scalars`] for those of the documents.

pub mod config;
pub mod cross_validation;
pub mod diagnostics;
pub mod documents;
pub mod error;
pub mod files;
pub mod nesting;
pub mod open_api;
pub mod permissions;
pub mod registry;
pub mod route;
pub mod scalars;
pub mod terraform;
pub mod text;
pub mod util;
pub mod verification;
pub mod wiring;
