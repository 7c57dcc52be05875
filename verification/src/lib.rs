//! Extraction of route, struct and enum metadata from declarations that carry
//! the attributes of the Rocket web framework.
//!
//! The extraction rules are verified over a plain model of declarations
//! ([`syntax`]); [`reader`] fills that model from the nodes of a parsed file.

pub mod ast_formatting;
pub mod decimal;
pub mod nodes;
pub mod reader;
pub mod rocket_attribute;
pub mod rocket_enum;
pub mod rocket_route;
pub mod rocket_struct;
pub mod syntax;
pub mod traverse;
