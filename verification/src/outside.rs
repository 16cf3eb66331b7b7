//! Types of other crates that values of this library carry. Nothing is known
//! of what is inside them.
use libsql::Error as DatabaseError;
use serde_json::Error as JsonError;
use toml::ser::Error as TomlError;
use vstd::prelude::*;
use yaml_serde::Error as YamlError;

verus! {

/// What went wrong in reading or writing JSON.
#[verifier::external_type_specification]
#[verifier::external_body]
pub struct ExJsonError(JsonError);

/// What went wrong in writing TOML.
#[verifier::external_type_specification]
#[verifier::external_body]
pub struct ExTomlError(TomlError);

/// What went wrong in reading or writing YAML.
#[verifier::external_type_specification]
#[verifier::external_body]
pub struct ExYamlError(YamlError);

/// What went wrong in the database.
#[verifier::external_type_specification]
#[verifier::external_body]
pub struct ExDatabaseError(DatabaseError);

/// What went wrong in reading or writing files.
#[verifier::external_type_specification]
#[verifier::external_body]
pub struct ExIoError(std::io::Error);

} // verus!
