//! Explicit adjacent schema-version routing.
use vstd::prelude::*;
use crate::config::document::{TomlModel, TomlValue, find, lemma_table_value_model, lookup, table_model};
use crate::config::model::CURRENT_SCHEMA_VERSION;
use crate::text::{concat3, decimal, decimal_string};

verus! {

/// Version-routing failures detected before the schema is read.
#[derive(Clone, Copy, Debug, PartialEq, Eq, Structural)]
pub enum MigrationError {
    Missing,
    Invalid,
    Future(u32),
    Unsupported(u32),
}

/// The message of a routing failure.
pub open spec fn migration_message(error: MigrationError) -> Seq<char> {
    match error {
        MigrationError::Missing => "schemaVersion is missing"@,
        MigrationError::Invalid => "schemaVersion must be a positive integer"@,
        MigrationError::Future(v) => "schema version "@ + decimal(v as nat) + " is newer than this application"@,
        MigrationError::Unsupported(v) => "schema version "@ + decimal(v as nat) + " has no adjacent migration path"@,
    }
}

impl MigrationError {
    /// The message of this failure.
    pub fn message(&self) -> (text: String)
        ensures
            text@ == migration_message(*self),
    {
        match self {
            MigrationError::Missing => String::from_str("schemaVersion is missing"),
            MigrationError::Invalid => String::from_str("schemaVersion must be a positive integer"),
            MigrationError::Future(v) => concat3(
                "schema version ",
                decimal_string(*v as u64).as_str(),
                " is newer than this application",
            ),
            MigrationError::Unsupported(v) => concat3(
                "schema version ",
                decimal_string(*v as u64).as_str(),
                " has no adjacent migration path",
            ),
        }
    }
}

/// The routing of a document's top-level table by its `schemaVersion`.
pub open spec fn version_route(table: Seq<(Seq<char>, TomlModel)>) -> Result<u32, MigrationError> {
    match lookup(table, "schemaVersion"@) {
        Some(TomlModel::Integer(v)) => if v < 0 || v > u32::MAX || v == 0 {
            Err(MigrationError::Invalid)
        } else if v > CURRENT_SCHEMA_VERSION {
            Err(MigrationError::Future(v as u32))
        } else if v < CURRENT_SCHEMA_VERSION {
            Err(MigrationError::Unsupported(v as u32))
        } else {
            Ok(v as u32)
        },
        _ => Err(MigrationError::Missing),
    }
}

/// What migration makes of a value: only a current-version table passes,
/// unchanged (there is no earlier version to migrate from).
pub open spec fn migration(value: TomlModel) -> Result<TomlModel, MigrationError> {
    match value {
        TomlModel::Table(table) => match version_route(table) {
            Ok(_) => Ok(value),
            Err(e) => Err(e),
        },
        _ => Err(MigrationError::Missing),
    }
}

/// Reads and routes the `schemaVersion` of a top-level table.
pub fn route_version(entries: &Vec<(String, TomlValue)>) -> (routed: Result<u32, MigrationError>)
    ensures
        routed == version_route(table_model(entries@)),
{
    match find(entries, "schemaVersion") {
        Some(TomlValue::Integer(v)) => {
            let v = *v;
            if v < 0 || v > 0xFFFF_FFFF || v == 0 {
                Err(MigrationError::Invalid)
            } else if v > CURRENT_SCHEMA_VERSION as i64 {
                Err(MigrationError::Future(v as u32))
            } else if v < CURRENT_SCHEMA_VERSION as i64 {
                Err(MigrationError::Unsupported(v as u32))
            } else {
                Ok(v as u32)
            }
        },
        _ => Err(MigrationError::Missing),
    }
}

/// Validates the version discriminator and applies every registered
/// adjacent transition (none exist yet).
pub fn migrate_to_current(value: TomlValue) -> (migrated: Result<TomlValue, MigrationError>)
    ensures
        match migrated {
            Ok(v) => migration(value@) == Ok::<TomlModel, MigrationError>(v@),
            Err(e) => migration(value@) == Err::<TomlModel, MigrationError>(e),
        },
{
    let routed = match &value {
        TomlValue::Table(entries) => {
            proof { lemma_table_value_model(*entries); }
            route_version(entries)
        },
        _ => Err(MigrationError::Missing),
    };
    match routed {
        Ok(_) => Ok(value),
        Err(e) => Err(e),
    }
}

} // verus!
