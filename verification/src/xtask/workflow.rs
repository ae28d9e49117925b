//! Rules of the continuous-integration workflow contract.
use vstd::prelude::*;
use crate::xtask::patterns::{regex_compiles, regex_is_match, Pattern};

verus! {

/// A package-manager name other than pnpm standing as a word of its own,
/// in any case.
pub const FORBIDDEN_PACKAGE_MANAGER_PATTERN: &'static str =
    "(?i)(?:^|[^a-z0-9_-])(?:npm|yarn|npx|corepack)(?:$|[^a-z0-9_-])";

/// Whether `command` invokes a forbidden package manager; an error when the
/// pattern itself does not compile.
pub fn contains_forbidden_package_manager_token(command: &str) -> (found: Result<bool, String>)
    ensures
        found is Ok <==> regex_compiles(FORBIDDEN_PACKAGE_MANAGER_PATTERN@),
        found matches Ok(hit) ==> hit == regex_is_match(FORBIDDEN_PACKAGE_MANAGER_PATTERN@, command@),
{
    match Pattern::compile(FORBIDDEN_PACKAGE_MANAGER_PATTERN) {
        Ok(pattern) => Ok(pattern.is_match(command)),
        Err(error) => Err(crate::text::concat2("forbidden package manager regex must compile: ", error.as_str())),
    }
}

} // verus!
