//! The application status shown at start-up.
use vstd::prelude::*;
use crate::text::owned;

verus! {

/// The name, version and readiness of the application.
pub struct AppStatus {
    pub app_name: String,
    pub version: String,
    pub native_core_ready: bool,
    pub rules_path: String,
}

/// The application status (`get_app_status`), for the given version.
pub fn get_app_status(version: &str) -> (s: AppStatus)
    ensures
        s.app_name@ == "ClearC"@,
        s.version@ == version@,
        s.native_core_ready,
        s.rules_path@ == "rules"@,
{
    AppStatus {
        app_name: owned("ClearC"),
        version: owned(version),
        native_core_ready: true,
        rules_path: owned("rules"),
    }
}

} // verus!
