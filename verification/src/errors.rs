//! The host's error taxonomy.  Scan-level failures are per manifest and
//! never abort a batch; load-level failures abort only the one plugin;
//! invocation-level failures are returned to the request caller.

use vstd::prelude::*;

verus! {

/// Everything that can go wrong while scanning, loading or invoking a
/// plugin.
#[derive(Debug, Clone, Copy, PartialEq, Eq, Structural)]
pub enum PluginError {
    /// A manifest file was malformed or unreadable; the scan skips it.
    ManifestParse,
    /// A declared resource path exists but is not a regular file.
    PathValidation,
    /// The platform could not create or replace the published symlink.
    Symlink,
    /// The native library failed to open.
    LibraryLoad,
    /// The exported handler symbol is missing from a loaded library.
    SymbolResolution,
    /// An invocation named an id that is not registered.
    PluginNotFound,
    /// The plugin's own handler failed; its error is passed through.
    Handler,
}

impl PluginError {
    /// A short description of the error.
    pub fn message(&self) -> (r: String)
        ensures
            self is ManifestParse ==> r@ == "manifest parse error"@,
            self is PathValidation ==> r@ == "path is not a regular file"@,
            self is Symlink ==> r@ == "symlink creation failed"@,
            self is LibraryLoad ==> r@ == "library load failed"@,
            self is SymbolResolution ==> r@ == "handler symbol missing"@,
            self is PluginNotFound ==> r@ == "plugin not found"@,
            self is Handler ==> r@ == "handler failed"@,
    {
        match self {
            PluginError::ManifestParse => "manifest parse error".to_owned(),
            PluginError::PathValidation => "path is not a regular file".to_owned(),
            PluginError::Symlink => "symlink creation failed".to_owned(),
            PluginError::LibraryLoad => "library load failed".to_owned(),
            PluginError::SymbolResolution => "handler symbol missing".to_owned(),
            PluginError::PluginNotFound => "plugin not found".to_owned(),
            PluginError::Handler => "handler failed".to_owned(),
        }
    }
}

} // verus!
