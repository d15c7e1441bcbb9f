//! The command-line options and the checks made on them before a preview
//! starts.

use vstd::prelude::*;

verus! {

/// The options `demu` is started with.
pub struct Cli {
    /// Dockerfile or Compose file to preview (`-f`, `--file`).
    pub file: String,
    /// Target stage of a multi-stage build (`--stage`).
    pub stage: Option<String>,
    /// Compose mode (`--compose`).
    pub compose: bool,
    /// Service to inspect; required in Compose mode (`--service`).
    pub service: Option<String>,
}

/// The error for Compose mode without a service.
pub open spec fn missing_service_text() -> Seq<char> {
    "--service is required in compose mode"@
}

/// The warning for a service named outside Compose mode.
pub open spec fn stray_service_text() -> Seq<char> {
    "warning: --service is ignored without --compose"@
}

impl Cli {
    /// Checks the combination of flags: Compose mode needs a service (an
    /// error otherwise); a service outside Compose mode is only warned
    /// about.  `Ok` carries the warning to print, if any.
    pub fn check(&self) -> (r: Result<Option<String>, String>)
        ensures
            self.compose && self.service is None <==> r is Err,
            r matches Err(m) ==> m@ == missing_service_text(),
            r matches Ok(w) ==> (w is Some <==> !self.compose && self.service is Some) && (w matches Some(t) ==> t@
                == stray_service_text()),
    {
        if self.compose {
            if self.service.is_none() {
                return Err("--service is required in compose mode".to_string());
            }
            Ok(None)
        } else if self.service.is_some() {
            Ok(Some("warning: --service is ignored without --compose".to_string()))
        } else {
            Ok(None)
        }
    }
}

} // verus!
