//! The one channel the probe does not run over its custom protocol.
//!
//! A page that arrived over a custom scheme still has to be able to reach
//! native commands. Asked from the main window, from a window whose document
//! carries a policy, and from a subframe: only the set says whether a failure
//! was the policy or the frame.

use crate::report;
use crate::report::Probe;
use vstd::prelude::*;

verus! {

/// The scheme the probe serves itself over.
pub const SCHEME: &'static str = "probe";

/// The label the policed window is known by.
pub const POLICED: &'static str = "policed";

/// The title of the policed window.
pub const POLICED_TITLE: &'static str = "ipc under a policy";

/// What a native command saw when the page invoked it.
#[derive(Debug)]
pub struct Invoked {
    /// The token the page sent, back verbatim. Getting its own token back is
    /// how the page knows the round trip carried an argument intact.
    pub echoed: String,
    /// The label of the window the call came from.
    pub window: String,
}

/// Answers an `invoke` from the page in the window labelled `window`.
pub fn probe_ipc(window: &str, sent: String) -> (invoked: Invoked)
    ensures
        invoked.echoed == sent,
        invoked.window@ == window@,
{
    Invoked { echoed: sent, window: window.to_owned() }
}

/// Where the policed window opens: the document that tries to reach native
/// commands, under the name that has it served with a policy.
pub fn policed_url() -> (url: String)
    ensures
        url@ == SCHEME@ + "://localhost/ipc/"@ + report::id(Probe::IpcInvokeUnderCsp) + "/"@,
{
    let mut url = SCHEME.to_owned();
    url.append("://localhost/ipc/");
    url.append(Probe::IpcInvokeUnderCsp.id());
    url.append("/");
    url
}

} // verus!
