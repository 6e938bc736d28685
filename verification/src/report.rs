//! What the probe asks the webview, and what it has learned so far.
//!
//! Every question is declared in one table, so an id cannot drift between where
//! an answer is recorded and where it is printed, and the report cannot be
//! missing a row. The declared answer is the meaning of silence - a form post
//! that never arrives is a `no`, an inline script that never runs is a `yes` -
//! so nothing downstream has to infer what an empty row meant.

use crate::text;
use vstd::prelude::*;

verus! {

/// What a probe found.
#[derive(Debug, Clone, Copy, PartialEq, Eq, Structural)]
pub enum Verdict {
    /// The webview behaved the way a real HTTP client would.
    Yes,
    /// It did not.
    No,
    /// Neither: a value worth writing down.
    Info,
    /// Nothing established an answer either way.
    Unknown,
}

/// The word a verdict is written as.
pub open spec fn word(verdict: Verdict) -> Seq<char> {
    match verdict {
        Verdict::Yes => "yes"@,
        Verdict::No => "no"@,
        Verdict::Info => "info"@,
        Verdict::Unknown => "unknown"@,
    }
}

/// Every verdict, in the order they are counted.
pub open spec fn every_verdict() -> Seq<Verdict> {
    seq![Verdict::Yes, Verdict::No, Verdict::Info, Verdict::Unknown]
}

impl Verdict {
    /// Every verdict, in the order they are counted.
    pub fn all() -> (all: Vec<Verdict>)
        ensures
            all@ == every_verdict(),
    {
        vec![Verdict::Yes, Verdict::No, Verdict::Info, Verdict::Unknown]
    }

    /// The word this verdict is written as, wherever it is written.
    pub fn as_str(self) -> (text: &'static str)
        ensures
            text@ == word(self),
    {
        match self {
            Verdict::Yes => "yes",
            Verdict::No => "no",
            Verdict::Info => "info",
            Verdict::Unknown => "unknown",
        }
    }
}

/// One question the probe asks the webview.
#[derive(Debug, Clone, Copy, PartialEq, Eq, PartialOrd, Ord, Structural)]
pub enum Probe {
    /// The origin the page runs on.
    PageOrigin,
    /// User agent.
    UserAgent,
    /// Content-Encoding: gzip is decoded.
    GzipDecoded,
    /// An ES module loads over the scheme.
    EsModuleLoaded,
    /// Resource Timing records what was fetched.
    ResourceTiming,
    /// A fetch POST delivers its body.
    FetchPostBody,
    /// Headers on a fetch POST.
    FetchPostHeaders,
    /// A form POST delivers its body.
    FormPostBody,
    /// Headers on a form POST.
    FormPostHeaders,
    /// Set-Cookie comes back on the next request.
    SetCookieReturned,
    /// Document.cookie sees them.
    DocumentCookie,
    /// Fetch follows a 303.
    FetchFollows303,
    /// A navigation follows a 303.
    NavigationFollows303,
    /// A Range request header arrives.
    RangeHeaderArrives,
    /// The CSP document rendered at all.
    CspDocumentRendered,
    /// A Content-Security-Policy we send is enforced.
    CspEnforced,
    /// Invoke reaches a Tauri command.
    IpcInvoke,
    /// As above: and the command knows which window called.
    IpcWindowIdentity,
    /// As above: in a window we send a CSP with.
    IpcInvokeUnderCsp,
    /// As above: in a subframe of one.
    IpcInvokeInFrame,
    /// LocalStorage works.
    LocalStorage,
    /// SessionStorage works.
    SessionStorage,
    /// IndexedDB works.
    IndexedDb,
    /// A foreign document runs in a frame at all.
    ForeignDocumentRan,
    /// A cross-origin POST reaches the server.
    ForeignPostDelivered,
    /// As above: and names its origin when it does.
    ForeignPostOrigin,
    /// As above: and what scheme its Referer names.
    ForeignPostReferer,
}

/// How many probes there are.
pub const COUNT: usize = 27;

/// The probe a string names, or nothing if it names none.
pub open spec fn named(text: Seq<char>) -> Option<Probe> {
    if exists|probe: Probe| #[trigger] id(probe) == text {
        Some(choose|probe: Probe| #[trigger] id(probe) == text)
    } else {
        None
    }
}

/// Where a probe stands in the report.
pub open spec fn index(probe: Probe) -> int {
    match probe {
        Probe::PageOrigin => 0,
        Probe::UserAgent => 1,
        Probe::GzipDecoded => 2,
        Probe::EsModuleLoaded => 3,
        Probe::ResourceTiming => 4,
        Probe::FetchPostBody => 5,
        Probe::FetchPostHeaders => 6,
        Probe::FormPostBody => 7,
        Probe::FormPostHeaders => 8,
        Probe::SetCookieReturned => 9,
        Probe::DocumentCookie => 10,
        Probe::FetchFollows303 => 11,
        Probe::NavigationFollows303 => 12,
        Probe::RangeHeaderArrives => 13,
        Probe::CspDocumentRendered => 14,
        Probe::CspEnforced => 15,
        Probe::IpcInvoke => 16,
        Probe::IpcWindowIdentity => 17,
        Probe::IpcInvokeUnderCsp => 18,
        Probe::IpcInvokeInFrame => 19,
        Probe::LocalStorage => 20,
        Probe::SessionStorage => 21,
        Probe::IndexedDb => 22,
        Probe::ForeignDocumentRan => 23,
        Probe::ForeignPostDelivered => 24,
        Probe::ForeignPostOrigin => 25,
        Probe::ForeignPostReferer => 26,
    }
}

/// Every probe, in the order the report prints them.
pub open spec fn every_probe() -> Seq<Probe> {
    seq![
        Probe::PageOrigin,
        Probe::UserAgent,
        Probe::GzipDecoded,
        Probe::EsModuleLoaded,
        Probe::ResourceTiming,
        Probe::FetchPostBody,
        Probe::FetchPostHeaders,
        Probe::FormPostBody,
        Probe::FormPostHeaders,
        Probe::SetCookieReturned,
        Probe::DocumentCookie,
        Probe::FetchFollows303,
        Probe::NavigationFollows303,
        Probe::RangeHeaderArrives,
        Probe::CspDocumentRendered,
        Probe::CspEnforced,
        Probe::IpcInvoke,
        Probe::IpcWindowIdentity,
        Probe::IpcInvokeUnderCsp,
        Probe::IpcInvokeInFrame,
        Probe::LocalStorage,
        Probe::SessionStorage,
        Probe::IndexedDb,
        Probe::ForeignDocumentRan,
        Probe::ForeignPostDelivered,
        Probe::ForeignPostOrigin,
        Probe::ForeignPostReferer,
    ]
}

/// The string a probe is named by.
pub open spec fn id(probe: Probe) -> Seq<char> {
    match probe {
        Probe::PageOrigin => "page-origin"@,
        Probe::UserAgent => "user-agent"@,
        Probe::GzipDecoded => "gzip-decoded"@,
        Probe::EsModuleLoaded => "es-module-loaded"@,
        Probe::ResourceTiming => "resource-timing"@,
        Probe::FetchPostBody => "fetch-post-body"@,
        Probe::FetchPostHeaders => "fetch-post-headers"@,
        Probe::FormPostBody => "form-post-body"@,
        Probe::FormPostHeaders => "form-post-headers"@,
        Probe::SetCookieReturned => "set-cookie-returned"@,
        Probe::DocumentCookie => "document-cookie"@,
        Probe::FetchFollows303 => "fetch-follows-303"@,
        Probe::NavigationFollows303 => "navigation-follows-303"@,
        Probe::RangeHeaderArrives => "range-header-arrives"@,
        Probe::CspDocumentRendered => "csp-document-rendered"@,
        Probe::CspEnforced => "csp-enforced"@,
        Probe::IpcInvoke => "ipc-invoke"@,
        Probe::IpcWindowIdentity => "ipc-window-identity"@,
        Probe::IpcInvokeUnderCsp => "ipc-invoke-under-csp"@,
        Probe::IpcInvokeInFrame => "ipc-invoke-in-frame"@,
        Probe::LocalStorage => "local-storage"@,
        Probe::SessionStorage => "session-storage"@,
        Probe::IndexedDb => "indexed-db"@,
        Probe::ForeignDocumentRan => "foreign-document-ran"@,
        Probe::ForeignPostDelivered => "foreign-post-delivered"@,
        Probe::ForeignPostOrigin => "foreign-post-origin"@,
        Probe::ForeignPostReferer => "foreign-post-referer"@,
    }
}

/// How a probe's row reads to whoever is looking at the report.
pub open spec fn label(probe: Probe) -> Seq<char> {
    match probe {
        Probe::PageOrigin => "the origin the page runs on"@,
        Probe::UserAgent => "user agent"@,
        Probe::GzipDecoded => "Content-Encoding: gzip is decoded"@,
        Probe::EsModuleLoaded => "an ES module loads over the scheme"@,
        Probe::ResourceTiming => "Resource Timing records what was fetched"@,
        Probe::FetchPostBody => "a fetch POST delivers its body"@,
        Probe::FetchPostHeaders => "headers on a fetch POST"@,
        Probe::FormPostBody => "a form POST delivers its body"@,
        Probe::FormPostHeaders => "headers on a form POST"@,
        Probe::SetCookieReturned => "Set-Cookie comes back on the next request"@,
        Probe::DocumentCookie => "document.cookie sees them"@,
        Probe::FetchFollows303 => "fetch follows a 303"@,
        Probe::NavigationFollows303 => "a navigation follows a 303"@,
        Probe::RangeHeaderArrives => "a Range request header arrives"@,
        Probe::CspDocumentRendered => "the CSP document rendered at all"@,
        Probe::CspEnforced => "a Content-Security-Policy we send is enforced"@,
        Probe::IpcInvoke => "invoke reaches a Tauri command"@,
        Probe::IpcWindowIdentity => "...and the command knows which window called"@,
        Probe::IpcInvokeUnderCsp => "...in a window we send a CSP with"@,
        Probe::IpcInvokeInFrame => "...in a subframe of one"@,
        Probe::LocalStorage => "localStorage works"@,
        Probe::SessionStorage => "sessionStorage works"@,
        Probe::IndexedDb => "IndexedDB works"@,
        Probe::ForeignDocumentRan => "a foreign document runs in a frame at all"@,
        Probe::ForeignPostDelivered => "a cross-origin POST reaches the server"@,
        Probe::ForeignPostOrigin => "...and names its origin when it does"@,
        Probe::ForeignPostReferer => "...and what scheme its Referer names"@,
    }
}

/// What a probe is expected to answer: what macOS and its webview have been
/// measured doing.
pub open spec fn expected(probe: Probe) -> Verdict {
    match probe {
        Probe::PageOrigin => Verdict::Info,
        Probe::UserAgent => Verdict::Info,
        Probe::GzipDecoded => Verdict::No,
        Probe::EsModuleLoaded => Verdict::Yes,
        Probe::ResourceTiming => Verdict::No,
        Probe::FetchPostBody => Verdict::Yes,
        Probe::FetchPostHeaders => Verdict::Info,
        Probe::FormPostBody => Verdict::Yes,
        Probe::FormPostHeaders => Verdict::Info,
        Probe::SetCookieReturned => Verdict::No,
        Probe::DocumentCookie => Verdict::No,
        Probe::FetchFollows303 => Verdict::No,
        Probe::NavigationFollows303 => Verdict::No,
        Probe::RangeHeaderArrives => Verdict::Yes,
        Probe::CspDocumentRendered => Verdict::Yes,
        Probe::CspEnforced => Verdict::Yes,
        Probe::IpcInvoke => Verdict::Yes,
        Probe::IpcWindowIdentity => Verdict::Info,
        Probe::IpcInvokeUnderCsp => Verdict::Yes,
        Probe::IpcInvokeInFrame => Verdict::No,
        Probe::LocalStorage => Verdict::Yes,
        Probe::SessionStorage => Verdict::Yes,
        Probe::IndexedDb => Verdict::Yes,
        Probe::ForeignDocumentRan => Verdict::Yes,
        Probe::ForeignPostDelivered => Verdict::Yes,
        Probe::ForeignPostOrigin => Verdict::No,
        Probe::ForeignPostReferer => Verdict::Info,
    }
}

/// The answer that stands if nothing ever reports a probe.
pub open spec fn silence(probe: Probe) -> (Verdict, Seq<char>) {
    match probe {
        Probe::PageOrigin => (Verdict::Unknown, PAGE_SILENT@),
        Probe::UserAgent => (Verdict::Unknown, PAGE_SILENT@),
        Probe::GzipDecoded => (Verdict::Unknown, PAGE_SILENT@),
        Probe::EsModuleLoaded => (Verdict::Unknown, PAGE_SILENT@),
        Probe::ResourceTiming => (Verdict::Unknown, PAGE_SILENT@),
        Probe::FetchPostBody => (Verdict::Unknown, PAGE_SILENT@),
        Probe::FetchPostHeaders => (Verdict::Unknown, "no fetch POST arrived"@),
        Probe::FormPostBody => (Verdict::No, "the form post never arrived"@),
        Probe::FormPostHeaders => (Verdict::Unknown, "no form post arrived"@),
        Probe::SetCookieReturned => (Verdict::Unknown, "nothing asked for the cookies back"@),
        Probe::DocumentCookie => (Verdict::Unknown, PAGE_SILENT@),
        Probe::FetchFollows303 => (Verdict::Unknown, PAGE_SILENT@),
        Probe::NavigationFollows303 => (Verdict::No, "the redirect target was never requested"@),
        Probe::RangeHeaderArrives => (Verdict::Unknown, "nothing sent a Range header"@),
        Probe::CspDocumentRendered => (Verdict::No, "the document never loaded"@),
        Probe::CspEnforced => (Verdict::Yes, "the blocked inline script did not run"@),
        Probe::IpcInvoke => (Verdict::Unknown, PAGE_SILENT@),
        Probe::IpcWindowIdentity => (Verdict::Unknown, PAGE_SILENT@),
        Probe::IpcInvokeUnderCsp => (Verdict::No, "the window never loaded"@),
        Probe::IpcInvokeInFrame => (Verdict::No, "the frame never loaded"@),
        Probe::LocalStorage => (Verdict::Unknown, PAGE_SILENT@),
        Probe::SessionStorage => (Verdict::Unknown, PAGE_SILENT@),
        Probe::IndexedDb => (Verdict::Unknown, PAGE_SILENT@),
        Probe::ForeignDocumentRan => (Verdict::No, "the document never loaded"@),
        Probe::ForeignPostDelivered => (Verdict::No, "the webview did not deliver it"@),
        Probe::ForeignPostOrigin => (Verdict::Unknown, "no cross-origin request arrived"@),
        Probe::ForeignPostReferer => (Verdict::Unknown, "no cross-origin request arrived"@),
    }
}

/// Most probes are answered by the page itself, so silence from it means the
/// answer never arrived, not that the answer was no.
pub const PAGE_SILENT: &'static str = "the page never reported this";

/// Every probe stands in the report where its index says.
pub proof fn lemma_index(probe: Probe)
    ensures
        0 <= index(probe) < COUNT,
        every_probe().len() == COUNT,
        every_probe()[index(probe)] == probe,
{
}

impl Probe {
    /// Every probe, in the order the report prints them.
    pub fn all() -> (all: Vec<Probe>)
        ensures
            all@ == every_probe(),
    {
        vec![
            Probe::PageOrigin,
            Probe::UserAgent,
            Probe::GzipDecoded,
            Probe::EsModuleLoaded,
            Probe::ResourceTiming,
            Probe::FetchPostBody,
            Probe::FetchPostHeaders,
            Probe::FormPostBody,
            Probe::FormPostHeaders,
            Probe::SetCookieReturned,
            Probe::DocumentCookie,
            Probe::FetchFollows303,
            Probe::NavigationFollows303,
            Probe::RangeHeaderArrives,
            Probe::CspDocumentRendered,
            Probe::CspEnforced,
            Probe::IpcInvoke,
            Probe::IpcWindowIdentity,
            Probe::IpcInvokeUnderCsp,
            Probe::IpcInvokeInFrame,
            Probe::LocalStorage,
            Probe::SessionStorage,
            Probe::IndexedDb,
            Probe::ForeignDocumentRan,
            Probe::ForeignPostDelivered,
            Probe::ForeignPostOrigin,
            Probe::ForeignPostReferer,
        ]
    }

    /// Where this probe stands in the report.
    pub fn index(self) -> (at: usize)
        ensures
            at == index(self),
            at < COUNT,
    {
        match self {
            Probe::PageOrigin => 0,
            Probe::UserAgent => 1,
            Probe::GzipDecoded => 2,
            Probe::EsModuleLoaded => 3,
            Probe::ResourceTiming => 4,
            Probe::FetchPostBody => 5,
            Probe::FetchPostHeaders => 6,
            Probe::FormPostBody => 7,
            Probe::FormPostHeaders => 8,
            Probe::SetCookieReturned => 9,
            Probe::DocumentCookie => 10,
            Probe::FetchFollows303 => 11,
            Probe::NavigationFollows303 => 12,
            Probe::RangeHeaderArrives => 13,
            Probe::CspDocumentRendered => 14,
            Probe::CspEnforced => 15,
            Probe::IpcInvoke => 16,
            Probe::IpcWindowIdentity => 17,
            Probe::IpcInvokeUnderCsp => 18,
            Probe::IpcInvokeInFrame => 19,
            Probe::LocalStorage => 20,
            Probe::SessionStorage => 21,
            Probe::IndexedDb => 22,
            Probe::ForeignDocumentRan => 23,
            Probe::ForeignPostDelivered => 24,
            Probe::ForeignPostOrigin => 25,
            Probe::ForeignPostReferer => 26,
        }
    }

    /// The string this probe is named by: what the page calls it, and a path
    /// segment.
    pub fn id(self) -> (text: &'static str)
        ensures
            text@ == id(self),
    {
        match self {
            Probe::PageOrigin => "page-origin",
            Probe::UserAgent => "user-agent",
            Probe::GzipDecoded => "gzip-decoded",
            Probe::EsModuleLoaded => "es-module-loaded",
            Probe::ResourceTiming => "resource-timing",
            Probe::FetchPostBody => "fetch-post-body",
            Probe::FetchPostHeaders => "fetch-post-headers",
            Probe::FormPostBody => "form-post-body",
            Probe::FormPostHeaders => "form-post-headers",
            Probe::SetCookieReturned => "set-cookie-returned",
            Probe::DocumentCookie => "document-cookie",
            Probe::FetchFollows303 => "fetch-follows-303",
            Probe::NavigationFollows303 => "navigation-follows-303",
            Probe::RangeHeaderArrives => "range-header-arrives",
            Probe::CspDocumentRendered => "csp-document-rendered",
            Probe::CspEnforced => "csp-enforced",
            Probe::IpcInvoke => "ipc-invoke",
            Probe::IpcWindowIdentity => "ipc-window-identity",
            Probe::IpcInvokeUnderCsp => "ipc-invoke-under-csp",
            Probe::IpcInvokeInFrame => "ipc-invoke-in-frame",
            Probe::LocalStorage => "local-storage",
            Probe::SessionStorage => "session-storage",
            Probe::IndexedDb => "indexed-db",
            Probe::ForeignDocumentRan => "foreign-document-ran",
            Probe::ForeignPostDelivered => "foreign-post-delivered",
            Probe::ForeignPostOrigin => "foreign-post-origin",
            Probe::ForeignPostReferer => "foreign-post-referer",
        }
    }

    /// How the row reads to whoever is looking at the report.
    pub fn label(self) -> (text: &'static str)
        ensures
            text@ == label(self),
    {
        match self {
            Probe::PageOrigin => "the origin the page runs on",
            Probe::UserAgent => "user agent",
            Probe::GzipDecoded => "Content-Encoding: gzip is decoded",
            Probe::EsModuleLoaded => "an ES module loads over the scheme",
            Probe::ResourceTiming => "Resource Timing records what was fetched",
            Probe::FetchPostBody => "a fetch POST delivers its body",
            Probe::FetchPostHeaders => "headers on a fetch POST",
            Probe::FormPostBody => "a form POST delivers its body",
            Probe::FormPostHeaders => "headers on a form POST",
            Probe::SetCookieReturned => "Set-Cookie comes back on the next request",
            Probe::DocumentCookie => "document.cookie sees them",
            Probe::FetchFollows303 => "fetch follows a 303",
            Probe::NavigationFollows303 => "a navigation follows a 303",
            Probe::RangeHeaderArrives => "a Range request header arrives",
            Probe::CspDocumentRendered => "the CSP document rendered at all",
            Probe::CspEnforced => "a Content-Security-Policy we send is enforced",
            Probe::IpcInvoke => "invoke reaches a Tauri command",
            Probe::IpcWindowIdentity => "...and the command knows which window called",
            Probe::IpcInvokeUnderCsp => "...in a window we send a CSP with",
            Probe::IpcInvokeInFrame => "...in a subframe of one",
            Probe::LocalStorage => "localStorage works",
            Probe::SessionStorage => "sessionStorage works",
            Probe::IndexedDb => "IndexedDB works",
            Probe::ForeignDocumentRan => "a foreign document runs in a frame at all",
            Probe::ForeignPostDelivered => "a cross-origin POST reaches the server",
            Probe::ForeignPostOrigin => "...and names its origin when it does",
            Probe::ForeignPostReferer => "...and what scheme its Referer names",
        }
    }

    /// What this probe is expected to answer on a webview we have already
    /// measured.
    pub fn expected(self) -> (verdict: Verdict)
        ensures
            verdict == expected(self),
    {
        match self {
            Probe::PageOrigin => Verdict::Info,
            Probe::UserAgent => Verdict::Info,
            Probe::GzipDecoded => Verdict::No,
            Probe::EsModuleLoaded => Verdict::Yes,
            Probe::ResourceTiming => Verdict::No,
            Probe::FetchPostBody => Verdict::Yes,
            Probe::FetchPostHeaders => Verdict::Info,
            Probe::FormPostBody => Verdict::Yes,
            Probe::FormPostHeaders => Verdict::Info,
            Probe::SetCookieReturned => Verdict::No,
            Probe::DocumentCookie => Verdict::No,
            Probe::FetchFollows303 => Verdict::No,
            Probe::NavigationFollows303 => Verdict::No,
            Probe::RangeHeaderArrives => Verdict::Yes,
            Probe::CspDocumentRendered => Verdict::Yes,
            Probe::CspEnforced => Verdict::Yes,
            Probe::IpcInvoke => Verdict::Yes,
            Probe::IpcWindowIdentity => Verdict::Info,
            Probe::IpcInvokeUnderCsp => Verdict::Yes,
            Probe::IpcInvokeInFrame => Verdict::No,
            Probe::LocalStorage => Verdict::Yes,
            Probe::SessionStorage => Verdict::Yes,
            Probe::IndexedDb => Verdict::Yes,
            Probe::ForeignDocumentRan => Verdict::Yes,
            Probe::ForeignPostDelivered => Verdict::Yes,
            Probe::ForeignPostOrigin => Verdict::No,
            Probe::ForeignPostReferer => Verdict::Info,
        }
    }

    /// The answer that stands if nothing ever reports this probe.
    pub fn silence(self) -> (answer: Answer)
        ensures
            answer@ == silence(self),
    {
        match self {
            Probe::PageOrigin => Answer::new(Verdict::Unknown, PAGE_SILENT),
            Probe::UserAgent => Answer::new(Verdict::Unknown, PAGE_SILENT),
            Probe::GzipDecoded => Answer::new(Verdict::Unknown, PAGE_SILENT),
            Probe::EsModuleLoaded => Answer::new(Verdict::Unknown, PAGE_SILENT),
            Probe::ResourceTiming => Answer::new(Verdict::Unknown, PAGE_SILENT),
            Probe::FetchPostBody => Answer::new(Verdict::Unknown, PAGE_SILENT),
            Probe::FetchPostHeaders => Answer::new(Verdict::Unknown, "no fetch POST arrived"),
            Probe::FormPostBody => Answer::new(Verdict::No, "the form post never arrived"),
            Probe::FormPostHeaders => Answer::new(Verdict::Unknown, "no form post arrived"),
            Probe::SetCookieReturned => Answer::new(Verdict::Unknown, "nothing asked for the cookies back"),
            Probe::DocumentCookie => Answer::new(Verdict::Unknown, PAGE_SILENT),
            Probe::FetchFollows303 => Answer::new(Verdict::Unknown, PAGE_SILENT),
            Probe::NavigationFollows303 => Answer::new(Verdict::No, "the redirect target was never requested"),
            Probe::RangeHeaderArrives => Answer::new(Verdict::Unknown, "nothing sent a Range header"),
            Probe::CspDocumentRendered => Answer::new(Verdict::No, "the document never loaded"),
            Probe::CspEnforced => Answer::new(Verdict::Yes, "the blocked inline script did not run"),
            Probe::IpcInvoke => Answer::new(Verdict::Unknown, PAGE_SILENT),
            Probe::IpcWindowIdentity => Answer::new(Verdict::Unknown, PAGE_SILENT),
            Probe::IpcInvokeUnderCsp => Answer::new(Verdict::No, "the window never loaded"),
            Probe::IpcInvokeInFrame => Answer::new(Verdict::No, "the frame never loaded"),
            Probe::LocalStorage => Answer::new(Verdict::Unknown, PAGE_SILENT),
            Probe::SessionStorage => Answer::new(Verdict::Unknown, PAGE_SILENT),
            Probe::IndexedDb => Answer::new(Verdict::Unknown, PAGE_SILENT),
            Probe::ForeignDocumentRan => Answer::new(Verdict::No, "the document never loaded"),
            Probe::ForeignPostDelivered => Answer::new(Verdict::No, "the webview did not deliver it"),
            Probe::ForeignPostOrigin => Answer::new(Verdict::Unknown, "no cross-origin request arrived"),
            Probe::ForeignPostReferer => Answer::new(Verdict::Unknown, "no cross-origin request arrived"),
        }
    }

    /// The probe a string names, or nothing if it names none.
    pub fn from_id(text: &str) -> (probe: Option<Probe>)
        ensures
            probe == named(text@),
    {
        let all = Probe::all();
        let mut at: usize = 0;
        while at < all.len()
            invariant
                at <= all@.len(),
                all@ == every_probe(),
                forall|i: int| 0 <= i < at ==> id(#[trigger] all@[i]) != text@,
            decreases all.len() - at,
        {
            if text::same(all[at].id(), text) {
                proof {
                    law_an_id_names_its_probe(all@[at as int]);
                }
                return Some(all[at]);
            }
            at = at + 1;
        }
        proof {
            assert forall|probe: Probe| #[trigger] id(probe) != text@ by {
                lemma_index(probe);
                assert(all@[index(probe)] == probe);
            }
        }
        None
    }
}

/// A number that tells the ids apart: the length, the first character and the
/// ninth.
spec fn mark(text: Seq<char>) -> int {
    text.len() * 65536 + (text[0] as int) * 256 + text[8] as int
}

/// The mark of each id.
spec fn id_mark(probe: Probe) -> int {
    match probe {
        Probe::PageOrigin => 749671,
        Probe::UserAgent => 685422,
        Probe::GzipDecoded => 812911,
        Probe::EsModuleLoaded => 1074533,
        Probe::ResourceTiming => 1012269,
        Probe::FetchPostBody => 1009267,
        Probe::FetchPostHeaders => 1205875,
        Probe::FormPostBody => 943732,
        Probe::FormPostHeaders => 1140340,
        Probe::SetCookieReturned => 1274729,
        Probe::DocumentCookie => 1008685,
        Probe::FetchFollows303 => 1140332,
        Probe::NavigationFollows303 => 1470063,
        Probe::RangeHeaderArrives => 1340001,
        Probe::CspDocumentRendered => 1401709,
        Probe::CspEnforced => 811890,
        Probe::IpcInvoke => 682347,
        Probe::IpcWindowIdentity => 1272175,
        Probe::IpcInvokeUnderCsp => 1337707,
        Probe::IpcInvokeInFrame => 1272171,
        Probe::LocalStorage => 879727,
        Probe::SessionStorage => 1012595,
        Probe::IndexedDb => 682340,
        Probe::ForeignDocumentRan => 1336932,
        Probe::ForeignPostDelivered => 1468016,
        Probe::ForeignPostOrigin => 1271408,
        Probe::ForeignPostReferer => 1336944,
    }
}

proof fn lemma_marks(probe: Probe)
    ensures
        mark(id(probe)) == id_mark(probe),
{
    match probe {
        Probe::PageOrigin => {
            reveal_strlit("page-origin");
        },
        Probe::UserAgent => {
            reveal_strlit("user-agent");
        },
        Probe::GzipDecoded => {
            reveal_strlit("gzip-decoded");
        },
        Probe::EsModuleLoaded => {
            reveal_strlit("es-module-loaded");
        },
        Probe::ResourceTiming => {
            reveal_strlit("resource-timing");
        },
        Probe::FetchPostBody => {
            reveal_strlit("fetch-post-body");
        },
        Probe::FetchPostHeaders => {
            reveal_strlit("fetch-post-headers");
        },
        Probe::FormPostBody => {
            reveal_strlit("form-post-body");
        },
        Probe::FormPostHeaders => {
            reveal_strlit("form-post-headers");
        },
        Probe::SetCookieReturned => {
            reveal_strlit("set-cookie-returned");
        },
        Probe::DocumentCookie => {
            reveal_strlit("document-cookie");
        },
        Probe::FetchFollows303 => {
            reveal_strlit("fetch-follows-303");
        },
        Probe::NavigationFollows303 => {
            reveal_strlit("navigation-follows-303");
        },
        Probe::RangeHeaderArrives => {
            reveal_strlit("range-header-arrives");
        },
        Probe::CspDocumentRendered => {
            reveal_strlit("csp-document-rendered");
        },
        Probe::CspEnforced => {
            reveal_strlit("csp-enforced");
        },
        Probe::IpcInvoke => {
            reveal_strlit("ipc-invoke");
        },
        Probe::IpcWindowIdentity => {
            reveal_strlit("ipc-window-identity");
        },
        Probe::IpcInvokeUnderCsp => {
            reveal_strlit("ipc-invoke-under-csp");
        },
        Probe::IpcInvokeInFrame => {
            reveal_strlit("ipc-invoke-in-frame");
        },
        Probe::LocalStorage => {
            reveal_strlit("local-storage");
        },
        Probe::SessionStorage => {
            reveal_strlit("session-storage");
        },
        Probe::IndexedDb => {
            reveal_strlit("indexed-db");
        },
        Probe::ForeignDocumentRan => {
            reveal_strlit("foreign-document-ran");
        },
        Probe::ForeignPostDelivered => {
            reveal_strlit("foreign-post-delivered");
        },
        Probe::ForeignPostOrigin => {
            reveal_strlit("foreign-post-origin");
        },
        Probe::ForeignPostReferer => {
            reveal_strlit("foreign-post-referer");
        },
    }
}

/// No two probes share an id, so none is unreachable from the page.
pub proof fn law_every_probe_has_its_own_id(left: Probe, right: Probe)
    requires
        id(left) == id(right),
    ensures
        left == right,
{
    lemma_marks(left);
    lemma_marks(right);
}

/// The id of a probe names that probe.
pub proof fn law_an_id_names_its_probe(probe: Probe)
    ensures
        named(id(probe)) == Some(probe),
{
    let found = choose|other: Probe| #[trigger] id(other) == id(probe);
    law_every_probe_has_its_own_id(found, probe);
}

/// Every id is one segment of a path: nothing in it separates it from what
/// follows.
pub proof fn law_ids_are_path_segments(probe: Probe)
    ensures
        id(probe).len() > 0,
        !id(probe).contains('/'),
{
    match probe {
        Probe::PageOrigin => {
            reveal_strlit("page-origin");
        },
        Probe::UserAgent => {
            reveal_strlit("user-agent");
        },
        Probe::GzipDecoded => {
            reveal_strlit("gzip-decoded");
        },
        Probe::EsModuleLoaded => {
            reveal_strlit("es-module-loaded");
        },
        Probe::ResourceTiming => {
            reveal_strlit("resource-timing");
        },
        Probe::FetchPostBody => {
            reveal_strlit("fetch-post-body");
        },
        Probe::FetchPostHeaders => {
            reveal_strlit("fetch-post-headers");
        },
        Probe::FormPostBody => {
            reveal_strlit("form-post-body");
        },
        Probe::FormPostHeaders => {
            reveal_strlit("form-post-headers");
        },
        Probe::SetCookieReturned => {
            reveal_strlit("set-cookie-returned");
        },
        Probe::DocumentCookie => {
            reveal_strlit("document-cookie");
        },
        Probe::FetchFollows303 => {
            reveal_strlit("fetch-follows-303");
        },
        Probe::NavigationFollows303 => {
            reveal_strlit("navigation-follows-303");
        },
        Probe::RangeHeaderArrives => {
            reveal_strlit("range-header-arrives");
        },
        Probe::CspDocumentRendered => {
            reveal_strlit("csp-document-rendered");
        },
        Probe::CspEnforced => {
            reveal_strlit("csp-enforced");
        },
        Probe::IpcInvoke => {
            reveal_strlit("ipc-invoke");
        },
        Probe::IpcWindowIdentity => {
            reveal_strlit("ipc-window-identity");
        },
        Probe::IpcInvokeUnderCsp => {
            reveal_strlit("ipc-invoke-under-csp");
        },
        Probe::IpcInvokeInFrame => {
            reveal_strlit("ipc-invoke-in-frame");
        },
        Probe::LocalStorage => {
            reveal_strlit("local-storage");
        },
        Probe::SessionStorage => {
            reveal_strlit("session-storage");
        },
        Probe::IndexedDb => {
            reveal_strlit("indexed-db");
        },
        Probe::ForeignDocumentRan => {
            reveal_strlit("foreign-document-ran");
        },
        Probe::ForeignPostDelivered => {
            reveal_strlit("foreign-post-delivered");
        },
        Probe::ForeignPostOrigin => {
            reveal_strlit("foreign-post-origin");
        },
        Probe::ForeignPostReferer => {
            reveal_strlit("foreign-post-referer");
        },
    }
}

/// No probe expects to go unanswered: `unknown` means nothing established an
/// answer, so a probe expecting it would be one expecting not to run.
pub proof fn law_no_probe_expects_to_go_unanswered(probe: Probe)
    ensures
        expected(probe) != Verdict::Unknown,
{
}

/// A verdict and the evidence for it.
#[derive(Debug)]
pub struct Answer {
    /// What the probe found.
    pub verdict: Verdict,
    /// Why, in the words of whichever side found out. Empty when the verdict
    /// says everything.
    pub detail: String,
}

impl View for Answer {
    type V = (Verdict, Seq<char>);

    open spec fn view(&self) -> (Verdict, Seq<char>) {
        (self.verdict, self.detail@)
    }
}

impl Clone for Answer {
    fn clone(&self) -> (copy: Answer)
        ensures
            copy@ == self@,
    {
        Answer { verdict: self.verdict, detail: self.detail.clone() }
    }
}

impl Answer {
    /// An answer of a verdict and what is said for it.
    pub fn new(verdict: Verdict, detail: &str) -> (answer: Answer)
        ensures
            answer@ == (verdict, detail@),
    {
        Answer { verdict, detail: detail.to_owned() }
    }

    /// The webview behaved the way a real HTTP client would.
    pub fn yes(detail: &str) -> (answer: Answer)
        ensures
            answer@ == (Verdict::Yes, detail@),
    {
        Answer::new(Verdict::Yes, detail)
    }

    /// It did not.
    pub fn no(detail: &str) -> (answer: Answer)
        ensures
            answer@ == (Verdict::No, detail@),
    {
        Answer::new(Verdict::No, detail)
    }

    /// A value worth writing down.
    pub fn info(detail: &str) -> (answer: Answer)
        ensures
            answer@ == (Verdict::Info, detail@),
    {
        Answer::new(Verdict::Info, detail)
    }
}

/// One line of the report, as the page receives it.
#[derive(Debug)]
pub struct Row {
    /// Which question this answers.
    pub id: Probe,
    /// How the row reads to whoever is looking at the report.
    pub label: String,
    /// What the probe found.
    pub verdict: Verdict,
    /// What it was expected to find. Equal to `verdict` on a webview this was
    /// written against, and the point of the row when it is not.
    pub expected: Verdict,
    /// Why.
    pub detail: String,
}

/// How an expectation prints: the word, in brackets when that is not what
/// happened.
pub open spec fn expectation_text(expected: Verdict, verdict: Verdict) -> Seq<char> {
    if verdict != expected {
        "["@ + word(expected) + "]"@
    } else {
        word(expected)
    }
}

impl Row {
    /// Whether this row says anything the expectations did not already.
    pub fn news(&self) -> (news: bool)
        ensures
            news == (self.verdict != self.expected),
    {
        self.verdict != self.expected
    }

    /// How the expectation prints: the word, in brackets when that is not what
    /// happened.
    ///
    /// Brackets and not a colour, because the same table goes to a terminal
    /// and to a window, and only one of those has colours to spend.
    pub fn expectation(&self) -> (text: String)
        ensures
            text@ == expectation_text(self.expected, self.verdict),
    {
        if self.news() {
            let mut text = "[".to_owned();
            text.append(self.expected.as_str());
            text.append("]");
            text
        } else {
            self.expected.as_str().to_owned()
        }
    }
}

/// What was not expected is marked with a bracket, and nothing else is.
pub proof fn law_brackets_mark_news(expected: Verdict, verdict: Verdict)
    ensures
        expectation_text(expected, verdict).len() > 0,
        (expectation_text(expected, verdict)[0] == '[') == (verdict != expected),
        expectation_text(expected, verdict).contains('[') == (verdict != expected),
{
    reveal_strlit("[");
    reveal_strlit("]");
    reveal_strlit("yes");
    reveal_strlit("no");
    reveal_strlit("info");
    reveal_strlit("unknown");
    let text = expectation_text(expected, verdict);
    if verdict != expected {
        assert(text[0] == '[');
        assert(text.contains('['));
    } else {
        assert forall|i: int| 0 <= i < text.len() implies text[i] != '[' by {}
    }
}

/// The whole report, as the page receives it.
///
/// The counts ride along rather than being derived on arrival, so the window
/// and the terminal cannot come to different conclusions about how many of
/// anything there were.
#[derive(Debug)]
pub struct Sheet {
    /// Every probe, in declaration order.
    pub rows: Vec<Row>,
    /// How the verdicts fell out: `13 yes, 8 no, 6 info`.
    pub tally: String,
    /// How many rows did not do what was expected, empty when none did.
    pub news: String,
}

/// Whether a row is the one of a probe that got an answer.
pub open spec fn is_row(row: Row, probe: Probe, answer: (Verdict, Seq<char>)) -> bool {
    &&& row.id == probe
    &&& row.label@ == label(probe)
    &&& row.verdict == answer.0
    &&& row.expected == expected(probe)
    &&& row.detail@ == answer.1
}

/// Whether rows are those of a report: one for each probe, in their order.
pub open spec fn are_rows(rows: Seq<Row>, answers: Seq<(Verdict, Seq<char>)>) -> bool {
    &&& rows.len() == COUNT
    &&& forall|i: int|
        0 <= i < COUNT ==> is_row(#[trigger] rows[i], every_probe()[i], answers[i])
}

/// How many answers are of a verdict.
pub open spec fn tallied(answers: Seq<(Verdict, Seq<char>)>, verdict: Verdict) -> nat
    decreases answers.len(),
{
    if answers.len() == 0 {
        0
    } else {
        tallied(answers.drop_last(), verdict) + if answers.last().0 == verdict {
            1nat
        } else {
            0nat
        }
    }
}

/// The verdicts among `verdicts` that some answer is of, each with how many are.
pub open spec fn counted(
    answers: Seq<(Verdict, Seq<char>)>,
    verdicts: Seq<Verdict>,
) -> Seq<Seq<char>>
    decreases verdicts.len(),
{
    if verdicts.len() == 0 {
        seq![]
    } else {
        let before = counted(answers, verdicts.drop_last());
        let count = tallied(answers, verdicts.last());
        if count > 0 {
            before.push(text::decimal(count) + " "@ + word(verdicts.last()))
        } else {
            before
        }
    }
}

/// How many of the first answers are not what their probe was expected to
/// answer.
pub open spec fn unexpected(answers: Seq<(Verdict, Seq<char>)>) -> nat
    decreases answers.len(),
{
    if answers.len() == 0 {
        0
    } else {
        unexpected(answers.drop_last()) + if answers.last().0 != expected(
            every_probe()[answers.len() - 1],
        ) {
            1nat
        } else {
            0nat
        }
    }
}

/// How the verdicts fell out.
pub open spec fn tally_text(answers: Seq<(Verdict, Seq<char>)>) -> Seq<char> {
    text::joined(counted(answers, every_verdict()), ", "@)
}

/// How many rows did not do what was expected, empty when none did.
pub open spec fn news_text(answers: Seq<(Verdict, Seq<char>)>) -> Seq<char> {
    if unexpected(answers) == 0 {
        seq![]
    } else {
        text::decimal(unexpected(answers)) + " unexpected"@
    }
}

/// The width of the widest of some texts.
pub open spec fn widest(texts: Seq<Seq<char>>) -> nat
    decreases texts.len(),
{
    if texts.len() == 0 {
        0
    } else if texts.last().len() > widest(texts.drop_last()) {
        texts.last().len()
    } else {
        widest(texts.drop_last())
    }
}

/// How wide the column of labels is.
pub open spec fn label_width() -> nat {
    widest(every_probe().map_values(|probe: Probe| label(probe)))
}

/// How wide the column of verdicts is.
pub open spec fn verdict_width() -> nat {
    widest(every_verdict().map_values(|verdict: Verdict| word(verdict)))
}

/// What stands in one line of the table. The column of expectations is two wider
/// than a verdict, for the brackets a disagreement wears.
pub open spec fn row_text(
    label: Seq<char>,
    verdict: Seq<char>,
    expected: Seq<char>,
    detail: Seq<char>,
) -> Seq<char> {
    text::trimmed_end(
        text::padded(label, label_width()) + "  "@ + text::padded(verdict, verdict_width()) + "  "@
            + text::padded(expected, verdict_width() + 2) + "  "@ + detail,
    )
}

/// One line of the table, with the break that ends it.
pub open spec fn line(
    label: Seq<char>,
    verdict: Seq<char>,
    expected: Seq<char>,
    detail: Seq<char>,
) -> Seq<char> {
    row_text(label, verdict, expected, detail) + "\n"@
}

/// What stands in the line of a probe that got an answer.
pub open spec fn probe_text(probe: Probe, answer: (Verdict, Seq<char>)) -> Seq<char> {
    row_text(
        label(probe),
        word(answer.0),
        expectation_text(expected(probe), answer.0),
        text::trimmed_end(answer.1),
    )
}

/// The lines of the first answers, one after another.
pub open spec fn lines(answers: Seq<(Verdict, Seq<char>)>) -> Seq<char>
    decreases answers.len(),
{
    if answers.len() == 0 {
        seq![]
    } else {
        lines(answers.drop_last()) + (probe_text(every_probe()[answers.len() - 1], answers.last())
            + "\n"@)
    }
}

/// What a table adds up to: how the verdicts fell out, and how many rows did not
/// do what was expected where any did not.
pub open spec fn summary_text(answers: Seq<(Verdict, Seq<char>)>) -> Seq<char> {
    tally_text(answers) + (if news_text(answers).len() == 0 {
        seq![]
    } else {
        ", "@ + news_text(answers) + " - in [brackets] above"@
    })
}

/// The report as a table.
pub open spec fn table(answers: Seq<(Verdict, Seq<char>)>) -> Seq<char> {
    line("probe"@, "result"@, "expected"@, "detail"@) + lines(answers) + "\n"@ + summary_text(
        answers,
    ) + "\n"@
}

/// What stands in each line of the table: the header, one line for each answer
/// in order, an empty one, and the summary.
pub open spec fn table_lines(answers: Seq<(Verdict, Seq<char>)>) -> Seq<Seq<char>> {
    headed_lines(answers).push(seq![]).push(summary_text(answers))
}

/// The header, and one line for each answer in order.
pub open spec fn headed_lines(answers: Seq<(Verdict, Seq<char>)>) -> Seq<Seq<char>> {
    seq![row_text("probe"@, "result"@, "expected"@, "detail"@)] + Seq::new(
        answers.len(),
        |i: int| probe_text(every_probe()[i], answers[i]),
    )
}

/// Everything the probe has learned, one answer per [`Probe`].
#[derive(Debug)]
pub struct Report {
    answers: Vec<Answer>,
}

/// The verdict and the evidence of each answer.
spec fn views(answers: Seq<Answer>) -> Seq<(Verdict, Seq<char>)> {
    answers.map_values(|answer: Answer| answer@)
}

impl View for Report {
    type V = Seq<(Verdict, Seq<char>)>;

    /// The answer to each probe, in their order.
    closed spec fn view(&self) -> Seq<(Verdict, Seq<char>)> {
        views(self.answers@)
    }
}

impl Report {
    /// Every probe has exactly one answer.
    #[verifier::type_invariant]
    spec fn complete(self) -> bool {
        self.answers@.len() == COUNT
    }

    /// A report in which every probe holds its declared meaning of silence.
    pub fn new() -> (report: Report)
        ensures
            report@.len() == COUNT,
            forall|probe: Probe| report@[#[trigger] index(probe)] == silence(probe),
    {
        let all = Probe::all();
        let mut answers: Vec<Answer> = Vec::new();
        let mut at: usize = 0;
        while at < all.len()
            invariant
                at <= all@.len(),
                all@ == every_probe(),
                answers@.len() == at,
                forall|i: int| 0 <= i < at ==> (#[trigger] answers@[i])@ == silence(all@[i]),
            decreases all.len() - at,
        {
            answers.push(all[at].silence());
            at = at + 1;
        }
        let report = Report { answers };
        proof {
            assert forall|probe: Probe| report@[#[trigger] index(probe)] == silence(probe) by {
                lemma_index(probe);
                assert(answers@[index(probe)]@ == silence(all@[index(probe)]));
            }
        }
        report
    }

    /// Records what the server saw for itself.
    pub fn record(&mut self, probe: Probe, answer: Answer)
        ensures
            old(self)@.len() == COUNT,
            final(self)@ == old(self)@.update(index(probe), answer@),
            final(self)@.len() == COUNT,
    {
        proof {
            use_type_invariant(&*self);
        }
        self.answers[probe.index()] = answer;
    }
}

/// How many rows are of a verdict.
fn count(rows: &Vec<Row>, verdict: Verdict, answers: Ghost<Seq<(Verdict, Seq<char>)>>) -> (found:
    usize)
    requires
        are_rows(rows@, answers@),
        answers@.len() == COUNT,
    ensures
        found == tallied(answers@, verdict),
{
    let mut found: usize = 0;
    let mut at: usize = 0;
    while at < rows.len()
        invariant
            at <= rows@.len(),
            are_rows(rows@, answers@),
            answers@.len() == COUNT,
            found == tallied(answers@.take(at as int), verdict),
            found <= at,
        decreases rows.len() - at,
    {
        proof {
            assert(answers@.take(at + 1).drop_last() =~= answers@.take(at as int));
            assert(is_row(rows@[at as int], every_probe()[at as int], answers@[at as int]));
        }
        if rows[at].verdict == verdict {
            found = found + 1;
        }
        at = at + 1;
    }
    proof {
        assert(answers@.take(at as int) =~= answers@);
    }
    found
}

/// How many rows are not what their probe was expected to answer.
fn count_news(rows: &Vec<Row>, answers: Ghost<Seq<(Verdict, Seq<char>)>>) -> (found: usize)
    requires
        are_rows(rows@, answers@),
        answers@.len() == COUNT,
    ensures
        found == unexpected(answers@),
{
    let mut found: usize = 0;
    let mut at: usize = 0;
    while at < rows.len()
        invariant
            at <= rows@.len(),
            are_rows(rows@, answers@),
            answers@.len() == COUNT,
            found == unexpected(answers@.take(at as int)),
            found <= at,
        decreases rows.len() - at,
    {
        proof {
            assert(answers@.take(at + 1).drop_last() =~= answers@.take(at as int));
            assert(is_row(rows@[at as int], every_probe()[at as int], answers@[at as int]));
        }
        if rows[at].news() {
            found = found + 1;
        }
        at = at + 1;
    }
    proof {
        assert(answers@.take(at as int) =~= answers@);
    }
    found
}

/// One line of the table.
fn render_line(
    label: &str,
    verdict: &str,
    expected: &str,
    detail: &str,
    wide_label: usize,
    wide_verdict: usize,
) -> (rendered: String)
    requires
        wide_label == label_width(),
        wide_verdict == verdict_width(),
        wide_verdict < usize::MAX - 2,
    ensures
        rendered@ == line(label@, verdict@, expected@, detail@),
{
    let mut whole = text::pad(label, wide_label);
    whole.append("  ");
    let verdict = text::pad(verdict, wide_verdict);
    whole.append(verdict.as_str());
    whole.append("  ");
    let expected = text::pad(expected, wide_verdict + 2);
    whole.append(expected.as_str());
    whole.append("  ");
    whole.append(detail);
    let mut rendered = text::trim_end(whole.as_str());
    rendered.append("\n");
    rendered
}

/// How wide the column of labels is.
fn measure_labels() -> (wide: usize)
    ensures
        wide == label_width(),
{
    let all = Probe::all();
    let ghost labels = all@.map_values(|probe: Probe| label(probe));
    let mut wide: usize = 0;
    let mut at: usize = 0;
    while at < all.len()
        invariant
            at <= all@.len(),
            labels == all@.map_values(|probe: Probe| label(probe)),
            wide == widest(labels.take(at as int)),
        decreases all.len() - at,
    {
        proof {
            assert(labels.take(at + 1).drop_last() =~= labels.take(at as int));
        }
        let here: usize = all[at].label().unicode_len();
        if here > wide {
            wide = here;
        }
        at = at + 1;
    }
    proof {
        assert(labels.take(at as int) =~= labels);
    }
    wide
}

/// How wide the column of verdicts is.
fn measure_verdicts() -> (wide: usize)
    ensures
        wide == verdict_width(),
        wide <= 7,
{
    let all = Verdict::all();
    let ghost words = all@.map_values(|verdict: Verdict| word(verdict));
    proof {
        reveal_strlit("yes");
        reveal_strlit("no");
        reveal_strlit("info");
        reveal_strlit("unknown");
    }
    let mut wide: usize = 0;
    let mut at: usize = 0;
    while at < all.len()
        invariant
            at <= all@.len(),
            words == all@.map_values(|verdict: Verdict| word(verdict)),
            forall|verdict: Verdict| (#[trigger] word(verdict)).len() <= 7,
            wide == widest(words.take(at as int)),
            wide <= 7,
        decreases all.len() - at,
    {
        proof {
            assert(words.take(at + 1).drop_last() =~= words.take(at as int));
        }
        let here: usize = all[at].as_str().unicode_len();
        if here > wide {
            wide = here;
        }
        at = at + 1;
    }
    proof {
        assert(words.take(at as int) =~= words);
    }
    wide
}

impl Report {
    /// The whole report, in declaration order.
    pub fn rows(&self) -> (rows: Vec<Row>)
        ensures
            self@.len() == COUNT,
            are_rows(rows@, self@),
    {
        proof {
            use_type_invariant(self);
        }
        let all = Probe::all();
        let mut rows: Vec<Row> = Vec::new();
        let mut at: usize = 0;
        while at < all.len()
            invariant
                at <= all@.len(),
                all@ == every_probe(),
                self.complete(),
                rows@.len() == at,
                forall|i: int|
                    0 <= i < at ==> is_row(#[trigger] rows@[i], every_probe()[i], self@[i]),
            decreases all.len() - at,
        {
            let probe: Probe = all[at];
            let row = Row {
                id: probe,
                label: probe.label().to_owned(),
                verdict: self.answers[at].verdict,
                expected: probe.expected(),
                detail: self.answers[at].detail.clone(),
            };
            proof {
                assert(self@[at as int] == self.answers@[at as int]@);
            }
            rows.push(row);
            at = at + 1;
        }
        rows
    }

    /// The whole report and what it adds up to.
    pub fn sheet(&self) -> (sheet: Sheet)
        ensures
            self@.len() == COUNT,
            are_rows(sheet.rows@, self@),
            sheet.tally@ == tally_text(self@),
            sheet.news@ == news_text(self@),
    {
        proof {
            use_type_invariant(self);
        }
        let rows = self.rows();
        let verdicts = Verdict::all();
        let mut counts: Vec<String> = Vec::new();
        let mut at: usize = 0;
        proof {
            assert(text::texts(counts@) =~= counted(self@, verdicts@.take(0)));
        }
        while at < verdicts.len()
            invariant
                at <= verdicts@.len(),
                self@.len() == COUNT,
                are_rows(rows@, self@),
                text::texts(counts@) == counted(self@, verdicts@.take(at as int)),
            decreases verdicts.len() - at,
        {
            let verdict: Verdict = verdicts[at];
            let found: usize = count(&rows, verdict, Ghost(self@));
            let ghost before = text::texts(counts@);
            proof {
                assert(verdicts@.take(at + 1).drop_last() =~= verdicts@.take(at as int));
                assert(verdicts@.take(at + 1).last() == verdict);
            }
            if found > 0 {
                let mut words = text::to_decimal(found as u64);
                words.append(" ");
                words.append(verdict.as_str());
                counts.push(words);
                proof {
                    assert(text::texts(counts@) =~= before.push(words@));
                }
            }
            at = at + 1;
        }
        proof {
            assert(verdicts@.take(at as int) =~= verdicts@);
        }
        let news: usize = count_news(&rows, Ghost(self@));
        let tally = text::join(&counts, ", ");
        let news = if news == 0 {
            let none = String::new();
            proof {
                assert(none@ =~= seq![]);
            }
            none
        } else {
            let mut words = text::to_decimal(news as u64);
            words.append(" unexpected");
            words
        };
        Sheet { rows, tally, news }
    }

    /// The report as a table, for the terminal the probe was started from.
    pub fn render(&self) -> (rendered: String)
        ensures
            self@.len() == COUNT,
            rendered@ == table(self@),
    {
        proof {
            use_type_invariant(self);
        }
        let wide_label: usize = measure_labels();
        let wide_verdict: usize = measure_verdicts();
        let sheet = self.sheet();
        let mut rendered = render_line(
            "probe",
            "result",
            "expected",
            "detail",
            wide_label,
            wide_verdict,
        );
        let ghost head = rendered@;
        let ghost answers = self@;
        let mut at: usize = 0;
        proof {
            assert(head + lines(answers.take(0)) =~= head);
        }
        while at < sheet.rows.len()
            invariant
                at <= sheet.rows@.len(),
                answers.len() == COUNT,
                are_rows(sheet.rows@, answers),
                wide_label == label_width(),
                wide_verdict == verdict_width(),
                wide_verdict <= 7,
                rendered@ == head + lines(answers.take(at as int)),
            decreases sheet.rows.len() - at,
        {
            proof {
                assert(answers.take(at + 1).drop_last() =~= answers.take(at as int));
                assert(is_row(sheet.rows@[at as int], every_probe()[at as int], answers[at as int]));
            }
            let row = &sheet.rows[at];
            let expectation = row.expectation();
            let detail = text::trim_end(row.detail.as_str());
            let next = render_line(
                row.label.as_str(),
                row.verdict.as_str(),
                expectation.as_str(),
                detail.as_str(),
                wide_label,
                wide_verdict,
            );
            rendered.append(next.as_str());
            proof {
                assert(rendered@ =~= head + lines(answers.take(at + 1)));
            }
            at = at + 1;
        }
        proof {
            assert(answers.take(at as int) =~= answers);
        }
        rendered.append("\n");
        let ghost above = rendered@;
        rendered.append(sheet.tally.as_str());
        let ghost added = rendered@;
        if !sheet.news.as_str().is_empty() {
            rendered.append(", ");
            rendered.append(sheet.news.as_str());
            rendered.append(" - in [brackets] above");
            proof {
                assert(rendered@ =~= added + (", "@ + sheet.news@ + " - in [brackets] above"@));
            }
        } else {
            proof {
                assert(added + Seq::<char>::empty() =~= added);
            }
        }
        proof {
            assert(rendered@ =~= above + summary_text(answers));
        }
        rendered.append("\n");
        rendered
    }
}

impl Default for Report {
    fn default() -> (report: Report)
        ensures
            report@.len() == COUNT,
            forall|probe: Probe| report@[#[trigger] index(probe)] == silence(probe),
    {
        Report::new()
    }
}

/// An answer lands on its own row and moves no other.
pub proof fn law_an_answer_lands_on_its_own_row(
    answers: Seq<(Verdict, Seq<char>)>,
    probe: Probe,
    answer: (Verdict, Seq<char>),
    other: Probe,
)
    requires
        answers.len() == COUNT,
    ensures
        answers.update(index(probe), answer)[index(other)] == (if other == probe {
            answer
        } else {
            answers[index(other)]
        }),
{
    lemma_index(probe);
    lemma_index(other);
}

/// The counts of the four verdicts add up to the number of answers, so every
/// probe is counted once.
pub proof fn law_every_answer_is_counted_once(answers: Seq<(Verdict, Seq<char>)>)
    ensures
        tallied(answers, Verdict::Yes) + tallied(answers, Verdict::No) + tallied(
            answers,
            Verdict::Info,
        ) + tallied(answers, Verdict::Unknown) == answers.len(),
    decreases answers.len(),
{
    if answers.len() > 0 {
        law_every_answer_is_counted_once(answers.drop_last());
    }
}

/// A label is one line, and does not end in white space.
proof fn lemma_label(probe: Probe)
    ensures
        label(probe).len() > 0,
        !text::ends_white(label(probe)),
        !label(probe).contains('\n'),
{
    match probe {
        Probe::PageOrigin => {
            reveal_strlit("the origin the page runs on");
        },
        Probe::UserAgent => {
            reveal_strlit("user agent");
        },
        Probe::GzipDecoded => {
            reveal_strlit("Content-Encoding: gzip is decoded");
        },
        Probe::EsModuleLoaded => {
            reveal_strlit("an ES module loads over the scheme");
        },
        Probe::ResourceTiming => {
            reveal_strlit("Resource Timing records what was fetched");
        },
        Probe::FetchPostBody => {
            reveal_strlit("a fetch POST delivers its body");
        },
        Probe::FetchPostHeaders => {
            reveal_strlit("headers on a fetch POST");
        },
        Probe::FormPostBody => {
            reveal_strlit("a form POST delivers its body");
        },
        Probe::FormPostHeaders => {
            reveal_strlit("headers on a form POST");
        },
        Probe::SetCookieReturned => {
            reveal_strlit("Set-Cookie comes back on the next request");
        },
        Probe::DocumentCookie => {
            reveal_strlit("document.cookie sees them");
        },
        Probe::FetchFollows303 => {
            reveal_strlit("fetch follows a 303");
        },
        Probe::NavigationFollows303 => {
            reveal_strlit("a navigation follows a 303");
        },
        Probe::RangeHeaderArrives => {
            reveal_strlit("a Range request header arrives");
        },
        Probe::CspDocumentRendered => {
            reveal_strlit("the CSP document rendered at all");
        },
        Probe::CspEnforced => {
            reveal_strlit("a Content-Security-Policy we send is enforced");
        },
        Probe::IpcInvoke => {
            reveal_strlit("invoke reaches a Tauri command");
        },
        Probe::IpcWindowIdentity => {
            reveal_strlit("...and the command knows which window called");
        },
        Probe::IpcInvokeUnderCsp => {
            reveal_strlit("...in a window we send a CSP with");
        },
        Probe::IpcInvokeInFrame => {
            reveal_strlit("...in a subframe of one");
        },
        Probe::LocalStorage => {
            reveal_strlit("localStorage works");
        },
        Probe::SessionStorage => {
            reveal_strlit("sessionStorage works");
        },
        Probe::IndexedDb => {
            reveal_strlit("IndexedDB works");
        },
        Probe::ForeignDocumentRan => {
            reveal_strlit("a foreign document runs in a frame at all");
        },
        Probe::ForeignPostDelivered => {
            reveal_strlit("a cross-origin POST reaches the server");
        },
        Probe::ForeignPostOrigin => {
            reveal_strlit("...and names its origin when it does");
        },
        Probe::ForeignPostReferer => {
            reveal_strlit("...and what scheme its Referer names");
        },
    }
}

/// A verdict's word is one line, does not end in white space, and so it is with
/// how an expectation prints.
proof fn lemma_word(verdict: Verdict, other: Verdict)
    ensures
        word(verdict).len() > 0,
        !text::ends_white(word(verdict)),
        !word(verdict).contains('\n'),
        !expectation_text(verdict, other).contains('\n'),
{
    reveal_strlit("yes");
    reveal_strlit("no");
    reveal_strlit("info");
    reveal_strlit("unknown");
    reveal_strlit("[");
    reveal_strlit("]");
}

/// What stands in a line made of parts that hold no break holds none, does not
/// end in white space, and starts with its label.
proof fn lemma_row_text(
    label: Seq<char>,
    verdict: Seq<char>,
    expected: Seq<char>,
    detail: Seq<char>,
)
    requires
        label.len() > 0,
        !text::ends_white(label),
        !label.contains('\n'),
        !verdict.contains('\n'),
        !expected.contains('\n'),
        !detail.contains('\n'),
    ensures
        !row_text(label, verdict, expected, detail).contains('\n'),
        !text::ends_white(row_text(label, verdict, expected, detail)),
        label.is_prefix_of(row_text(label, verdict, expected, detail)),
{
    reveal_strlit("  ");
    let one = text::padded(label, label_width());
    let two = text::padded(verdict, verdict_width());
    let three = text::padded(expected, verdict_width() + 2);
    lemma_no_break(label, label_width());
    lemma_no_break(verdict, verdict_width());
    lemma_no_break(expected, verdict_width() + 2);
    let gap = "  "@;
    assert(!gap.contains('\n'));
    lemma_no_break_joined(one, gap);
    lemma_no_break_joined(one + gap, two);
    lemma_no_break_joined(one + gap + two, gap);
    lemma_no_break_joined(one + gap + two + gap, three);
    lemma_no_break_joined(one + gap + two + gap + three, gap);
    lemma_no_break_joined(one + gap + two + gap + three + gap, detail);
    let whole = one + gap + two + gap + three + gap + detail;
    let row = text::trimmed_end(whole);
    text::lemma_trimmed_end(whole);
    assert forall|i: int| 0 <= i < row.len() implies row[i] != '\n' by {
        assert(row[i] == whole[i]);
        assert(whole.contains(whole[i]));
    }
    assert(whole[label.len() - 1] == label.last());
    assert(row.take(label.len() as int) =~= label);
}

/// A padded text holds no break, if the text holds none.
proof fn lemma_no_break(text: Seq<char>, width: nat)
    requires
        !text.contains('\n'),
    ensures
        !text::padded(text, width).contains('\n'),
{
    let wide = text::padded(text, width);
    assert forall|i: int| 0 <= i < wide.len() implies wide[i] != '\n' by {
        if i < text.len() {
            assert(text.contains(text[i]));
        }
    }
}

/// Two texts that hold no break hold none together.
proof fn lemma_no_break_joined(left: Seq<char>, right: Seq<char>)
    requires
        !left.contains('\n'),
        !right.contains('\n'),
    ensures
        !(left + right).contains('\n'),
{
    let both = left + right;
    assert forall|i: int| 0 <= i < both.len() implies both[i] != '\n' by {
        if i < left.len() {
            assert(left.contains(left[i]));
        } else {
            assert(right.contains(right[i - left.len()]));
        }
    }
}

/// A number in front of a word that holds no break holds none.
proof fn lemma_number(number: nat, rest: Seq<char>)
    requires
        !rest.contains('\n'),
    ensures
        !(text::decimal(number) + rest).contains('\n'),
{
    text::lemma_decimal(number);
    let digits = text::decimal(number);
    assert forall|i: int| 0 <= i < digits.len() implies digits[i] != '\n' by {}
    lemma_no_break_joined(digits, rest);
}

/// Each of the counts is one line and does not end in white space, and there is
/// one if some verdict was given.
proof fn lemma_counted(answers: Seq<(Verdict, Seq<char>)>, verdicts: Seq<Verdict>)
    ensures
        forall|i: int|
            0 <= i < counted(answers, verdicts).len() ==> {
                let count = #[trigger] counted(answers, verdicts)[i];
                count.len() > 0 && !text::ends_white(count) && !count.contains('\n')
            },
        (exists|i: int| 0 <= i < verdicts.len() && tallied(answers, #[trigger] verdicts[i]) > 0)
            ==> counted(answers, verdicts).len() > 0,
    decreases verdicts.len(),
{
    if verdicts.len() > 0 {
        let fewer = verdicts.drop_last();
        let last = verdicts.last();
        lemma_counted(answers, fewer);
        reveal_strlit(" ");
        lemma_word(last, last);
        lemma_no_break_joined(" "@, word(last));
        lemma_number(tallied(answers, last), " "@ + word(last));
        let count = text::decimal(tallied(answers, last)) + " "@ + word(last);
        assert(count =~= text::decimal(tallied(answers, last)) + (" "@ + word(last)));
        assert(count.last() == word(last).last());
        if exists|i: int| 0 <= i < verdicts.len() && tallied(answers, #[trigger] verdicts[i]) > 0 {
            let i = choose|i: int|
                0 <= i < verdicts.len() && tallied(answers, #[trigger] verdicts[i]) > 0;
            if i < fewer.len() {
                assert(fewer[i] == verdicts[i]);
            }
        }
    }
}

/// Texts that hold no break and do not end in white space are so joined, too.
proof fn lemma_joined(pieces: Seq<Seq<char>>, separator: Seq<char>)
    requires
        pieces.len() > 0,
        !separator.contains('\n'),
        forall|i: int|
            0 <= i < pieces.len() ==> (#[trigger] pieces[i]).len() > 0 && !text::ends_white(
                pieces[i],
            ) && !pieces[i].contains('\n'),
    ensures
        text::joined(pieces, separator).len() > 0,
        !text::ends_white(text::joined(pieces, separator)),
        !text::joined(pieces, separator).contains('\n'),
    decreases pieces.len(),
{
    if pieces.len() > 1 {
        let fewer = pieces.drop_last();
        assert forall|i: int| 0 <= i < fewer.len() implies (#[trigger] fewer[i]).len() > 0
            && !text::ends_white(fewer[i]) && !fewer[i].contains('\n') by {
            assert(fewer[i] == pieces[i]);
        }
        lemma_joined(fewer, separator);
        let before = text::joined(fewer, separator);
        let last = pieces[pieces.len() - 1];
        lemma_no_break_joined(before, separator);
        lemma_no_break_joined(before + separator, last);
        assert((before + separator + last).last() == last.last());
    }
}

/// The summary is one line, and does not end in white space.
proof fn lemma_summary(answers: Seq<(Verdict, Seq<char>)>)
    requires
        answers.len() > 0,
    ensures
        summary_text(answers).len() > 0,
        !text::ends_white(summary_text(answers)),
        !summary_text(answers).contains('\n'),
{
    law_every_answer_is_counted_once(answers);
    let verdicts = every_verdict();
    assert(verdicts[0] == Verdict::Yes && verdicts[1] == Verdict::No && verdicts[2]
        == Verdict::Info && verdicts[3] == Verdict::Unknown);
    assert(exists|i: int| 0 <= i < verdicts.len() && tallied(answers, #[trigger] verdicts[i]) > 0);
    lemma_counted(answers, verdicts);
    reveal_strlit(", ");
    reveal_strlit(" unexpected");
    reveal_strlit(" - in [brackets] above");
    lemma_joined(counted(answers, verdicts), ", "@);
    let tally = tally_text(answers);
    let news = news_text(answers);
    if news.len() == 0 {
        assert(summary_text(answers) =~= tally);
    } else {
        lemma_number(unexpected(answers), " unexpected"@);
        let more = ", "@ + news + " - in [brackets] above"@;
        lemma_no_break_joined(", "@, news);
        lemma_no_break_joined(", "@ + news, " - in [brackets] above"@);
        lemma_no_break_joined(tally, more);
        assert((tally + more).last() == " - in [brackets] above"@.last());
    }
}

/// The header and the lines below it are what stands in them, each with a break
/// behind it.
proof fn lemma_lines(answers: Seq<(Verdict, Seq<char>)>)
    ensures
        text::ended(headed_lines(answers), '\n') == line(
            "probe"@,
            "result"@,
            "expected"@,
            "detail"@,
        ) + lines(answers),
    decreases answers.len(),
{
    reveal_strlit("\n");
    let all = headed_lines(answers);
    if answers.len() == 0 {
        let head = row_text("probe"@, "result"@, "expected"@, "detail"@);
        assert(all =~= seq![head]);
        assert(all.drop_last() =~= seq![]);
        assert(text::ended(all.drop_last(), '\n') =~= seq![]);
        assert(text::ended(all, '\n') =~= head + "\n"@);
    } else {
        lemma_lines(answers.drop_last());
        assert(all.drop_last() =~= headed_lines(answers.drop_last()));
        let last = probe_text(every_probe()[answers.len() - 1], answers.last());
        assert(all.last() == last);
        assert(last.push('\n') =~= last + "\n"@);
        assert(text::ended(all, '\n') =~= line("probe"@, "result"@, "expected"@, "detail"@)
            + lines(answers));
    }
}

/// The line of a probe holds no break if the detail of its answer holds none,
/// does not end in white space, and starts with the probe's label.
proof fn lemma_probe_text(probe: Probe, answer: (Verdict, Seq<char>))
    requires
        !answer.1.contains('\n'),
    ensures
        !probe_text(probe, answer).contains('\n'),
        !text::ends_white(probe_text(probe, answer)),
        label(probe).is_prefix_of(probe_text(probe, answer)),
{
    lemma_label(probe);
    lemma_word(answer.0, answer.0);
    lemma_word(expected(probe), answer.0);
    text::lemma_trimmed_end(answer.1);
    let detail = text::trimmed_end(answer.1);
    assert forall|i: int| 0 <= i < detail.len() implies detail[i] != '\n' by {
        assert(detail[i] == answer.1[i]);
        assert(answer.1.contains(answer.1[i]));
    }
    lemma_row_text(
        label(probe),
        word(answer.0),
        expectation_text(expected(probe), answer.0),
        detail,
    );
}

/// The table is what stands in its lines, each with a break behind it.
proof fn lemma_table(answers: Seq<(Verdict, Seq<char>)>)
    ensures
        table(answers) == text::ended(table_lines(answers), '\n'),
{
    reveal_strlit("\n");
    let all = table_lines(answers);
    lemma_lines(answers);
    let headed = headed_lines(answers);
    let summary = summary_text(answers);
    let empty = Seq::<char>::empty();
    assert(all.drop_last() =~= headed.push(empty));
    assert(headed.push(empty).drop_last() =~= headed);
    assert(empty.push('\n') =~= "\n"@);
    assert(text::ended(headed.push(empty), '\n') == text::ended(headed, '\n') + "\n"@);
    assert(summary.push('\n') =~= summary + "\n"@);
    assert(text::ended(all, '\n') == text::ended(headed, '\n') + "\n"@ + (summary + "\n"@));
    assert(table(answers) =~= text::ended(all, '\n'));
}

/// Every line of a table whose details hold no line break holds none and does
/// not end in white space, and that of a probe starts with its label.
proof fn lemma_each_line(answers: Seq<(Verdict, Seq<char>)>, probes: Seq<Probe>, i: int)
    requires
        answers.len() == COUNT,
        probes == every_probe(),
        0 <= i < COUNT + 3,
        forall|i: int| 0 <= i < COUNT ==> !(#[trigger] answers[i]).1.contains('\n'),
    ensures
        !table_lines(answers)[i].contains('\n'),
        !text::ends_white(table_lines(answers)[i]),
        1 <= i <= COUNT ==> table_lines(answers)[i] == probe_text(probes[i - 1], answers[i - 1])
            && label(probes[i - 1]).is_prefix_of(table_lines(answers)[i]),
{
    if i == 0 {
        reveal_strlit("probe");
        reveal_strlit("result");
        reveal_strlit("expected");
        reveal_strlit("detail");
        lemma_row_text("probe"@, "result"@, "expected"@, "detail"@);
    } else if i <= COUNT {
        lemma_probe_text(probes[i - 1], answers[i - 1]);
    } else {
        lemma_summary(answers);
    }
}

/// A table whose details hold no line break has a line for each probe and three
/// more, each ended by a break: the header, the probes in the order they are
/// declared, an empty one, and the summary. Each probe's line starts with its
/// label, and no line ends in white space.
pub proof fn law_the_table_has_a_line_for_each_probe(answers: Seq<(Verdict, Seq<char>)>)
    requires
        answers.len() == COUNT,
        forall|i: int| 0 <= i < COUNT ==> !(#[trigger] answers[i]).1.contains('\n'),
    ensures
        table(answers) == text::ended(table_lines(answers), '\n'),
        text::split(table(answers), '\n') == table_lines(answers).push(seq![]),
        table_lines(answers).len() == COUNT + 3,
        table_lines(answers)[0] == row_text("probe"@, "result"@, "expected"@, "detail"@),
        forall|i: int|
            #![trigger every_probe()[i]]
            0 <= i < COUNT ==> table_lines(answers)[i + 1] == probe_text(
                every_probe()[i],
                answers[i],
            ) && label(every_probe()[i]).is_prefix_of(table_lines(answers)[i + 1]),
        table_lines(answers)[COUNT + 1] == Seq::<char>::empty(),
        table_lines(answers)[COUNT + 2] == summary_text(answers),
        forall|i: int|
            0 <= i < COUNT + 3 ==> !text::ends_white(#[trigger] table_lines(answers)[i]),
{
    let all = table_lines(answers);
    let probes = every_probe();
    let empty = Seq::<char>::empty();
    assert forall|i: int| 0 <= i < all.len() implies !text::ends_white(#[trigger] all[i])
        && !all[i].contains('\n') by {
        lemma_each_line(answers, probes, i);
    }
    assert forall|i: int|
        #![trigger every_probe()[i]]
        0 <= i < COUNT implies all[i + 1] == probe_text(every_probe()[i], answers[i]) && label(
        every_probe()[i],
    ).is_prefix_of(all[i + 1]) by {
        lemma_each_line(answers, probes, i + 1);
    }
    lemma_table(answers);
    text::lemma_split_ended(all, '\n', empty);
    assert(text::ended(all, '\n') + empty =~= text::ended(all, '\n'));
    assert(text::split(empty, '\n') =~= seq![empty]);
    assert(all + seq![empty] =~= all.push(empty));
}

/// On a webview that does what was expected, nothing is unexpected; and where
/// nothing is unexpected, every probe answered as expected.
pub proof fn law_no_news_means_as_expected(answers: Seq<(Verdict, Seq<char>)>)
    requires
        answers.len() <= COUNT,
    ensures
        unexpected(answers) == 0 <==> forall|i: int|
            0 <= i < answers.len() ==> (#[trigger] answers[i]).0 == expected(every_probe()[i]),
    decreases answers.len(),
{
    if answers.len() > 0 {
        let before = answers.drop_last();
        law_no_news_means_as_expected(before);
        if unexpected(answers) == 0 {
            assert forall|i: int| 0 <= i < answers.len() implies (#[trigger] answers[i]).0
                == expected(every_probe()[i]) by {
                if i < before.len() {
                    assert(before[i] == answers[i]);
                }
            }
        }
        if forall|i: int|
            0 <= i < answers.len() ==> (#[trigger] answers[i]).0 == expected(every_probe()[i]) {
            assert forall|i: int| 0 <= i < before.len() implies (#[trigger] before[i]).0
                == expected(every_probe()[i]) by {
                assert(before[i] == answers[i]);
            }
            assert(answers.last() == answers[answers.len() - 1]);
        }
    }
}

/// A verdict is tallied once for each answer that is of it.
pub proof fn law_a_tally_counts_the_answers(
    answers: Seq<(Verdict, Seq<char>)>,
    verdict: Verdict,
)
    ensures
        tallied(answers, verdict) == answers.filter(
            |answer: (Verdict, Seq<char>)| answer.0 == verdict,
        ).len(),
    decreases answers.len(),
{
    reveal(Seq::filter);
    if answers.len() > 0 {
        law_a_tally_counts_the_answers(answers.drop_last(), verdict);
    }
}

/// One answer more moves its own verdict's count by one, and the news by one if
/// it is not what its probe was expected to answer.
pub proof fn law_each_answer_counts_for_one(
    answers: Seq<(Verdict, Seq<char>)>,
    answer: (Verdict, Seq<char>),
    verdict: Verdict,
)
    requires
        answers.len() < COUNT,
    ensures
        tallied(seq![], verdict) == 0,
        unexpected(seq![]) == 0,
        tallied(answers.push(answer), verdict) == tallied(answers, verdict) + (if answer.0
            == verdict {
            1int
        } else {
            0int
        }),
        unexpected(answers.push(answer)) == unexpected(answers) + (if answer.0 != expected(
            every_probe()[answers.len() as int],
        ) {
            1int
        } else {
            0int
        }),
{
    assert(answers.push(answer).drop_last() =~= answers);
}

/// The counts of one verdict, if it was given.
spec fn count_of(count: nat, word: Seq<char>) -> Seq<Seq<char>> {
    if count > 0 {
        seq![text::decimal(count) + " "@ + word]
    } else {
        seq![]
    }
}

/// The tally is the count of each verdict that was given, in the order yes, no,
/// info and unknown, with a comma between each two.
pub proof fn law_the_tally_reads_in_order(answers: Seq<(Verdict, Seq<char>)>)
    ensures
        ({
            let yes = tallied(answers, Verdict::Yes);
            let no = tallied(answers, Verdict::No);
            let info = tallied(answers, Verdict::Info);
            let unknown = tallied(answers, Verdict::Unknown);
            tally_text(answers) == text::joined(
                (if yes > 0 {
                    seq![text::decimal(yes) + " "@ + "yes"@]
                } else {
                    seq![]
                }) + (if no > 0 {
                    seq![text::decimal(no) + " "@ + "no"@]
                } else {
                    seq![]
                }) + (if info > 0 {
                    seq![text::decimal(info) + " "@ + "info"@]
                } else {
                    seq![]
                }) + (if unknown > 0 {
                    seq![text::decimal(unknown) + " "@ + "unknown"@]
                } else {
                    seq![]
                }),
                ", "@,
            )
        }),
{
    let all = every_verdict();
    let yes = count_of(tallied(answers, Verdict::Yes), "yes"@);
    let no = count_of(tallied(answers, Verdict::No), "no"@);
    let info = count_of(tallied(answers, Verdict::Info), "info"@);
    let unknown = count_of(tallied(answers, Verdict::Unknown), "unknown"@);
    assert(all.take(0) =~= seq![]);
    assert(all.take(1).drop_last() =~= all.take(0));
    assert(all.take(2).drop_last() =~= all.take(1));
    assert(all.take(3).drop_last() =~= all.take(2));
    assert(all.drop_last() =~= all.take(3));
    assert(counted(answers, all.take(0)) =~= seq![]);
    assert(counted(answers, all.take(1)) =~= yes);
    assert(counted(answers, all.take(2)) =~= yes + no);
    assert(counted(answers, all.take(3)) =~= yes + no + info);
    assert(counted(answers, all) =~= yes + no + info + unknown);
}

/// The summary is the tally, and behind it how many rows did not do what was
/// expected where any did not.
pub proof fn law_the_summary_says_what_is_news(answers: Seq<(Verdict, Seq<char>)>)
    ensures
        unexpected(answers) == 0 ==> news_text(answers).len() == 0 && summary_text(answers)
            == tally_text(answers),
        unexpected(answers) > 0 ==> news_text(answers) == text::decimal(unexpected(answers))
            + " unexpected"@ && summary_text(answers) == tally_text(answers) + (", "@ + (
        text::decimal(unexpected(answers)) + " unexpected"@) + " - in [brackets] above"@),
{
    text::lemma_decimal(unexpected(answers));
    if unexpected(answers) == 0 {
        assert(summary_text(answers) =~= tally_text(answers));
    }
}

/// The widest of some texts is as wide as one of them, and none is wider.
proof fn lemma_widest(texts: Seq<Seq<char>>)
    ensures
        forall|i: int| 0 <= i < texts.len() ==> (#[trigger] texts[i]).len() <= widest(texts),
        texts.len() > 0 ==> exists|i: int|
            0 <= i < texts.len() && (#[trigger] texts[i]).len() == widest(texts),
    decreases texts.len(),
{
    if texts.len() > 0 {
        let fewer = texts.drop_last();
        lemma_widest(fewer);
        assert forall|i: int| 0 <= i < texts.len() implies (#[trigger] texts[i]).len() <= widest(
            texts,
        ) by {
            if i < fewer.len() {
                assert(fewer[i] == texts[i]);
            }
        }
        if texts.last().len() > widest(fewer) || fewer.len() == 0 {
            assert(texts[texts.len() - 1].len() == widest(texts));
        } else {
            let i = choose|i: int|
                0 <= i < fewer.len() && (#[trigger] fewer[i]).len() == widest(fewer);
            assert(texts[i].len() == widest(texts));
        }
    }
}

/// The columns are as wide as the widest thing in them and no wider.
pub proof fn law_columns_fit_what_is_in_them(probe: Probe, verdict: Verdict)
    ensures
        label(probe).len() <= label_width(),
        word(verdict).len() <= verdict_width(),
        exists|widest: Probe| #[trigger] label(widest).len() == label_width(),
        exists|widest: Verdict| #[trigger] word(widest).len() == verdict_width(),
{
    let labels = every_probe().map_values(|probe: Probe| label(probe));
    lemma_index(probe);
    lemma_widest(labels);
    assert(labels[index(probe)] == label(probe));
    let i = choose|i: int| 0 <= i < labels.len() && (#[trigger] labels[i]).len() == widest(labels);
    assert(label(every_probe()[i]).len() == label_width());
    let words = every_verdict().map_values(|verdict: Verdict| word(verdict));
    lemma_widest(words);
    assert(words[0] == word(Verdict::Yes));
    assert(words[1] == word(Verdict::No));
    assert(words[2] == word(Verdict::Info));
    assert(words[3] == word(Verdict::Unknown));
    let j = choose|j: int| 0 <= j < words.len() && (#[trigger] words[j]).len() == widest(words);
    assert(word(every_verdict()[j]).len() == verdict_width());
}

/// Four texts that fit their columns stand in them, up to the last that is not
/// empty.
proof fn lemma_columns(
    label: Seq<char>,
    label_wide: nat,
    verdict: Seq<char>,
    verdict_wide: nat,
    said: Seq<char>,
    detail: Seq<char>,
)
    requires
        label.len() <= label_wide,
        verdict.len() <= verdict_wide,
        0 < said.len() <= verdict_wide + 2,
        !text::ends_white(said),
        !text::ends_white(detail),
    ensures
        ({
            let row = text::trimmed_end(
                text::padded(label, label_wide) + "  "@ + text::padded(verdict, verdict_wide)
                    + "  "@ + text::padded(said, verdict_wide + 2) + "  "@ + detail,
            );
            let verdict_at = (label_wide + 2) as int;
            let said_at = (verdict_at + verdict_wide + 2) as int;
            let detail_at = (said_at + verdict_wide + 4) as int;
            &&& row.len() >= said_at + said.len()
            &&& row.take(label.len() as int) == label
            &&& forall|i: int| label.len() <= i < verdict_at ==> #[trigger] row[i] == ' '
            &&& row.subrange(verdict_at, verdict_at + verdict.len()) == verdict
            &&& forall|i: int| verdict_at + verdict.len() <= i < said_at ==> #[trigger] row[i] == ' '
            &&& row.subrange(said_at, said_at + said.len()) == said
            &&& detail.len() > 0 ==> row.len() == detail_at + detail.len() && row.skip(detail_at)
                == detail
            &&& detail.len() == 0 ==> row.len() == said_at + said.len()
        }),
{
    reveal_strlit("  ");
    let verdict_at = (label_wide + 2) as int;
    let said_at = (verdict_at + verdict_wide + 2) as int;
    let detail_at = (said_at + verdict_wide + 4) as int;
    let one = text::padded(label, label_wide);
    let two = text::padded(verdict, verdict_wide);
    let three = text::padded(said, verdict_wide + 2);
    let whole = one + "  "@ + two + "  "@ + three + "  "@ + detail;
    let row = text::trimmed_end(whole);
    assert(whole.len() == detail_at + detail.len());
    assert forall|i: int| 0 <= i < label.len() implies whole[i] == label[i] by {}
    assert forall|i: int| label.len() <= i < verdict_at implies whole[i] == ' ' by {}
    assert forall|i: int| 0 <= i < verdict.len() implies whole[verdict_at + i] == verdict[i] by {}
    assert forall|i: int| verdict_at + verdict.len() <= i < said_at implies whole[i] == ' ' by {}
    assert forall|i: int| 0 <= i < said.len() implies whole[said_at + i] == said[i] by {}
    assert forall|i: int| said_at + said.len() <= i < detail_at implies whole[i] == ' ' by {}
    assert forall|i: int| 0 <= i < detail.len() implies whole[detail_at + i] == detail[i] by {}
    text::lemma_trimmed_end(whole);
    let last = said_at + said.len() - 1;
    assert(whole[said_at + (said.len() - 1)] == said.last());
    assert(last < row.len());
    assert(row.take(label.len() as int) =~= label);
    assert(row.subrange(verdict_at, verdict_at + verdict.len()) =~= verdict);
    assert(row.subrange(said_at, said_at + said.len()) =~= said);
    if detail.len() > 0 {
        assert(whole[detail_at + (detail.len() - 1)] == detail.last());
        assert(row.len() == whole.len());
        assert(row.skip(detail_at) =~= detail);
    } else if row.len() > last + 1 {
        assert(row.last() == whole[row.len() - 1]);
        assert(text::ends_white(row));
    }
}

/// Every row has its label, its verdict, what was expected and its detail in the
/// same columns: the verdict stands two behind the widest label, what was
/// expected two behind the widest verdict, in brackets if it is not what
/// happened, and the detail two behind that.
pub proof fn law_each_column_has_its_place(probe: Probe, answer: (Verdict, Seq<char>))
    ensures
        ({
            let row = probe_text(probe, answer);
            let verdict_at = label_width() + 2;
            let expected_at = verdict_at + verdict_width() + 2;
            let detail_at = expected_at + verdict_width() + 4;
            let said = if answer.0 == expected(probe) {
                word(expected(probe))
            } else {
                "["@ + word(expected(probe)) + "]"@
            };
            let detail = text::trimmed_end(answer.1);
            &&& row.len() >= expected_at + said.len()
            &&& row.take(label(probe).len() as int) == label(probe)
            &&& forall|i: int| label(probe).len() <= i < verdict_at ==> #[trigger] row[i] == ' '
            &&& row.subrange(verdict_at as int, (verdict_at + word(answer.0).len()) as int) == word(
                answer.0,
            )
            &&& forall|i: int|
                verdict_at + word(answer.0).len() <= i < expected_at ==> #[trigger] row[i] == ' '
            &&& row.subrange(expected_at as int, (expected_at + said.len()) as int) == said
            &&& detail.len() > 0 ==> row.len() == detail_at + detail.len() && row.skip(
                detail_at as int,
            ) == detail
            &&& detail.len() == 0 ==> row.len() == expected_at + said.len()
        }),
{
    reveal_strlit("[");
    reveal_strlit("]");
    law_columns_fit_what_is_in_them(probe, answer.0);
    law_columns_fit_what_is_in_them(probe, expected(probe));
    lemma_label(probe);
    lemma_word(answer.0, answer.0);
    lemma_word(expected(probe), answer.0);
    let said = expectation_text(expected(probe), answer.0);
    assert(said.len() > 0 && !text::ends_white(said) && said.len() <= verdict_width() + 2) by {
        if answer.0 == expected(probe) {
            assert(said == word(expected(probe)));
        } else {
            assert(said.last() == ']');
        }
    }
    text::lemma_trimmed_end(answer.1);
    lemma_columns(
        label(probe),
        label_width(),
        word(answer.0),
        verdict_width(),
        said,
        text::trimmed_end(answer.1),
    );
}

/// A row is where its probe is declared, and says what the probe asks, what it
/// found, what it was expected to find and why.
pub proof fn law_each_row_is_its_probes(
    rows: Seq<Row>,
    answers: Seq<(Verdict, Seq<char>)>,
    probe: Probe,
)
    requires
        are_rows(rows, answers),
    ensures
        rows.len() == COUNT,
        rows[index(probe)].id == probe,
        rows[index(probe)].label@ == label(probe),
        rows[index(probe)].verdict == answers[index(probe)].0,
        rows[index(probe)].expected == expected(probe),
        rows[index(probe)].detail@ == answers[index(probe)].1,
{
    lemma_index(probe);
    assert(is_row(rows[index(probe)], every_probe()[index(probe)], answers[index(probe)]));
}

/// A text names a probe exactly if it is the probe's id, letter for letter.
pub proof fn law_only_an_id_names_a_probe(text: Seq<char>, probe: Probe)
    ensures
        named(text) == Some(probe) <==> id(probe) == text,
{
    if id(probe) == text {
        law_an_id_names_its_probe(probe);
    }
    if named(text) == Some(probe) {
        let found = choose|found: Probe| id(found) == text;
    }
}

/// What is expected is what was measured: these eight do not work and these six
/// are values, and every other probe is expected to find that the webview does
/// as a real client would.
pub proof fn law_what_is_expected_was_measured(probe: Probe)
    ensures
        expected(probe) == Verdict::No <==> probe == Probe::GzipDecoded || probe
            == Probe::ResourceTiming || probe == Probe::SetCookieReturned || probe
            == Probe::DocumentCookie || probe == Probe::FetchFollows303 || probe
            == Probe::NavigationFollows303 || probe == Probe::IpcInvokeInFrame || probe
            == Probe::ForeignPostOrigin,
        expected(probe) == Verdict::Info <==> probe == Probe::PageOrigin || probe
            == Probe::UserAgent || probe == Probe::FetchPostHeaders || probe
            == Probe::FormPostHeaders || probe == Probe::IpcWindowIdentity || probe
            == Probe::ForeignPostReferer,
        expected(probe) != Verdict::Unknown,
{
}

} // verus!
