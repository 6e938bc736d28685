//! The plugin: what it is configured with, what is wrong with a configuration,
//! and where a webview showing the application may go.

use crate::origin;
use crate::origin::{Origin, OriginError, Origins, Platform};
use crate::protocol::Bridge;
use crate::session;
use crate::session::Webviews;
use crate::text;
use crate::uri;
use vstd::prelude::*;

verus! {

/// The protocol scheme used unless [`Builder::scheme`] says otherwise.
pub const DEFAULT_SCHEME: &'static str = "topcoat";

/// Said when the windows of an application are configured for different URL
/// shapes, and the plugin had to pick one.
pub const DISAGREEMENT: &'static str =
    "tauri-plugin-topcoat: windows disagree about `useHttpsScheme`; serving every window over https. Set `Builder::use_https_scheme` to choose.";

/// Why a plugin could not be built.
///
/// Every variant is a configuration mistake, caught before the application
/// runs rather than as a puzzling failure once it does.
#[derive(Debug, PartialEq, Eq)]
#[non_exhaustive]
pub enum Error {
    /// The protocol scheme is not usable. See [`OriginError`].
    Scheme(OriginError),
    /// The application's base URL is the origin this protocol serves.
    ///
    /// Pointed at our own origin it would produce URLs the webview fetches for
    /// real, against a host that cannot exist. A desktop application either
    /// leaves the base URL unset or sets it to its public website.
    BaseUrlCollision {
        /// The base URL the router was given.
        base_url: String,
        /// The origin this protocol serves.
        origin: Origin,
    },
}

/// What an error says.
pub open spec fn error_text(error: Error) -> Seq<char> {
    match error {
        Error::Scheme(error) => origin::origin_error_text(error),
        Error::BaseUrlCollision { base_url, origin } => "the router's base URL `"@ + base_url@
            + "` is the origin this protocol serves (`"@ + origin::origin_text(origin@)
            + "`); leave it unset, or set it to the application's public website"@,
    }
}

impl Clone for Error {
    fn clone(&self) -> (copy: Error)
        ensures
            error_text(copy) == error_text(*self),
            match (*self, copy) {
                (Error::Scheme(error), Error::Scheme(other)) => error == other,
                (
                    Error::BaseUrlCollision { base_url, origin },
                    Error::BaseUrlCollision { base_url: other_url, origin: other_origin },
                ) => base_url == other_url && origin@ == other_origin@,
                _ => false,
            },
    {
        match self {
            Error::Scheme(error) => Error::Scheme(error.clone()),
            Error::BaseUrlCollision { base_url, origin } => Error::BaseUrlCollision {
                base_url: base_url.clone(),
                origin: origin.clone(),
            },
        }
    }
}

impl Error {
    /// What is wrong with the configuration.
    pub fn message(&self) -> (message: String)
        ensures
            message@ == error_text(*self),
    {
        match self {
            Error::Scheme(error) => error.message(),
            Error::BaseUrlCollision { base_url, origin } => {
                let mut message = "the router's base URL `".to_owned();
                message.append(base_url.as_str());
                message.append("` is the origin this protocol serves (`");
                let served = origin.text();
                message.append(served.as_str());
                message.append(
                    "`); leave it unset, or set it to the application's public website",
                );
                message
            },
        }
    }
}

/// Builds the plugin.
///
/// It holds the router with the base URL the router was given, so the base URL
/// can be checked before the router is sealed, which is the only moment that
/// mistake is still visible.
#[derive(Debug)]
pub struct Builder<R> {
    /// The application.
    pub router: R,
    /// The base URL the application resolves absolute URLs against, if it has
    /// one.
    pub base_url: Option<String>,
    /// The scheme the application is served under.
    pub scheme: String,
    /// Nothing reads the webview's own `useHttpsScheme` from the application
    /// configuration, so the two cannot disagree.
    pub https_scheme: Option<bool>,
    /// Whether a webview showing the application may leave it.
    pub allow_external_navigation: bool,
}

/// A plugin that is configured, and waits for the application to start.
#[derive(Debug)]
pub struct Plugin<R> {
    /// The application.
    pub router: R,
    /// The scheme the application is served under.
    pub scheme: String,
    /// The URL shape the caller insisted on, if any.
    pub https_scheme: Option<bool>,
    /// Whether a webview showing the application is held to it.
    pub confined: bool,
}

/// Drives a router exactly as a webview would, without one.
///
/// Built by [`Builder::session`], so a test cannot be configured differently
/// from the application it stands in for.
#[derive(Debug)]
pub struct Session<R> {
    bridge: Bridge<R>,
}

impl<R> Session<R> {
    /// What serves the requests.
    pub closed spec fn served(self) -> Bridge<R> {
        self.bridge
    }

    /// What serves the requests.
    pub fn bridge(&self) -> (bridge: &Bridge<R>)
        ensures
            *bridge == self.served(),
    {
        &self.bridge
    }
}

/// Whether a URL is within an origin that the protocol of a scheme has on a
/// platform: the canonical one, or the one a webview speaks there.
pub open spec fn served_on(scheme: Seq<char>, platform: Platform, url: Seq<char>) -> bool {
    let label = text::lowered(scheme);
    origin::covered(origin::canonical_origin(label), url) || origin::covered(
        origin::platform_origin(label, platform),
        url,
    )
}

/// Whether the base URL of a configuration, if it has one, is an origin the
/// protocol serves, on whichever platform.
pub open spec fn collides(scheme: Seq<char>, base_url: Option<Seq<char>>) -> bool {
    base_url is Some && exists|platform: Platform| #[trigger]
        served_on(scheme, platform, base_url->0)
}

/// Whether a scheme and an authority are those of an origin that a protocol has on a
/// platform.
pub open spec fn own_address(
    scheme: Seq<char>,
    platform: Platform,
    other_scheme: Seq<char>,
    authority: Seq<char>,
) -> bool {
    let label = text::lowered(scheme);
    let address = (Some(other_scheme), Some(authority), None);
    origin::within(origin::canonical_origin(label), address) || origin::within(
        origin::platform_origin(label, platform),
        address,
    )
}

/// Whether a base URL that is a plain one is refused exactly if its scheme and
/// authority are those of an origin that the protocol has on some platform.
pub open spec fn refuses_own(
    scheme: Seq<char>,
    base_url: Option<Seq<char>>,
    refused: bool,
) -> bool {
    origin::usable_scheme(scheme) && base_url is Some ==> forall|
        other_scheme: Seq<char>,
        authority: Seq<char>,
        tail: Seq<char>,
    | #[trigger]
        uri::plain_url(base_url->0, other_scheme, authority, tail) ==> refused == (exists|
            platform: Platform,
        | #[trigger] own_address(scheme, platform, other_scheme, authority))
}

/// Whether an error is the one that a configuration meets, on every platform.
pub open spec fn is_mistake(
    error: Error,
    scheme: Seq<char>,
    base_url: Option<Seq<char>>,
) -> bool {
    match error {
        Error::Scheme(error) => !origin::usable_scheme(scheme) && error->scheme@ == scheme,
        Error::BaseUrlCollision { base_url: given, origin } => origin::usable_scheme(scheme)
            && collides(scheme, base_url) && Some(given@) == base_url && origin@
            == origin::canonical_origin(text::lowered(scheme)),
    }
}

/// A collision found on one platform holds on every one: a base URL is refused
/// wherever it is an origin the protocol serves on some platform, and nowhere
/// else.
pub proof fn law_a_collision_holds_everywhere(
    scheme: Seq<char>,
    base_url: Seq<char>,
    platform: Platform,
)
    ensures
        served_on(scheme, platform, base_url) ==> collides(scheme, Some(base_url)),
        collides(scheme, Some(base_url)) == (served_on(scheme, Platform::Scheme, base_url)
            || served_on(scheme, Platform::HttpSubdomain, base_url) || served_on(
            scheme,
            Platform::HttpsSubdomain,
            base_url,
        )),
{
    lemma_every_platform(scheme, base_url);
}

/// A configuration is refused in the same words on any two platforms: with the
/// same kind of error, of the same scheme or of the same base URL and origin.
pub proof fn law_a_mistake_is_the_same_everywhere(
    left: Error,
    right: Error,
    scheme: Seq<char>,
    base_url: Option<Seq<char>>,
)
    requires
        is_mistake(left, scheme, base_url),
        is_mistake(right, scheme, base_url),
    ensures
        match (left, right) {
            (Error::Scheme(error), Error::Scheme(other)) => error->scheme@ == other->scheme@,
            (
                Error::BaseUrlCollision { base_url, origin },
                Error::BaseUrlCollision { base_url: other_url, origin: other_origin },
            ) => base_url@ == other_url@ && origin@ == other_origin@,
            _ => false,
        },
        error_text(left) == error_text(right),
{
}

/// A base URL collides exactly if it is an origin the protocol serves on one of
/// the three platforms.
proof fn lemma_every_platform(scheme: Seq<char>, base_url: Seq<char>)
    ensures
        collides(scheme, Some(base_url)) == (served_on(scheme, Platform::Scheme, base_url)
            || served_on(scheme, Platform::HttpSubdomain, base_url) || served_on(
            scheme,
            Platform::HttpsSubdomain,
            base_url,
        )),
{
    let given = Some(base_url);
    assert(given->0 == base_url);
    if collides(scheme, given) {
        let platform = choose|platform: Platform| #[trigger] served_on(scheme, platform, given->0);
        match platform {
            Platform::Scheme => {
                assert(served_on(scheme, Platform::Scheme, base_url));
            },
            Platform::HttpSubdomain => {
                assert(served_on(scheme, Platform::HttpSubdomain, base_url));
            },
            Platform::HttpsSubdomain => {
                assert(served_on(scheme, Platform::HttpsSubdomain, base_url));
            },
        }
    }
}

/// The origin pair of a configuration on a platform.
pub open spec fn pair(
    scheme: Seq<char>,
    platform: Platform,
) -> ((Seq<char>, Seq<char>), (Seq<char>, Seq<char>)) {
    let label = text::lowered(scheme);
    (origin::canonical_origin(label), origin::platform_origin(label, platform))
}

impl<R> Builder<R> {
    /// Starts a plugin for `router`, on the [`DEFAULT_SCHEME`]. `base_url` is
    /// the base URL the router was given, if it was given one.
    pub fn new(router: R, base_url: Option<String>) -> (builder: Builder<R>)
        ensures
            builder.router == router,
            builder.base_url == base_url,
            builder.scheme@ == DEFAULT_SCHEME@,
            builder.https_scheme is None,
            !builder.allow_external_navigation,
    {
        Builder {
            router,
            base_url,
            scheme: DEFAULT_SCHEME.to_owned(),
            https_scheme: None,
            allow_external_navigation: false,
        }
    }

    /// Serves the application under a different scheme name.
    ///
    /// The window's URL must match: `<scheme>://localhost/`.
    pub fn scheme(self, scheme: &str) -> (builder: Builder<R>)
        ensures
            builder.scheme@ == scheme@,
            builder == (Builder { scheme: builder.scheme, ..self }),
    {
        Builder { scheme: scheme.to_owned(), ..self }
    }

    /// Overrides the URL shape on the platforms that rewrite custom schemes
    /// onto http.
    ///
    /// Left alone, the plugin reads the same `useHttpsScheme` the webview does
    /// out of the application configuration. Set this only for a webview built
    /// in code with a setting the configuration does not carry.
    pub fn use_https_scheme(self, https: bool) -> (builder: Builder<R>)
        ensures
            builder == (Builder { https_scheme: Some(https), ..self }),
    {
        Builder { https_scheme: Some(https), ..self }
    }

    /// Lets a webview showing this application navigate to another origin.
    ///
    /// Off by default: a webview that cannot reach another origin cannot host
    /// content that would try to forge requests against this one.
    pub fn allow_external_navigation(self, allow: bool) -> (builder: Builder<R>)
        ensures
            builder == (Builder { allow_external_navigation: allow, ..self }),
    {
        Builder { allow_external_navigation: allow, ..self }
    }

    /// Builds the plugin.
    ///
    /// # Errors
    ///
    /// [`Error::Scheme`] if the scheme name is unusable, and
    /// [`Error::BaseUrlCollision`] if the router's base URL is the origin this
    /// protocol serves. Neither depends on the platform, so a mistake is caught
    /// on the one the application is developed on.
    pub fn build(self) -> (result: Result<Plugin<R>, Error>)
        ensures
            match result {
                Ok(plugin) => {
                    &&& origin::usable_scheme(self.scheme@)
                    &&& !collides(self.scheme@, text::text_or_none(self.base_url))
                    &&& plugin.router == self.router
                    &&& plugin.scheme == self.scheme
                    &&& plugin.https_scheme == self.https_scheme
                    &&& plugin.confined == !self.allow_external_navigation
                },
                Err(error) => is_mistake(
                    error,
                    self.scheme@,
                    text::text_or_none(self.base_url),
                ),
            },
            refuses_own(self.scheme@, text::text_or_none(self.base_url), result is Err),
    {
        match self.validate(Platform::Scheme) {
            Ok(_) => Ok(
                Plugin {
                    router: self.router,
                    scheme: self.scheme,
                    https_scheme: self.https_scheme,
                    confined: !self.allow_external_navigation,
                },
            ),
            Err(error) => Err(error),
        }
    }

    /// Drives the same application without a window, as `platform` would.
    ///
    /// Everything configured here applies, so a test exercises the transport
    /// the application actually runs on.
    ///
    /// # Errors
    ///
    /// The same as [`Builder::build`].
    pub fn session(self, platform: Platform) -> (result: Result<Session<R>, Error>)
        ensures
            match result {
                Ok(session) => {
                    &&& origin::usable_scheme(self.scheme@)
                    &&& !collides(self.scheme@, text::text_or_none(self.base_url))
                    &&& session.served().served() == self.router
                    &&& session.served().pair()@ == pair(self.scheme@, platform)
                    &&& session.served().pair()@.0 == (
                        "https"@,
                        text::lowered(self.scheme@) + ".localhost"@,
                    )
                },
                Err(error) => is_mistake(
                    error,
                    self.scheme@,
                    text::text_or_none(self.base_url),
                ),
            },
            refuses_own(self.scheme@, text::text_or_none(self.base_url), result is Err),
    {
        match self.validate(platform) {
            Ok(origins) => Ok(Session { bridge: Bridge::new(origins, self.router) }),
            Err(error) => Err(error),
        }
    }

    /// Checks what can be checked while the mistake is still attached to the
    /// call that made it, and returns the origins it had to build to do so.
    fn validate(&self, platform: Platform) -> (result: Result<Origins, Error>)
        ensures
            match result {
                Ok(origins) => origin::usable_scheme(self.scheme@) && !collides(
                    self.scheme@,
                    text::text_or_none(self.base_url),
                ) && origins@ == pair(self.scheme@, platform),
                Err(error) => is_mistake(
                    error,
                    self.scheme@,
                    text::text_or_none(self.base_url),
                ),
            },
            refuses_own(self.scheme@, text::text_or_none(self.base_url), result is Err),
    {
        let origins = match Origins::new(self.scheme.as_str(), platform) {
            Ok(origins) => origins,
            Err(error) => return Err(Error::Scheme(error)),
        };
        if let Some(base_url) = &self.base_url {
            if is_own(self.scheme.as_str(), base_url.as_str()) {
                return Err(
                    Error::BaseUrlCollision {
                        base_url: base_url.clone(),
                        origin: origins.canonical().clone(),
                    },
                );
            }
        }
        Ok(origins)
    }
}

/// Whether a URL is an origin the protocol of a usable scheme serves on a
/// platform.
fn is_served_on(scheme: &str, platform: Platform, url: &str) -> (served: bool)
    requires
        origin::usable_scheme(scheme@),
    ensures
        served == served_on(scheme@, platform, url@),
        forall|other_scheme: Seq<char>, authority: Seq<char>, tail: Seq<char>| #[trigger]
            uri::plain_url(url@, other_scheme, authority, tail) ==> served == own_address(
                scheme@,
                platform,
                other_scheme,
                authority,
            ),
{
    match Origins::new(scheme, platform) {
        Ok(origins) => origins.collides_with(url),
        Err(_) => false,
    }
}

/// Whether a URL is an origin the protocol of a usable scheme serves on some
/// platform.
///
/// Absolute URLs are the same on every platform, so one that escapes the
/// protocol on any of them is refused on all of them.
fn is_own(scheme: &str, url: &str) -> (own: bool)
    requires
        origin::usable_scheme(scheme@),
    ensures
        own == collides(scheme@, Some(url@)),
        refuses_own(scheme@, Some(url@), own),
{
    let own = is_served_on(scheme, Platform::Scheme, url) || is_served_on(
        scheme,
        Platform::HttpSubdomain,
        url,
    ) || is_served_on(scheme, Platform::HttpsSubdomain, url);
    proof {
        lemma_every_platform(scheme@, url@);
        assert forall|other_scheme: Seq<char>, authority: Seq<char>, tail: Seq<char>| #[trigger]
            uri::plain_url(url@, other_scheme, authority, tail) implies own == (exists|
            platform: Platform,
        | #[trigger] own_address(scheme@, platform, other_scheme, authority)) by {
            if exists|platform: Platform| #[trigger]
                own_address(scheme@, platform, other_scheme, authority) {
                let platform = choose|platform: Platform| #[trigger]
                    own_address(scheme@, platform, other_scheme, authority);
                match platform {
                    Platform::Scheme => {},
                    Platform::HttpSubdomain => {},
                    Platform::HttpsSubdomain => {},
                }
            }
            assert(own ==> own_address(scheme@, Platform::Scheme, other_scheme, authority)
                || own_address(scheme@, Platform::HttpSubdomain, other_scheme, authority)
                || own_address(scheme@, Platform::HttpsSubdomain, other_scheme, authority));
        }
    }
    own
}

/// The URL shape of a webview, given the shape of the platform and whether
/// https is asked for. There is no http rewrite on the platforms that keep the
/// scheme, so nothing for the setting to apply to.
pub open spec fn shape(current: Platform, https: bool) -> Platform {
    match current {
        Platform::Scheme => Platform::Scheme,
        _ => if https {
            Platform::HttpsSubdomain
        } else {
            Platform::HttpSubdomain
        },
    }
}

/// Whether one of the windows asks for https.
pub open spec fn any_asks(windows: Seq<bool>) -> bool {
    exists|i: int| 0 <= i < windows.len() && #[trigger] windows[i]
}

/// Whether one of the windows asks for https and another does not.
pub open spec fn windows_disagree(windows: Seq<bool>) -> bool {
    any_asks(windows) && exists|i: int| 0 <= i < windows.len() && !#[trigger] windows[i]
}

/// The URL shape this build's webview uses, from the application configuration
/// unless the caller insisted otherwise, and whether [`DISAGREEMENT`] is to be
/// said. `windows` holds the `useHttpsScheme` of each window.
pub fn platform_for(current: Platform, windows: &Vec<bool>, explicit: Option<bool>) -> (result: (
    Platform,
    bool,
))
    ensures
        result.0 == shape(
            current,
            match explicit {
                Some(https) => https,
                None => any_asks(windows@),
            },
        ),
        result.1 == (explicit is None && windows_disagree(windows@)),
        current == Platform::Scheme ==> result.0 == Platform::Scheme,
        current != Platform::Scheme && explicit is None ==> (result.0 == Platform::HttpsSubdomain
            <==> exists|i: int| 0 <= i < windows@.len() && #[trigger] windows@[i]),
        current != Platform::Scheme && explicit is Some ==> (result.0 == Platform::HttpsSubdomain
            <==> explicit->0),
        current != Platform::Scheme ==> result.0 != Platform::Scheme,
        result.1 <==> explicit is None && (exists|i: int|
            0 <= i < windows@.len() && #[trigger] windows@[i]) && (exists|i: int|
            0 <= i < windows@.len() && !#[trigger] windows@[i]),
{
    let mut any = false;
    let mut all = true;
    let mut at: usize = 0;
    while at < windows.len()
        invariant
            at <= windows@.len(),
            any == (exists|i: int| 0 <= i < at && #[trigger] windows@[i]),
            !all == (exists|i: int| 0 <= i < at && !#[trigger] windows@[i]),
        decreases windows.len() - at,
    {
        if windows[at] {
            any = true;
        } else {
            all = false;
        }
        at = at + 1;
    }
    let https = match explicit {
        Some(https) => https,
        None => any,
    };
    let platform = match current {
        Platform::Scheme => Platform::Scheme,
        _ => if https {
            Platform::HttpsSubdomain
        } else {
            Platform::HttpSubdomain
        },
    };
    let disagree = match explicit {
        Some(_) => false,
        None => any && !all,
    };
    (platform, disagree)
}

impl<R> Plugin<R> {
    /// Starts serving, once the application configuration is readable: on the
    /// platform `current` names, with windows whose `useHttpsScheme` are
    /// `windows`.
    ///
    /// # Errors
    ///
    /// [`OriginError`] if the scheme is unusable, which [`Builder::build`] has
    /// ruled out.
    pub fn setup(self, current: Platform, windows: &Vec<bool>) -> (result: Result<
        Bridge<R>,
        OriginError,
    >)
        ensures
            match result {
                Ok(bridge) => {
                    let https = match self.https_scheme {
                        Some(https) => https,
                        None => any_asks(windows@),
                    };
                    &&& origin::usable_scheme(self.scheme@)
                    &&& bridge.served() == self.router
                    &&& bridge.pair()@ == pair(self.scheme@, shape(current, https))
                },
                Err(error) => !origin::usable_scheme(self.scheme@) && error->scheme@
                    == self.scheme@,
            },
    {
        let (platform, _) = platform_for(current, windows, self.https_scheme);
        match Origins::new(self.scheme.as_str(), platform) {
            Ok(origins) => Ok(Bridge::new(origins, self.router)),
            Err(error) => Err(error),
        }
    }
}

/// Whether a webview that shows one page may go to another. Only one that is
/// confined, and shows one of our pages, is held to them.
pub open spec fn may_go(
    platform: (Seq<char>, Seq<char>),
    current: Seq<char>,
    target: Seq<char>,
    confined: bool,
) -> bool {
    confined && origin::covered(platform, current) ==> origin::covered(platform, target)
}

/// Decides whether a webview may go where it is going.
///
/// Narrow on purpose. Only a webview already showing one of our pages is held
/// to confinement; every other webview in the application is none of this
/// plugin's business, and neither is the first navigation into one.
///
/// `origins` is nothing until the plugin has started, and `current` is nothing
/// where the webview cannot say what it shows.
pub fn may_navigate(
    origins: Option<&Origins>,
    current: Option<&str>,
    target: &str,
    confined: bool,
) -> (may: bool)
    ensures
        may == match (origins, current) {
            (Some(origins), Some(current)) => may_go(origins@.1, current@, target@, confined),
            _ => true,
        },
        forall|scheme: Seq<char>, authority: Seq<char>, tail: Seq<char>| #[trigger]
            uri::plain_url(target@, scheme, authority, tail) && origins is Some && current is Some
                && confined && origin::covered(origins->0@.1, current->0@) ==> may == (text::alike(
                scheme,
                origins->0@.1.0,
            ) && text::alike(authority, origins->0@.1.1)),
        origins is None || current is None || !confined ==> may,
        origins is Some && current is Some && !origin::covered(origins->0@.1, current->0@) ==> may,
        origins is Some && current is Some && confined && origin::covered(
            origins->0@.1,
            current->0@,
        ) ==> may == origin::covered(origins->0@.1, target@),
        forall|scheme: Seq<char>, authority: Seq<char>, tail: Seq<char>| #[trigger]
            uri::plain_url(current->0@, scheme, authority, tail) && origins is Some
                && current is Some && !(text::alike(scheme, origins->0@.1.0) && text::alike(
                authority,
                origins->0@.1.1,
            )) ==> may,
{
    let origins = match origins {
        Some(origins) => origins,
        None => return true,
    };
    let ours = origins.platform();
    let current = match current {
        Some(current) => current,
        None => return true,
    };
    if !confined || !ours.covers(current) {
        return true;
    }
    ours.covers(target)
}

/// What is said of a navigation that was blocked. Loud, because a window that
/// silently refuses to navigate is the one failure where saying nothing
/// misleads.
pub fn blocked_navigation(webview: &str, url: &str) -> (message: String)
    ensures
        message@ == "tauri-plugin-topcoat: blocked navigation to "@ + url@ + " in webview "@
            + webview@,
{
    let mut message = "tauri-plugin-topcoat: blocked navigation to ".to_owned();
    message.append(url);
    message.append(" in webview ");
    message.append(webview);
    message
}

/// Records where a webview went, so that one seen on somebody else's origin
/// stops being handed its token.
pub fn observe_navigation<T>(
    webviews: &mut Webviews<T>,
    origins: &Origins,
    label: &str,
    target: &str,
)
    ensures
        final(webviews)@ == session::observed(
            old(webviews)@,
            label@,
            origin::covered(origins@.1, target@),
        ),
{
    let ours = origins.platform().covers(target);
    webviews.observe(label, ours);
}

/// A webview that is confined, and shows one of our pages, never leaves them:
/// however many pages it goes to, each of them is ours.
pub proof fn law_a_confined_webview_stays(
    platform: (Seq<char>, Seq<char>),
    pages: Seq<Seq<char>>,
    at: int,
)
    requires
        0 <= at < pages.len(),
        origin::covered(platform, pages[0]),
        forall|i: int|
            0 < i < pages.len() ==> may_go(platform, pages[i - 1], #[trigger] pages[i], true),
    ensures
        origin::covered(platform, pages[at]),
    decreases at,
{
    if at > 0 {
        law_a_confined_webview_stays(platform, pages, at - 1);
    }
}

/// Confined or not, a webview that goes to somebody else's page is handed no
/// token from then on, and is handed what it holds once it is back.
pub proof fn law_leaving_withholds_the_token<T>(
    all: Map<Seq<char>, session::Webview<T>>,
    label: Seq<char>,
    platform: (Seq<char>, Seq<char>),
    target: Seq<char>,
    back: Seq<char>,
    now: u128,
)
    requires
        !origin::covered(platform, target),
        origin::covered(platform, back),
    ensures
        ({
            let away = session::observed(all, label, origin::covered(platform, target));
            let home = session::observed(away, label, origin::covered(platform, back));
            &&& session::handed(away, label, now) == Err::<T, session::Withheld>(
                session::Withheld::ShowingAnotherOrigin,
            )
            &&& home == session::observed(all, label, true)
        }),
{
    session::law_away_is_handed_nothing(all, label, now);
}

/// A webview goes wherever it likes unless it is confined and shows one of our
/// pages; then it goes to our pages and nowhere else.
pub proof fn law_only_our_own_pages_are_held(
    platform: (Seq<char>, Seq<char>),
    current: Seq<char>,
    target: Seq<char>,
    confined: bool,
)
    ensures
        !confined ==> may_go(platform, current, target, confined),
        !origin::covered(platform, current) ==> may_go(platform, current, target, confined),
        confined && origin::covered(platform, current) ==> may_go(
            platform,
            current,
            target,
            confined,
        ) == origin::covered(platform, target),
{
}

/// A window that shows somebody else's page, by a scheme or an authority that is
/// not the platform's, is let into the application and anywhere else; one that
/// is confined and shows ours is let to exactly the pages whose scheme and
/// authority are the platform's.
pub proof fn law_a_page_is_held_by_its_address(
    platform: (Seq<char>, Seq<char>),
    current: Seq<char>,
    target: Seq<char>,
)
    ensures
        match uri::http_uri(current) {
            Some((Some(scheme), Some(authority), _)) => text::lowered(scheme) != text::lowered(
                platform.0,
            ) || text::lowered(authority) != text::lowered(platform.1) ==> may_go(
                platform,
                current,
                target,
                true,
            ),
            _ => may_go(platform, current, target, true),
        },
        match (uri::http_uri(current), uri::http_uri(target)) {
            (
                Some((Some(scheme), Some(authority), _)),
                Some((Some(other_scheme), Some(other_authority), _)),
            ) => text::lowered(scheme) == text::lowered(platform.0) && text::lowered(authority)
                == text::lowered(platform.1) ==> may_go(platform, current, target, true) == (
            text::lowered(other_scheme) == text::lowered(platform.0) && text::lowered(
                other_authority,
            ) == text::lowered(platform.1)),
            _ => true,
        },
{
}

/// The windows decide the shape together and not in turn: where the platform
/// rewrites onto http, it is https exactly if some window asks for it, and they
/// disagree exactly if some window does and some other does not.
pub proof fn law_any_window_decides_the_shape(windows: Seq<bool>, i: int)
    requires
        0 <= i < windows.len(),
    ensures
        windows[i] ==> shape(Platform::HttpSubdomain, any_asks(windows)) == Platform::HttpsSubdomain,
        (forall|j: int| 0 <= j < windows.len() ==> !#[trigger] windows[j]) ==> shape(
            Platform::HttpSubdomain,
            any_asks(windows),
        ) == Platform::HttpSubdomain,
        windows_disagree(windows) <==> (exists|j: int| 0 <= j < windows.len() && #[trigger] windows[j])
            && (exists|j: int| 0 <= j < windows.len() && !#[trigger] windows[j]),
{
}

/// The order of the windows plays no part: two lists with the same settings in
/// them, however often and in whichever order, come to the same shape and the
/// same disagreement.
pub proof fn law_the_order_of_the_windows_plays_no_part(one: Seq<bool>, other: Seq<bool>)
    requires
        forall|setting: bool| one.contains(setting) == other.contains(setting),
    ensures
        any_asks(one) == any_asks(other),
        windows_disagree(one) == windows_disagree(other),
        any_asks(one) == one.contains(true),
        windows_disagree(one) == (one.contains(true) && one.contains(false)),
{
    lemma_asks(one);
    lemma_asks(other);
}

/// Windows ask and disagree by which settings are among them.
proof fn lemma_asks(windows: Seq<bool>)
    ensures
        any_asks(windows) == windows.contains(true),
        windows_disagree(windows) == (windows.contains(true) && windows.contains(false)),
{
    if any_asks(windows) {
        let i = choose|i: int| 0 <= i < windows.len() && #[trigger] windows[i];
        assert(windows[i] == true);
    }
    if windows.contains(true) {
        let i = choose|i: int| 0 <= i < windows.len() && windows[i] == true;
        assert(windows[i]);
    }
    if exists|i: int| 0 <= i < windows.len() && !#[trigger] windows[i] {
        let i = choose|i: int| 0 <= i < windows.len() && !#[trigger] windows[i];
        assert(windows[i] == false);
    }
    if windows.contains(false) {
        let i = choose|i: int| 0 <= i < windows.len() && windows[i] == false;
        assert(!windows[i]);
    }
}

/// The setting applies only where a webview rewrites its scheme onto http: a
/// platform that keeps the scheme keeps it whatever is asked for.
pub proof fn law_https_is_only_asked_of_a_rewritten_scheme(current: Platform, https: bool)
    ensures
        shape(current, https) == Platform::Scheme <==> current == Platform::Scheme,
        shape(current, https) == Platform::HttpsSubdomain <==> current != Platform::Scheme && https,
{
}

/// A base URL is refused exactly if it is within `https` or `http` and the
/// scheme's own host, or within the scheme and `localhost`, on whichever
/// platform.
pub proof fn law_a_base_url_is_refused_by_its_address(scheme: Seq<char>, base_url: Seq<char>)
    ensures
        collides(scheme, Some(base_url)) <==> origin::covered(
            ("https"@, text::lowered(scheme) + ".localhost"@),
            base_url,
        ) || origin::covered(("http"@, text::lowered(scheme) + ".localhost"@), base_url)
            || origin::covered((text::lowered(scheme), "localhost"@), base_url),
        !collides(scheme, None),
{
    lemma_every_platform(scheme, base_url);
}

/// A configuration is a mistake for its scheme exactly if that is no DNS label,
/// and for its base URL only if the scheme is one; the error carries what was
/// given.
pub proof fn law_an_error_carries_what_was_given(
    error: Error,
    scheme: Seq<char>,
    base_url: Option<Seq<char>>,
)
    requires
        is_mistake(error, scheme, base_url),
    ensures
        error is Scheme <==> !origin::usable_scheme(scheme),
        error matches Error::Scheme(error) ==> error->scheme@ == scheme,
        error matches Error::BaseUrlCollision { base_url: given, origin } ==> Some(given@)
            == base_url && collides(scheme, base_url) && origin@ == (
            "https"@,
            text::lowered(scheme) + ".localhost"@,
        ) && error_text(error) == "the router's base URL `"@ + given@
            + "` is the origin this protocol serves (`"@ + ("https"@ + "://"@ + (text::lowered(
            scheme,
        ) + ".localhost"@)) + "`); leave it unset, or set it to the application's public website"@,
{
}

} // verus!
