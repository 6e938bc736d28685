//! Serves an application to a webview over a custom protocol.
//!
//! A webview reaches a custom protocol with a URL whose shape depends on the
//! platform, and reads the answer with a client that is not quite an HTTP
//! client. A server behind that protocol needs the ordinary web it was written
//! against. Every rule in between is a function here over plain values, with a
//! contract that says what it decides; opening windows, running futures and
//! moving bytes is left to the shell around it.
//!
//! # The two decisions
//!
//! [`Origins`] turns a request the webview delivered into one the server may
//! serve: refusing any URL that names somebody else's origin, and rewriting the
//! rest into the single canonical origin the server sees on every platform.
//! [`Platform`] is the only place that names an operating system.
//!
//! [`unsupported()`] reads the answer back, and names the capabilities a
//! protocol handler cannot deliver - streaming, compression, cookies, upgrades -
//! so the shell can fail where a developer will see it rather than drop half a
//! response in silence.
//!
//! # Around them
//!
//! * [`tower`] is what a layer in front of a service does with each decision,
//!   and [`protocol`] what the handler does with the answer.
//! * [`plugin`] checks the configuration, and says where a webview may go.
//! * [`session`] keeps one token per webview, and hands it to no other.
//! * [`report`], [`route`], [`clock`], [`ipc`] and [`log`] are the probe: a
//!   server that measures what a webview does, and reads the result out.
//! * [`harness`] builds the requests an application is exercised with.
//! * [`xtask`] plans and judges the commands the project is developed with.
//! * [`message`], [`headers`], [`uri`] and [`text`] are what they are all said
//!   in.

pub mod clock;
pub mod harness;
pub mod headers;
pub mod ipc;
pub mod log;
pub mod message;
pub mod origin;
pub mod plugin;
pub mod protocol;
pub mod report;
pub mod route;
pub mod session;
pub mod text;
pub mod tower;
pub mod unsupported;
pub mod uri;
pub mod xtask;

pub use origin::{CanonicalRequest, Denial, Origin, OriginError, Origins, Outcome, Platform};
pub use plugin::{Builder, Error, Session, DEFAULT_SCHEME};
pub use unsupported::{unsupported, Unsupported};
