# tauri-plugin-topcoat

Serves an application to a Tauri webview over a custom protocol, with the rules
in between proved in Verus.

A webview reaches a custom protocol as `scheme://localhost` or as
`http://scheme.localhost`, depending on the platform; the application always
sees `https://scheme.localhost`. `Origin` and `Referer` move with it when they
are the application's own and stay foreign when they are not, `Host` is set, and
no credential a client attached by itself gets through. What a protocol handler
cannot deliver - streaming, compression, cookies, upgrades - is answered with a
`502` that names it. Session tokens stay in the process, one per webview, and
are handed out only to the webview they were issued to, while it shows one of
the application's own documents.

## Layout

| | |
| --- | --- |
| `src/origin.rs`, `src/unsupported.rs`, `src/tower.rs` | what becomes of a request and of its answer |
| `src/plugin.rs`, `src/protocol.rs`, `src/session.rs` | the plugin: its configuration, navigation, and sessions |
| `src/report.rs`, `src/route.rs`, `src/clock.rs`, `src/ipc.rs`, `src/log.rs` | the probe, which measures what a webview does |
| `src/harness.rs` | requests in the shape a webview delivers them |
| `src/xtask.rs` | the developer tasks |
| `src/message.rs`, `src/headers.rs`, `src/uri.rs`, `src/text.rs` | what the rules are said in |
| `app/` | the shell: windows, futures, processes |

Each function states what it returns in its `ensures`. A `law_` proof function
states what holds of several of them together. What the `http`, `mime`, `url`,
`flate2` and `serde_json` crates do is stated on the functions marked
`external_body`, which are small and say in their comments what they take on
trust.
