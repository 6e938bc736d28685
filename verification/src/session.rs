//! Session tokens held in this process instead of in the webview.
//!
//! Two invariants, both kept by [`Webviews::read`], and both fail closed. A
//! token goes only to the webview it was issued to: the label of the webview is
//! what tokens are kept under. And a token goes only to a webview showing one
//! of our own documents.
//!
//! An instant is the number of nanoseconds since a moment that the shell picks
//! once, on a clock that never runs backwards.

use crate::message::Request;
use crate::text;
use vstd::prelude::*;

verus! {

/// Which rule in [`Webviews::read`] declined.
#[derive(Debug, Clone, Copy, PartialEq, Eq, Structural)]
pub enum Withheld {
    /// Nobody has heard of the webview.
    UnknownWebview,
    /// The webview was last seen on another origin, or was never seen.
    ShowingAnotherOrigin,
    /// The webview holds no token.
    NoToken,
    /// The webview's token has reached its deadline.
    Expired,
}

impl Withheld {
    /// The rule, in words.
    pub fn reason(self) -> (reason: &'static str)
        ensures
            reason@ == match self {
                Withheld::UnknownWebview => "unknown webview"@,
                Withheld::ShowingAnotherOrigin => "showing another origin"@,
                Withheld::NoToken => "no token held"@,
                Withheld::Expired => "token expired"@,
            },
    {
        match self {
            Withheld::UnknownWebview => "unknown webview",
            Withheld::ShowingAnotherOrigin => "showing another origin",
            Withheld::NoToken => "no token held",
            Withheld::Expired => "token expired",
        }
    }
}

/// A token, and the instant from which on it is no longer handed out.
#[derive(Debug)]
pub struct Held<T> {
    /// The token.
    pub token: T,
    /// Nothing when the lifetime could not be added to the current instant,
    /// which is a lifetime long enough that the process will not outlive it.
    pub expires: Option<u128>,
}

/// What the shell knows about one webview.
#[derive(Debug)]
pub struct Webview<T> {
    /// Whether the last navigation observed for this webview was to our own
    /// origin. `false` until one is, so a webview nobody has watched is not
    /// handed a token.
    pub showing_ours: bool,
    /// The token it holds, if it holds one.
    pub held: Option<Held<T>>,
}

/// What is known of a webview before anything is.
pub open spec fn unwatched<T>() -> Webview<T> {
    Webview { showing_ours: false, held: None }
}

/// What is known of a webview, which is nothing until something is.
pub open spec fn known<T>(all: Map<Seq<char>, Webview<T>>, label: Seq<char>) -> Webview<T> {
    if all.contains_key(label) {
        all[label]
    } else {
        unwatched()
    }
}

/// What a webview is handed at an instant, or the rule that declines.
pub open spec fn handed<T>(
    all: Map<Seq<char>, Webview<T>>,
    label: Seq<char>,
    now: u128,
) -> Result<T, Withheld> {
    if !all.contains_key(label) {
        Err(Withheld::UnknownWebview)
    } else if !all[label].showing_ours {
        Err(Withheld::ShowingAnotherOrigin)
    } else {
        match all[label].held {
            None => Err(Withheld::NoToken),
            Some(held) => if held.expires is Some && now >= held.expires->0 {
                Err(Withheld::Expired)
            } else {
                Ok(held.token)
            },
        }
    }
}

/// What the shell knows once a webview was seen to show, or not to show, one of
/// our documents. The token stays: what changes is only whether it is handed
/// out while the webview is away.
pub open spec fn observed<T>(
    all: Map<Seq<char>, Webview<T>>,
    label: Seq<char>,
    ours: bool,
) -> Map<Seq<char>, Webview<T>> {
    all.insert(label, Webview { showing_ours: ours, held: known(all, label).held })
}

/// The instant a lifetime from `now` on ends, if there is one.
pub open spec fn deadline(now: u128, max_age: u128) -> Option<u128> {
    if now + max_age <= u128::MAX {
        Some((now + max_age) as u128)
    } else {
        None
    }
}

/// What the shell knows once a token was issued to a webview.
pub open spec fn issued<T>(
    all: Map<Seq<char>, Webview<T>>,
    label: Seq<char>,
    token: T,
    max_age: u128,
    now: u128,
) -> Map<Seq<char>, Webview<T>> {
    all.insert(
        label,
        Webview {
            showing_ours: known(all, label).showing_ours,
            held: Some(Held { token, expires: deadline(now, max_age) }),
        },
    )
}

/// What the shell knows once a webview's token was discarded.
pub open spec fn cleared<T>(
    all: Map<Seq<char>, Webview<T>>,
    label: Seq<char>,
) -> Map<Seq<char>, Webview<T>> {
    if all.contains_key(label) {
        all.insert(label, Webview { showing_ours: all[label].showing_ours, held: None })
    } else {
        all
    }
}

/// A webview and the label it is known by.
#[derive(Debug)]
struct Entry<T> {
    label: String,
    webview: Webview<T>,
}

/// What the shell knows about each webview: where it has been, and what it
/// holds.
#[derive(Debug)]
pub struct Webviews<T> {
    entries: Vec<Entry<T>>,
}

/// The labels of the entries, in their order.
spec fn labels<T>(entries: Seq<Entry<T>>) -> Seq<Seq<char>> {
    entries.map_values(|entry: Entry<T>| entry.label@)
}

/// What the entries say of each webview.
spec fn by_label<T>(entries: Seq<Entry<T>>) -> Map<Seq<char>, Webview<T>> {
    Map::new(|label: Seq<char>| labels(entries).contains(label), |label: Seq<char>|
        entries[labels(entries).index_of(label)].webview)
}

/// Where a label stands among entries that hold none twice is where it is
/// looked up.
proof fn lemma_at<T>(entries: Seq<Entry<T>>, at: int)
    requires
        labels(entries).no_duplicates(),
        0 <= at < entries.len(),
    ensures
        by_label(entries).contains_key(entries[at].label@),
        by_label(entries)[entries[at].label@] == entries[at].webview,
{
    let label = entries[at].label@;
    assert(labels(entries)[at] == label);
    assert(labels(entries).contains(label));
    assert(labels(entries).index_of(label) == at);
}

/// Entries that say something else of one webview, and the same of the others.
proof fn lemma_update<T>(entries: Seq<Entry<T>>, at: int, changed: Entry<T>)
    requires
        labels(entries).no_duplicates(),
        0 <= at < entries.len(),
        changed.label@ == entries[at].label@,
    ensures
        labels(entries.update(at, changed)) == labels(entries),
        by_label(entries.update(at, changed)) == by_label(entries).insert(
            changed.label@,
            changed.webview,
        ),
{
    let after = entries.update(at, changed);
    assert(labels(after) =~= labels(entries));
    lemma_at(after, at);
    let left = by_label(after);
    let right = by_label(entries).insert(changed.label@, changed.webview);
    assert forall|label: Seq<char>| left.contains_key(label) implies #[trigger] left[label]
        == right[label] by {
        let found = labels(entries).index_of(label);
        assert(labels(entries)[found] == label);
    }
    lemma_at(entries, at);
    assert(left =~= right);
}

/// Entries that say something of one more webview, and the same of the others.
proof fn lemma_push<T>(entries: Seq<Entry<T>>, added: Entry<T>)
    requires
        labels(entries).no_duplicates(),
        !by_label(entries).contains_key(added.label@),
    ensures
        labels(entries.push(added)).no_duplicates(),
        by_label(entries.push(added)) == by_label(entries).insert(added.label@, added.webview),
{
    let after = entries.push(added);
    assert(labels(after) =~= labels(entries).push(added.label@));
    lemma_at(after, entries.len() as int);
    let left = by_label(after);
    let right = by_label(entries).insert(added.label@, added.webview);
    assert forall|label: Seq<char>| left.contains_key(label) <==> right.contains_key(label) by {
        if labels(entries).contains(label) {
            let found = labels(entries).index_of(label);
            assert(labels(after)[found] == label);
        }
        if labels(after).contains(label) && label != added.label@ {
            let found = labels(after).index_of(label);
            assert(labels(entries)[found] == label);
        }
    }
    assert forall|label: Seq<char>| left.contains_key(label) implies #[trigger] left[label]
        == right[label] by {
        if label != added.label@ {
            let found = labels(entries).index_of(label);
            assert(labels(entries)[found] == label);
            assert(labels(after)[found] == label);
            lemma_at(after, found);
        }
    }
    assert(left =~= right);
}

/// Where a label stands among the entries, if it does.
fn position<T>(entries: &Vec<Entry<T>>, label: &str) -> (found: Option<usize>)
    requires
        labels(entries@).no_duplicates(),
    ensures
        match found {
            Some(at) => at < entries@.len() && entries@[at as int].label@ == label@ && by_label(
                entries@,
            ).contains_key(label@) && by_label(entries@)[label@] == entries@[at as int].webview,
            None => !by_label(entries@).contains_key(label@),
        },
{
    let mut at: usize = 0;
    while at < entries.len()
        invariant
            at <= entries@.len(),
            labels(entries@).no_duplicates(),
            forall|i: int| 0 <= i < at ==> labels(entries@)[i] != label@,
        decreases entries.len() - at,
    {
        if text::same(entries[at].label.as_str(), label) {
            proof {
                lemma_at(entries@, at as int);
            }
            return Some(at);
        }
        at = at + 1;
    }
    None
}

impl<T> View for Webviews<T> {
    type V = Map<Seq<char>, Webview<T>>;

    closed spec fn view(&self) -> Map<Seq<char>, Webview<T>> {
        by_label(self.entries@)
    }
}

impl<T> Webviews<T> {
    /// No label stands twice.
    #[verifier::type_invariant]
    spec fn distinct(self) -> bool {
        labels(self.entries@).no_duplicates()
    }

    /// Nothing is known of any webview.
    pub fn new() -> (webviews: Webviews<T>)
        ensures
            webviews@ == Map::<Seq<char>, Webview<T>>::empty(),
    {
        let webviews = Webviews { entries: Vec::new() };
        proof {
            assert(webviews@ =~= Map::<Seq<char>, Webview<T>>::empty());
        }
        webviews
    }

    /// Records whether a webview is now showing one of our documents.
    pub fn observe(&mut self, label: &str, ours: bool)
        ensures
            final(self)@ == observed(old(self)@, label@, ours),
    {
        proof {
            use_type_invariant(&*self);
        }
        let mut entries: Vec<Entry<T>> = Vec::new();
        std::mem::swap(&mut entries, &mut self.entries);
        let ghost before = entries@;
        match position(&entries, label) {
            Some(at) => {
                entries[at].webview.showing_ours = ours;
                proof {
                    assert(entries@ =~= before.update(at as int, entries@[at as int]));
                    lemma_update(before, at as int, entries@[at as int]);
                }
            },
            None => {
                let webview = Webview { showing_ours: ours, held: None };
                let entry = Entry { label: label.to_owned(), webview };
                proof {
                    lemma_push(before, entry);
                }
                entries.push(entry);
            },
        }
        self.entries = entries;
    }

    /// The token to present for a request of this webview.
    ///
    /// Names the rule that declined rather than returning nothing: all four
    /// fail closed and look identical from outside, where each is just a
    /// request that was not signed in.
    pub fn read(&self, label: &str, now: u128) -> (token: Result<&T, Withheld>)
        ensures
            match token {
                Ok(token) => handed(self@, label@, now) == Ok::<T, Withheld>(*token),
                Err(withheld) => handed(self@, label@, now) == Err::<T, Withheld>(withheld),
            },
    {
        proof {
            use_type_invariant(self);
        }
        let at: usize = match position(&self.entries, label) {
            Some(at) => at,
            None => return Err(Withheld::UnknownWebview),
        };
        if !self.entries[at].webview.showing_ours {
            return Err(Withheld::ShowingAnotherOrigin);
        }
        match &self.entries[at].webview.held {
            None => Err(Withheld::NoToken),
            Some(held) => {
                if let Some(expires) = held.expires {
                    if now >= expires {
                        return Err(Withheld::Expired);
                    }
                }
                Ok(&held.token)
            },
        }
    }

    /// Issues a token to a webview, in place of any that it held.
    pub fn write(&mut self, label: &str, token: T, max_age: u128, now: u128)
        ensures
            final(self)@ == issued(old(self)@, label@, token, max_age, now),
    {
        proof {
            use_type_invariant(&*self);
        }
        let held = Held { token, expires: now.checked_add(max_age) };
        let mut entries: Vec<Entry<T>> = Vec::new();
        std::mem::swap(&mut entries, &mut self.entries);
        let ghost before = entries@;
        match position(&entries, label) {
            Some(at) => {
                entries[at].webview.held = Some(held);
                proof {
                    assert(entries@ =~= before.update(at as int, entries@[at as int]));
                    lemma_update(before, at as int, entries@[at as int]);
                }
            },
            None => {
                let webview = Webview { showing_ours: false, held: Some(held) };
                let entry = Entry { label: label.to_owned(), webview };
                proof {
                    lemma_push(before, entry);
                }
                entries.push(entry);
            },
        }
        self.entries = entries;
    }

    /// Discards a webview's token, and keeps the webview.
    pub fn delete(&mut self, label: &str)
        ensures
            final(self)@ == cleared(old(self)@, label@),
    {
        proof {
            use_type_invariant(&*self);
        }
        let mut entries: Vec<Entry<T>> = Vec::new();
        std::mem::swap(&mut entries, &mut self.entries);
        let ghost before = entries@;
        if let Some(at) = position(&entries, label) {
            entries[at].webview.held = None;
            proof {
                assert(entries@ =~= before.update(at as int, entries@[at as int]));
                lemma_update(before, at as int, entries@[at as int]);
            }
        }
        self.entries = entries;
    }
}

impl<T> Webviews<T> {
    /// The token to present for a request, of which the protocol handler may
    /// have named the webview. One it did not name has no session.
    pub fn read_for(&self, label: Option<&str>, now: u128) -> (token: Option<&T>)
        ensures
            token == (match label {
                Some(label) => match handed(self@, label@, now) {
                    Ok(held) => Some(&held),
                    Err(_) => None,
                },
                None => None,
            }),
    {
        match label {
            Some(label) => match self.read(label, now) {
                Ok(token) => Some(token),
                Err(_) => None,
            },
            None => None,
        }
    }

    /// Issues a token to the webview a request came from, if it is named.
    pub fn write_for(&mut self, label: Option<&str>, token: T, max_age: u128, now: u128)
        ensures
            final(self)@ == (match label {
                Some(label) => issued(old(self)@, label@, token, max_age, now),
                None => old(self)@,
            }),
    {
        if let Some(label) = label {
            self.write(label, token, max_age, now);
        }
    }

    /// Discards the token of the webview a request came from, if it is named.
    pub fn delete_for(&mut self, label: Option<&str>)
        ensures
            final(self)@ == (match label {
                Some(label) => cleared(old(self)@, label@),
                None => old(self)@,
            }),
    {
        if let Some(label) = label {
            self.delete(label);
        }
    }
}

/// Names the requesting webview on a request bound for the router.
///
/// Unconditional, so a value from anywhere else is replaced rather than
/// trusted.
pub fn attach<B>(request: Request<B>, label: &str) -> (attached: Request<B>)
    ensures
        attached.webview is Some,
        attached.webview->0@ == label@,
        attached.method == request.method,
        attached.uri == request.uri,
        attached.headers == request.headers,
        attached.body == request.body,
{
    Request {
        method: request.method,
        uri: request.uri,
        headers: request.headers,
        webview: Some(label.to_owned()),
        body: request.body,
    }
}

/// The webview a request came from, as the protocol handler named it.
///
/// Nothing means the request did not come through this plugin, which is treated
/// as "no session" rather than guessed at.
pub fn requesting_webview<B>(request: &Request<B>) -> (label: Option<&str>)
    ensures
        match label {
            Some(label) => request.webview is Some && request.webview->0@ == label@,
            None => request.webview is None,
        },
{
    match &request.webview {
        Some(label) => Some(label.as_str()),
        None => None,
    }
}

/// A token written to a webview that shows one of our documents reads back
/// until its deadline, and from the deadline on it does not.
pub proof fn law_written_token_reads_back<T>(
    all: Map<Seq<char>, Webview<T>>,
    label: Seq<char>,
    token: T,
    max_age: u128,
    now: u128,
    later: u128,
)
    requires
        known(all, label).showing_ours,
    ensures
        handed(issued(all, label, token, max_age, now), label, later) == (if later < now + max_age
            || now + max_age > u128::MAX {
            Ok::<T, Withheld>(token)
        } else {
            Err::<T, Withheld>(Withheld::Expired)
        }),
{
}

/// What is done to one webview changes nothing of what another is handed.
pub proof fn law_webviews_stay_apart<T>(
    all: Map<Seq<char>, Webview<T>>,
    label: Seq<char>,
    other: Seq<char>,
    token: T,
    max_age: u128,
    now: u128,
    ours: bool,
    later: u128,
)
    requires
        other != label,
    ensures
        handed(issued(all, label, token, max_age, now), other, later) == handed(all, other, later),
        handed(observed(all, label, ours), other, later) == handed(all, other, later),
        handed(cleared(all, label), other, later) == handed(all, other, later),
{
}

/// A webview showing a foreign document is handed nothing, and what it held is
/// there again once it is back.
pub proof fn law_away_is_handed_nothing<T>(
    all: Map<Seq<char>, Webview<T>>,
    label: Seq<char>,
    later: u128,
)
    ensures
        handed(observed(all, label, false), label, later) == Err::<T, Withheld>(
            Withheld::ShowingAnotherOrigin,
        ),
        observed(observed(all, label, false), label, true) == observed(all, label, true),
{
    assert(observed(observed(all, label, false), label, true) =~= observed(all, label, true));
}

/// A webview nobody has watched is not handed the token it was issued.
pub proof fn law_unwatched_is_handed_nothing<T>(
    all: Map<Seq<char>, Webview<T>>,
    label: Seq<char>,
    token: T,
    max_age: u128,
    now: u128,
    later: u128,
)
    requires
        !all.contains_key(label),
    ensures
        handed(issued(all, label, token, max_age, now), label, later) == Err::<T, Withheld>(
            Withheld::ShowingAnotherOrigin,
        ),
{
}

/// Deleting discards the token and keeps the webview: nothing is handed out
/// until another token is written, and that one reads as if none had been
/// deleted.
pub proof fn law_deleting_keeps_the_webview<T>(
    all: Map<Seq<char>, Webview<T>>,
    label: Seq<char>,
    token: T,
    max_age: u128,
    now: u128,
    later: u128,
)
    ensures
        handed(cleared(all, label), label, later) is Err,
        cleared(all, label).dom() == all.dom(),
        issued(cleared(all, label), label, token, max_age, now) == issued(
            all,
            label,
            token,
            max_age,
            now,
        ),
{
    assert(cleared(all, label).dom() =~= all.dom());
    assert(issued(cleared(all, label), label, token, max_age, now) =~= issued(
        all,
        label,
        token,
        max_age,
        now,
    ));
}

/// A token written over another leaves nothing of it.
pub proof fn law_rewriting_replaces<T>(
    all: Map<Seq<char>, Webview<T>>,
    label: Seq<char>,
    first: T,
    first_age: u128,
    first_now: u128,
    second: T,
    second_age: u128,
    second_now: u128,
)
    ensures
        issued(
            issued(all, label, first, first_age, first_now),
            label,
            second,
            second_age,
            second_now,
        ) == issued(all, label, second, second_age, second_now),
{
    assert(issued(
        issued(all, label, first, first_age, first_now),
        label,
        second,
        second_age,
        second_now,
    ) =~= issued(all, label, second, second_age, second_now));
}

/// Something that happened to a webview.
pub enum Event<T> {
    /// It was seen to show, or not to show, one of our documents.
    Observed {
        /// The webview.
        label: Seq<char>,
        /// Whether the document was ours.
        ours: bool,
    },
    /// It was issued a token.
    Issued {
        /// The webview.
        label: Seq<char>,
        /// The token.
        token: T,
        /// How long the token is good for.
        max_age: u128,
        /// When it was issued.
        now: u128,
    },
    /// Its token was discarded.
    Cleared {
        /// The webview.
        label: Seq<char>,
    },
}

/// What the shell knows after everything that happened.
pub open spec fn after<T>(events: Seq<Event<T>>) -> Map<Seq<char>, Webview<T>>
    decreases events.len(),
{
    if events.len() == 0 {
        Map::empty()
    } else {
        let before = after(events.drop_last());
        match events.last() {
            Event::Observed { label, ours } => observed(before, label, ours),
            Event::Issued { label, token, max_age, now } => issued(
                before,
                label,
                token,
                max_age,
                now,
            ),
            Event::Cleared { label } => cleared(before, label),
        }
    }
}

/// Whether an event is the issue of a token to a webview.
pub open spec fn issues<T>(event: Event<T>, to: Seq<char>, what: T) -> bool {
    event matches Event::Issued { label, token, .. } && label == to && token == what
}

/// Whether an event is the sight of a webview.
pub open spec fn sees<T>(event: Event<T>, which: Seq<char>) -> bool {
    event matches Event::Observed { label, .. } && label == which
}

/// Whether the last sight of a webview was of one of our documents.
pub open spec fn last_seen_ours<T>(events: Seq<Event<T>>, label: Seq<char>) -> bool
    decreases events.len(),
{
    if events.len() == 0 {
        false
    } else if sees(events.last(), label) {
        events.last()->ours
    } else {
        last_seen_ours(events.drop_last(), label)
    }
}

/// What is known of a webview comes from what happened to it.
proof fn lemma_after<T>(events: Seq<Event<T>>, label: Seq<char>)
    ensures
        known(after(events), label).showing_ours == last_seen_ours(events, label),
        known(after(events), label).held is Some ==> exists|i: int|
            0 <= i < events.len() && issues(
                #[trigger] events[i],
                label,
                known(after(events), label).held->0.token,
            ),
    decreases events.len(),
{
    if events.len() > 0 {
        let before = events.drop_last();
        lemma_after(before, label);
        if known(after(events), label).held is Some {
            let token = known(after(events), label).held->0.token;
            if issues(events.last(), label, token) {
                assert(issues(events[events.len() - 1], label, token));
            } else {
                let i = choose|i: int|
                    0 <= i < before.len() && issues(#[trigger] before[i], label, token);
                assert(issues(events[i], label, token));
            }
        }
    }
}

/// Whatever happened, a token is handed only to the webview it was issued to,
/// and only while that webview was last seen to show one of our own documents.
pub proof fn law_a_token_goes_only_where_it_may<T>(
    events: Seq<Event<T>>,
    label: Seq<char>,
    now: u128,
)
    requires
        handed(after(events), label, now) is Ok,
    ensures
        exists|i: int|
            0 <= i < events.len() && issues(
                #[trigger] events[i],
                label,
                handed(after(events), label, now)->Ok_0,
            ),
        last_seen_ours(events, label),
{
    lemma_after(events, label);
}

/// Watching a webview and writing its token can come in either order.
pub proof fn law_watching_and_writing_come_in_any_order<T>(
    all: Map<Seq<char>, Webview<T>>,
    label: Seq<char>,
    token: T,
    max_age: u128,
    now: u128,
    ours: bool,
)
    ensures
        observed(issued(all, label, token, max_age, now), label, ours) == issued(
            observed(all, label, ours),
            label,
            token,
            max_age,
            now,
        ),
        observed(cleared(all, label), label, ours) == cleared(observed(all, label, ours), label),
        observed(observed(all, label, !ours), label, ours) == observed(all, label, ours),
{
    assert(observed(issued(all, label, token, max_age, now), label, ours) =~= issued(
        observed(all, label, ours),
        label,
        token,
        max_age,
        now,
    ));
    assert(observed(cleared(all, label), label, ours) =~= cleared(
        observed(all, label, ours),
        label,
    ));
    assert(observed(observed(all, label, !ours), label, ours) =~= observed(all, label, ours));
}

/// A webview is declined for the first thing that stands against it: that nobody
/// has heard of it, that it shows somebody else's page, that it holds no token,
/// that the token is over.
pub proof fn law_the_first_reason_is_given<T>(
    all: Map<Seq<char>, Webview<T>>,
    label: Seq<char>,
    token: T,
    max_age: u128,
    now: u128,
    later: u128,
)
    requires
        !all.contains_key(label),
    ensures
        handed(all, label, later) == Err::<T, Withheld>(Withheld::UnknownWebview),
        handed(observed(all, label, false), label, later) == Err::<T, Withheld>(
            Withheld::ShowingAnotherOrigin,
        ),
        handed(observed(all, label, true), label, later) == Err::<T, Withheld>(Withheld::NoToken),
        handed(cleared(observed(all, label, true), label), label, later) == Err::<T, Withheld>(
            Withheld::NoToken,
        ),
        now + max_age <= later ==> handed(
            issued(observed(all, label, true), label, token, max_age, now),
            label,
            later,
        ) == Err::<T, Withheld>(Withheld::Expired),
        cleared(all, label) == all,
{
}

/// Whether an event changes the token of a webview.
pub open spec fn rewrites<T>(event: Event<T>, which: Seq<char>) -> bool {
    ||| (event matches Event::Issued { label, .. } && label == which)
    ||| (event matches Event::Cleared { label } && label == which)
}

/// What a webview holds is what the last event that changed its token left.
proof fn lemma_last_change<T>(events: Seq<Event<T>>, at: int, label: Seq<char>)
    requires
        0 <= at < events.len(),
        rewrites(events[at], label),
        forall|j: int| at < j < events.len() ==> !rewrites(#[trigger] events[j], label),
    ensures
        events[at] matches Event::Issued { token, max_age, now, .. } ==> known(
            after(events),
            label,
        ).held == Some(Held { token, expires: deadline(now, max_age) }),
        events[at] matches Event::Cleared { .. } ==> known(after(events), label).held is None,
    decreases events.len(),
{
    let before = events.drop_last();
    if at < before.len() {
        assert forall|j: int| at < j < before.len() implies !rewrites(
            #[trigger] before[j],
            label,
        ) by {
            assert(before[j] == events[j]);
        }
        lemma_last_change(before, at, label);
        assert(!rewrites(events[events.len() - 1], label));
    }
}

/// Whether a webview is held to show one of our pages is what the last sight of
/// it was.
proof fn lemma_last_sight<T>(events: Seq<Event<T>>, seen: int, label: Seq<char>)
    requires
        0 <= seen < events.len(),
        sees(events[seen], label),
        forall|j: int| seen < j < events.len() ==> !sees(#[trigger] events[j], label),
    ensures
        last_seen_ours(events, label) == events[seen]->ours,
    decreases events.len(),
{
    let before = events.drop_last();
    if seen < before.len() {
        assert forall|j: int| seen < j < before.len() implies !sees(#[trigger] before[j], label) by {
            assert(before[j] == events[j]);
        }
        lemma_last_sight(before, seen, label);
        assert(!sees(events[events.len() - 1], label));
    }
}

/// Whatever happened, a webview that was last seen on one of our pages is handed
/// the last token it was issued, until the time that token was given is over and
/// unless the token was discarded since. What happened to other webviews plays
/// no part.
pub proof fn law_the_last_token_is_handed_out<T>(
    events: Seq<Event<T>>,
    label: Seq<char>,
    at: int,
    seen: int,
    token: T,
    max_age: u128,
    issue: u128,
    now: u128,
)
    requires
        0 <= at < events.len(),
        events[at] == (Event::Issued { label, token, max_age, now: issue }),
        forall|j: int| at < j < events.len() ==> !rewrites(#[trigger] events[j], label),
        0 <= seen < events.len(),
        events[seen] == (Event::<T>::Observed { label, ours: true }),
        forall|j: int| seen < j < events.len() ==> !sees(#[trigger] events[j], label),
    ensures
        issue + max_age > u128::MAX || now < issue + max_age ==> handed(after(events), label, now)
            == Ok::<T, Withheld>(token),
        issue + max_age <= u128::MAX && now >= issue + max_age ==> handed(after(events), label, now)
            == Err::<T, Withheld>(Withheld::Expired),
{
    lemma_last_change(events, at, label);
    lemma_last_sight(events, seen, label);
    lemma_after(events, label);
    assert(known(after(events), label).held is Some);
}

/// Whatever happened, a webview is handed nothing after its token was discarded,
/// until it is issued another, nor while it was last seen on somebody else's
/// page.
pub proof fn law_a_discarded_token_stays_gone<T>(
    events: Seq<Event<T>>,
    label: Seq<char>,
    at: int,
    now: u128,
)
    requires
        0 <= at < events.len(),
    ensures
        events[at] == (Event::<T>::Cleared { label }) && (forall|j: int|
            at < j < events.len() ==> !rewrites(#[trigger] events[j], label)) ==> handed(
            after(events),
            label,
            now,
        ) is Err,
        events[at] == (Event::<T>::Observed { label, ours: false }) && (forall|j: int|
            at < j < events.len() ==> !sees(#[trigger] events[j], label)) ==> handed(
            after(events),
            label,
            now,
        ) is Err,
{
    lemma_after(events, label);
    if events[at] == (Event::<T>::Cleared { label }) && (forall|j: int|
        at < j < events.len() ==> !rewrites(#[trigger] events[j], label)) {
        lemma_last_change(events, at, label);
    }
    if events[at] == (Event::<T>::Observed { label, ours: false }) && (forall|j: int|
        at < j < events.len() ==> !sees(#[trigger] events[j], label)) {
        lemma_last_sight(events, at, label);
    }
}

} // verus!
