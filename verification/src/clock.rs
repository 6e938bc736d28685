//! The clock in the page header, and the timings behind it.
//!
//! Every character is rendered here, formatting included; the page knows
//! nothing about how a duration is spelled.

use crate::route;
use crate::route::{param, Query};
use crate::text;
use crate::uri::Uri;
use vstd::prelude::*;

verus! {

/// What the clock in the page header reads, once an animation frame. It is the
/// one route that is not logged.
pub const CLOCK: &'static str = "/clock";

/// The numbers from here on take more than the 53 bits a binary64 number has
/// for its digits.
pub const DIGITS_END: u128 = 9007199254740992;

/// The least number whose digits fill the 53 bits a binary64 number has.
pub const DIGITS_FULL: u128 = 4503599627370496;

/// The whole number nearest to a fraction, and the even one of two as near.
pub open spec fn nearest(numerator: nat, denominator: nat) -> nat {
    let whole = numerator / denominator;
    let rest = numerator % denominator;
    if 2 * rest < denominator || (2 * rest == denominator && whole % 2 == 0) {
        whole
    } else {
        whole + 1
    }
}

/// How far apart binary64 numbers are near a whole number: one, until its
/// digits no longer fit, and twice as far with each further bit.
pub open spec fn spacing(number: nat) -> nat
    decreases number,
{
    if number < DIGITS_END {
        1
    } else {
        2 * spacing(number / 2)
    }
}

/// The power of two that a fraction has to be multiplied by until its digits
/// fill a binary64 number.
pub open spec fn scaling(numerator: nat, denominator: nat) -> nat
    decreases 2 * denominator * DIGITS_FULL - numerator,
{
    if numerator == 0 || numerator >= denominator * DIGITS_FULL {
        1
    } else {
        2 * scaling(2 * numerator, denominator)
    }
}

/// The hundredths nearest to a number of thousandths, where the thousandths are
/// first taken as binary64 and then divided as binary64, each to the nearest
/// number there is.
pub open spec fn hundredths(thousandths: nat) -> nat {
    let taken = nearest(thousandths, spacing(thousandths)) * spacing(thousandths);
    let apart = spacing(taken / 1000);
    let scale = scaling(taken, 1000 * apart);
    let digits = nearest(taken * scale, 1000 * apart);
    nearest(digits * apart * 100, scale)
}

/// A number of microseconds in the unit that does not spend its digits on a
/// leading zero.
pub open spec fn duration_text(micros: u64) -> Seq<char> {
    if micros < 1000 {
        text::decimal(micros as nat) + "\u{b5}s"@
    } else {
        let shown = hundredths(micros as nat);
        text::decimal(shown / 100) + "."@ + text::zero_padded(shown % 100, 2) + "ms"@
    }
}

/// The whole number nearest to a fraction, and the even one of two as near.
fn to_nearest(numerator: u128, denominator: u128) -> (result: u128)
    requires
        0 < denominator < 0x1_0000_0000_0000_0000_0000_0000,
    ensures
        result == nearest(numerator as nat, denominator as nat),
        result <= numerator / denominator + 1,
{
    let whole: u128 = numerator / denominator;
    let rest: u128 = numerator % denominator;
    proof {
        assert(whole <= numerator) by (nonlinear_arith)
            requires
                whole == numerator / denominator,
                denominator > 0,
        ;
    }
    if 2 * rest < denominator || (2 * rest == denominator && whole % 2 == 0) {
        whole
    } else {
        proof {
            assert(whole < u128::MAX) by (nonlinear_arith)
                requires
                    whole == numerator / denominator,
                    numerator <= u128::MAX,
                    denominator > 1 || numerator < u128::MAX,
                    denominator > 0,
            ;
        }
        whole + 1
    }
}

/// How far apart binary64 numbers are near a whole number.
fn to_spacing(number: u128) -> (result: u128)
    ensures
        result == spacing(number as nat),
        1 <= result,
        result == 1 || result * DIGITS_FULL <= number,
    decreases number,
{
    if number < DIGITS_END {
        1
    } else {
        let half: u128 = to_spacing(number / 2);
        2 * half
    }
}

/// The power of two that a fraction has to be multiplied by until its digits
/// fill a binary64 number.
fn to_scaling(numerator: u128, denominator: u128) -> (result: u128)
    requires
        0 < numerator,
        0 < denominator <= 0x1_0000,
    ensures
        result == scaling(numerator as nat, denominator as nat),
        1 <= result,
        result == 1 || numerator * result < 2 * denominator * DIGITS_FULL,
    decreases 2 * denominator * DIGITS_FULL - numerator,
{
    if numerator >= denominator * DIGITS_FULL {
        1
    } else {
        let half: u128 = to_scaling(2 * numerator, denominator);
        proof {
            assert(numerator * (2 * half) == (2 * numerator) * half) by (nonlinear_arith);
            assert(half <= (2 * numerator) * half) by (nonlinear_arith)
                requires
                    numerator > 0,
            ;
        }
        2 * half
    }
}

/// What is nearest to a fraction is at most one more than it.
proof fn lemma_nearest(numerator: nat, denominator: nat)
    requires
        denominator > 0,
    ensures
        nearest(numerator, denominator) * denominator <= numerator + denominator,
{
    let whole = numerator / denominator;
    assert(whole * denominator <= numerator) by (nonlinear_arith)
        requires
            whole == numerator / denominator,
            denominator > 0,
    ;
    assert((whole + 1) * denominator == whole * denominator + denominator) by (nonlinear_arith);
}

/// The hundredths nearest to a number of thousandths, by way of binary64.
fn to_hundredths(thousandths: u64) -> (result: u64)
    requires
        thousandths > 0,
    ensures
        result == hundredths(thousandths as nat),
{
    let number: u128 = thousandths as u128;
    let apart: u128 = to_spacing(number);
    let rounded: u128 = to_nearest(number, apart);
    proof {
        lemma_nearest(number as nat, apart as nat);
        assert(rounded * apart <= number + apart);
        assert(number / apart >= 1) by (nonlinear_arith)
            requires
                apart >= 1,
                number >= 1,
                apart == 1 || apart * 4503599627370496 <= number,
        ;
        assert(rounded * apart > 0) by (nonlinear_arith)
            requires
                rounded > 0,
                apart > 0,
        ;
    }
    let taken: u128 = rounded * apart;
    let wide: u128 = to_spacing(taken / 1000);
    proof {
        assert(wide <= 16);
    }
    let unit: u128 = 1000 * wide;
    let scale: u128 = to_scaling(taken, unit);
    proof {
        assert(taken * scale <= 0x1000_0000_0000_0000_0000) by (nonlinear_arith)
            requires
                taken <= 0x1_0000_0000_0000_0000 + 0x1_0000_0000_0000_0000,
                unit <= 16000,
                scale == 1 || taken * scale < 2 * unit * 4503599627370496,
        ;
        assert(scale <= taken * scale) by (nonlinear_arith)
            requires
                taken > 0,
                scale > 0,
        ;
    }
    let digits: u128 = to_nearest(taken * scale, unit);
    proof {
        lemma_nearest((taken * scale) as nat, unit as nat);
        assert(digits <= 0x1000_0000_0000_0000_0001);
        assert(digits * wide * 100 <= 0x1_0000_0000_0000_0000_0000_0000) by (nonlinear_arith)
            requires
                digits <= 0x1000_0000_0000_0000_0001,
                wide <= 16,
        ;
        assert(digits * wide <= digits * wide * 100) by (nonlinear_arith);
    }
    let shown: u128 = to_nearest(digits * wide * 100, scale);
    proof {
        lemma_nearest((digits * wide * 100) as nat, scale as nat);
        assert(10 * shown <= taken + 1000 * wide + 10) by (nonlinear_arith)
            requires
                shown * scale <= digits * wide * 100 + scale,
                digits * unit <= taken * scale + unit,
                unit == 1000 * wide,
                scale >= 1,
        ;
    }
    shown as u64
}

/// A number of microseconds in the unit that does not spend its digits on a
/// leading zero.
///
/// The transport lands right on the boundary, so neither unit is the right one
/// to hard-code.
pub fn duration(micros: u64) -> (text: String)
    ensures
        text@ == duration_text(micros),
{
    if micros < 1000 {
        let mut text = text::to_decimal(micros);
        text.append("\u{b5}s");
        text
    } else {
        let shown: u64 = to_hundredths(micros);
        let mut text = text::to_decimal(shown / 100);
        text.append(".");
        let rest = text::to_zero_padded(shown % 100, 2);
        text.append(rest.as_str());
        text.append("ms");
        text
    }
}

/// A count with thousands separators.
pub open spec fn count_text(trips: nat) -> Seq<char>
    decreases trips,
{
    if trips < 1000 {
        text::decimal(trips)
    } else {
        count_text(trips / 1000) + ","@ + text::zero_padded(trips % 1000, 3)
    }
}

/// A count with thousands separators, which this one earns: it passes six
/// figures while you are still reading the table underneath it.
pub fn count(trips: u64) -> (text: String)
    ensures
        text@ == count_text(trips as nat),
    decreases trips,
{
    if trips < 1000 {
        text::to_decimal(trips)
    } else {
        let mut text = count(trips / 1000);
        text.append(",");
        let rest = text::to_zero_padded(trips % 1000, 3);
        text.append(rest.as_str());
        text
    }
}

/// The digits of a count, without its separators.
pub open spec fn without_separators(text: Seq<char>) -> Seq<char> {
    text.filter(|c: char| c != ',')
}

/// Separators change nothing of a count but how it reads: without them it is
/// the number in decimal.
pub proof fn law_separators_keep_the_number(trips: nat)
    ensures
        without_separators(count_text(trips)) == text::decimal(trips),
    decreases trips,
{
    let keeps = |c: char| c != ',';
    if trips < 1000 {
        text::lemma_decimal(trips);
        lemma_filter_keeps(text::decimal(trips), keeps);
    } else {
        law_separators_keep_the_number(trips / 1000);
        let front = count_text(trips / 1000);
        let back = text::zero_padded(trips % 1000, 3);
        reveal_strlit(",");
        text::lemma_decimal(trips % 1000);
        lemma_filter_keeps(back, keeps);
        Seq::filter_distributes_over_add(front + ","@, back, keeps);
        Seq::filter_distributes_over_add(front, ","@, keeps);
        assert(","@.filter(keeps) =~= seq![]) by {
            reveal(Seq::filter);
            assert(","@.drop_last() =~= seq![]);
            assert(Seq::<char>::empty().filter(keeps) =~= seq![]);
        }
        lemma_thousands(trips);
    }
}

/// Filtering keeps a text whole if it keeps each of its characters.
proof fn lemma_filter_keeps(text: Seq<char>, keeps: spec_fn(char) -> bool)
    requires
        forall|i: int| 0 <= i < text.len() ==> keeps(#[trigger] text[i]),
    ensures
        text.filter(keeps) == text,
    decreases text.len(),
{
    reveal(Seq::filter);
    if text.len() > 0 {
        lemma_filter_keeps(text.drop_last(), keeps);
        assert(keeps(text[text.len() - 1]));
        assert(text =~= text.drop_last().push(text.last()));
    }
}

/// The decimal of a number is that of its thousands, and then three digits.
proof fn lemma_thousands(number: nat)
    requires
        number >= 1000,
    ensures
        text::decimal(number) == text::decimal(number / 1000) + text::zero_padded(
            number % 1000,
            3,
        ),
{
    let rest = number % 1000;
    let tens = number / 10;
    let hundreds = number / 100;
    assert(hundreds / 10 == number / 1000 && tens / 10 == hundreds);
    assert(text::decimal(number) == text::decimal(tens).push(text::digit(number % 10)));
    assert(text::decimal(tens) == text::decimal(hundreds).push(text::digit(tens % 10)));
    assert(text::decimal(hundreds) == text::decimal(number / 1000).push(
        text::digit(hundreds % 10),
    ));
    let three = seq![
        text::digit(hundreds % 10),
        text::digit(tens % 10),
        text::digit(number % 10),
    ];
    text::lemma_decimal(rest);
    assert(rest % 10 == number % 10);
    assert(rest / 10 % 10 == tens % 10);
    assert(rest / 100 == hundreds % 10);
    reveal_with_fuel(text::decimal, 3);
    assert(text::zero_padded(rest, 3) =~= three);
    assert(text::decimal(number) =~= text::decimal(number / 1000) + three);
}

/// One labelled reading, in the gauges or in the breakdown.
#[derive(Debug)]
pub struct Part {
    /// What it is. Indented with spaces when it is a component of the line
    /// above.
    pub label: String,
    /// The reading, already in whichever unit reads without a leading zero.
    pub value: String,
    /// Why it is not the same as the line above it. Empty when it is obvious.
    pub note: String,
}

impl View for Part {
    type V = (Seq<char>, Seq<char>, Seq<char>);

    open spec fn view(&self) -> (Seq<char>, Seq<char>, Seq<char>) {
        (self.label@, self.value@, self.note@)
    }
}

/// The text of each reading.
pub open spec fn readings(parts: Seq<Part>) -> Seq<(Seq<char>, Seq<char>, Seq<char>)> {
    parts.map_values(|part: Part| part@)
}

/// One labelled reading.
fn part(label: &str, value: &str, note: &str) -> (part: Part)
    ensures
        part@ == (label@, value@, note@),
{
    Part { label: label.to_owned(), value: value.to_owned(), note: note.to_owned() }
}

/// Time the page spent on some number of round trips, split where the response
/// head arrives.
#[derive(Debug, Clone, Copy)]
pub struct Spell {
    /// Microseconds until the response head was back.
    pub head: u64,
    /// Microseconds after that, reading the body and parsing it.
    pub body: u64,
    /// How many round trips the two cover.
    pub of: u64,
}

/// What one round trip cost, to its head and from there on.
pub open spec fn each_of(spell: Spell) -> Option<(u64, u64)> {
    if spell.of > 0 {
        Some((spell.head / spell.of, spell.body / spell.of))
    } else {
        None
    }
}

impl Spell {
    /// What one round trip cost, or nothing before any have been timed.
    pub fn each(&self) -> (each: Option<(u64, u64)>)
        ensures
            each == each_of(*self),
    {
        if self.of > 0 {
            Some((self.head / self.of, self.body / self.of))
        } else {
            None
        }
    }
}

/// What the clock remembers between frames: what it has been asked for, and
/// what the page timed it at.
#[derive(Debug)]
pub struct Clockwork {
    /// When the clock started, which is the first time anything asked it.
    pub started: Option<u64>,
    /// How many frames the clock has been drawn for.
    pub frames: u64,
    /// What the page measured the transport doing flat out, once.
    pub burst: Option<Spell>,
    /// And what it costs from inside the loop that draws the clock.
    pub paced: Spell,
}

impl Default for Clockwork {
    fn default() -> (clockwork: Clockwork)
        ensures
            clockwork == (Clockwork {
                started: None,
                frames: 0,
                burst: None,
                paced: Spell { head: 0, body: 0, of: 0 },
            }),
    {
        Clockwork { started: None, frames: 0, burst: None, paced: Spell { head: 0, body: 0, of: 0 } }
    }
}

/// How many round trips a second the burst made. A burst that took no time is
/// taken to have taken a microsecond.
pub open spec fn rate(burst: Spell) -> nat {
    let trips = if burst.of * 1_000_000 > u64::MAX {
        u64::MAX as nat
    } else {
        (burst.of * 1_000_000) as nat
    };
    let spent = if burst.head + burst.body == 0 {
        1
    } else {
        (burst.head + burst.body) as nat
    };
    trips / spent
}

/// The origin a request arrived at, as the server saw it.
pub open spec fn origin_seen(
    target: (Option<Seq<char>>, Option<Seq<char>>, Option<Seq<char>>),
) -> Seq<char> {
    if target.0 is Some && target.1 is Some {
        target.0->0 + "://"@ + target.1->0
    } else {
        "somewhere"@
    }
}

/// The gauges beside the clock.
pub open spec fn gauges(
    clockwork: Clockwork,
    target: (Option<Seq<char>>, Option<Seq<char>>, Option<Seq<char>>),
) -> Seq<(Seq<char>, Seq<char>, Seq<char>)> {
    let frames = seq![("frames"@, count_text(clockwork.frames as nat), "one a frame, forever"@)];
    let burst = match clockwork.burst {
        Some(burst) => seq![
            ("flat out"@, count_text(rate(burst)) + "/s"@, "with nothing in its way"@),
        ],
        None => seq![],
    };
    frames + burst + seq![("origin"@, origin_seen(target), "as the server saw it"@)]
}

/// The burst taken apart.
pub open spec fn burst_lines(clockwork: Clockwork) -> Seq<(Seq<char>, Seq<char>, Seq<char>)> {
    match clockwork.burst {
        Some(burst) => match each_of(burst) {
            Some(each) => seq![
                (
                    "flat out"@,
                    duration_text((each.0 + each.1) as u64),
                    count_text(burst.of as nat) + " back-to-back, nothing else running"@,
                ),
                ("  to the head"@, duration_text(each.0), "request out, response head back"@),
                ("  body"@, duration_text(each.1), "read off the response and parsed"@),
            ],
            None => seq![],
        },
        None => seq![],
    }
}

/// The burst's cost of one round trip, if there was a burst.
pub open spec fn flat(clockwork: Clockwork) -> Option<(u64, u64)> {
    match clockwork.burst {
        Some(burst) => each_of(burst),
        None => None,
    }
}

/// What the round trips paced by frames cost, and how much of that is the
/// frame's and not the transport's.
pub open spec fn paced_lines(clockwork: Clockwork) -> Seq<(Seq<char>, Seq<char>, Seq<char>)> {
    match each_of(clockwork.paced) {
        Some(each) => {
            let whole = each.0 + each.1;
            let first = seq![
                (
                    "in a frame"@,
                    duration_text(whole as u64),
                    "the same request, timed from the loop that draws the clock"@,
                ),
            ];
            match flat(clockwork) {
                Some(flat) => first.push(
                    (
                        "  the frame's share"@,
                        duration_text(
                            if whole > flat.0 + flat.1 {
                                (whole - (flat.0 + flat.1)) as u64
                            } else {
                                0
                            },
                        ),
                        "style, layout and paint, which finish before a response is delivered"@,
                    ),
                ),
                None => first,
            }
        },
        None => seq![],
    }
}

/// Whether what a burst cost in all can be counted in 64 bits.
pub open spec fn burst_fits(clockwork: Clockwork) -> bool {
    clockwork.burst matches Some(burst) ==> burst.head + burst.body <= u64::MAX
}

/// Whether what one round trip of a spell cost can be counted in 64 bits.
pub open spec fn each_fits(spell: Spell) -> bool {
    each_of(spell) matches Some(each) ==> each.0 + each.1 <= u64::MAX
}

/// Whether what one round trip cost can be counted in 64 bits, in a burst and
/// paced by frames.
pub open spec fn trips_fit(clockwork: Clockwork) -> bool {
    &&& clockwork.burst matches Some(burst) ==> each_fits(burst)
    &&& each_fits(clockwork.paced)
}

/// The mean of a sum is at most the sum.
proof fn lemma_each(spell: Spell)
    ensures
        each_of(spell) matches Some(each) ==> each.0 <= spell.head && each.1 <= spell.body,
{
    if spell.of > 0 {
        assert(spell.head / spell.of <= spell.head) by (nonlinear_arith)
            requires
                spell.of > 0,
        ;
        assert(spell.body / spell.of <= spell.body) by (nonlinear_arith)
            requires
                spell.of > 0,
        ;
    }
}

/// The origin a request arrived at, as the server saw it.
fn origin(target: &Uri) -> (text: String)
    ensures
        text@ == origin_seen(target@),
{
    match (&target.scheme, &target.authority) {
        (Some(scheme), Some(authority)) => {
            let mut text = scheme.clone();
            text.append("://");
            text.append(authority.as_str());
            text
        },
        _ => "somewhere".to_owned(),
    }
}

/// The gauges beside the clock: what has been served, how fast, and over what.
pub fn stats(clockwork: &Clockwork, target: &Uri) -> (stats: Vec<Part>)
    requires
        burst_fits(*clockwork),
    ensures
        readings(stats@) == gauges(*clockwork, target@),
{
    let mut stats: Vec<Part> = Vec::new();
    let frames = count(clockwork.frames);
    stats.push(part("frames", frames.as_str(), "one a frame, forever"));
    if let Some(burst) = &clockwork.burst {
        let trips: u64 = match burst.of.checked_mul(1_000_000) {
            Some(trips) => trips,
            None => u64::MAX,
        };
        let spent: u64 = if burst.head + burst.body == 0 {
            1
        } else {
            burst.head + burst.body
        };
        let mut value = count(trips / spent);
        value.append("/s");
        stats.push(part("flat out", value.as_str(), "with nothing in its way"));
    }
    let origin = origin(target);
    stats.push(part("origin", origin.as_str(), "as the server saw it"));
    proof {
        assert(readings(stats@) =~= gauges(*clockwork, target@));
    }
    stats
}

/// A reading of a duration.
fn timed(label: &str, micros: u64, note: &str) -> (part: Part)
    ensures
        part@ == (label@, duration_text(micros), note@),
{
    let value = duration(micros);
    part(label, value.as_str(), note)
}

/// A round trip taken apart: what it costs with nothing in its way, what it
/// costs paced by frames, and the fact that the gap between the two belongs to
/// the browser rather than to the transport.
pub fn breakdown(clockwork: &Clockwork) -> (parts: Vec<Part>)
    requires
        trips_fit(*clockwork),
    ensures
        readings(parts@) == burst_lines(*clockwork) + paced_lines(*clockwork),
{
    let mut parts: Vec<Part> = Vec::new();
    let mut flat: Option<(u64, u64)> = None;
    if let Some(burst) = &clockwork.burst {
        if let Some((head, body)) = burst.each() {
            flat = Some((head, body));
            let mut note = count(burst.of);
            note.append(" back-to-back, nothing else running");
            parts.push(timed("flat out", head + body, note.as_str()));
            parts.push(timed("  to the head", head, "request out, response head back"));
            parts.push(timed("  body", body, "read off the response and parsed"));
        }
    }
    proof {
        assert(readings(parts@) =~= burst_lines(*clockwork));
    }
    if let Some((head, body)) = clockwork.paced.each() {
        let whole: u64 = head + body;
        parts.push(
            timed(
                "in a frame",
                whole,
                "the same request, timed from the loop that draws the clock",
            ),
        );
        if let Some((flat_head, flat_body)) = flat {
            let share: u64 = if whole > flat_head + flat_body {
                whole - (flat_head + flat_body)
            } else {
                0
            };
            parts.push(
                timed(
                    "  the frame's share",
                    share,
                    "style, layout and paint, which finish before a response is delivered",
                ),
            );
        }
    }
    proof {
        assert(readings(parts@) =~= burst_lines(*clockwork) + paced_lines(*clockwork));
    }
    parts
}

/// The server's clock, as the page reads it once an animation frame.
///
/// Strings and not numbers: the page paints these characters and formats
/// nothing, so a unit only ever changes here.
#[derive(Debug)]
pub struct Clock {
    /// `M:SS.mmm`, the part anyone reads.
    pub coarse: String,
    /// The three microsecond digits after it, which are only ever a blur.
    pub fine: String,
    /// The counters beside it: frames drawn, throughput, where.
    pub stats: Vec<Part>,
    /// A round trip taken apart.
    pub breakdown: Vec<Part>,
}

/// Whether a request belongs to the burst that measures the transport, and is
/// not a frame.
pub open spec fn is_measuring(query: Seq<(Seq<char>, Seq<char>)>) -> bool {
    route::lookup(query, "measuring"@) is Some
}

/// What the page timed, if the query says it: the microseconds `head` and
/// `body`, and `of` how many round trips they cover, which is one when absent
/// and at least one.
pub open spec fn timing(query: Seq<(Seq<char>, Seq<char>)>) -> Option<Spell> {
    let head = text::number(route::value_or_empty(query, "head"@));
    let body = text::number(route::value_or_empty(query, "body"@));
    let of = match text::number(route::value_or_empty(query, "of"@)) {
        Some(of) => if of == 0 {
            1
        } else {
            of
        },
        None => 1,
    };
    if head is Some && body is Some {
        Some(Spell { head: head->0, body: body->0, of })
    } else {
        None
    }
}

/// What the clock remembers after a request that arrived at `now`, in
/// nanoseconds: when it was first asked, one more frame unless this request
/// measures, and what the page timed - in place of an earlier burst, or on top
/// of what frames cost before.
pub open spec fn ticked(
    clockwork: Clockwork,
    query: Seq<(Seq<char>, Seq<char>)>,
    now: u64,
) -> Clockwork {
    let measuring = is_measuring(query);
    Clockwork {
        started: match clockwork.started {
            Some(started) => Some(started),
            None => Some(now),
        },
        frames: if measuring {
            clockwork.frames
        } else {
            (clockwork.frames + 1) as u64
        },
        burst: if measuring && timing(query) is Some {
            timing(query)
        } else {
            clockwork.burst
        },
        paced: match timing(query) {
            Some(spell) => if measuring {
                clockwork.paced
            } else {
                Spell {
                    head: (clockwork.paced.head + spell.head) as u64,
                    body: (clockwork.paced.body + spell.body) as u64,
                    of: (clockwork.paced.of + spell.of) as u64,
                }
            },
            None => clockwork.paced,
        },
    }
}

/// Whether what a request adds up to can be counted in 64 bits.
pub open spec fn tickable(clockwork: Clockwork, query: Seq<(Seq<char>, Seq<char>)>) -> bool {
    &&& !is_measuring(query) ==> clockwork.frames < u64::MAX
    &&& !is_measuring(query) && timing(query) is Some ==> {
        &&& clockwork.paced.head + timing(query)->0.head <= u64::MAX
        &&& clockwork.paced.body + timing(query)->0.body <= u64::MAX
        &&& clockwork.paced.of + timing(query)->0.of <= u64::MAX
    }
    &&& burst_fits(ticked(clockwork, query, 0))
    &&& trips_fit(ticked(clockwork, query, 0))
}

/// How long after another an instant is, and nothing if it is not after.
pub open spec fn since(started: u64, now: u64) -> nat {
    if now > started {
        (now - started) as nat
    } else {
        0
    }
}

/// A number of nanoseconds as minutes, seconds and milliseconds.
pub open spec fn coarse_text(elapsed: nat) -> Seq<char> {
    let seconds = elapsed / 1_000_000_000;
    text::decimal(seconds / 60) + ":"@ + text::zero_padded(seconds % 60, 2) + "."@
        + text::zero_padded(elapsed / 1_000_000 % 1000, 3)
}

/// The microseconds of a number of nanoseconds, from the milliseconds on.
pub open spec fn fine_text(elapsed: nat) -> Seq<char> {
    text::zero_padded(elapsed / 1000 % 1000, 3)
}

impl Clockwork {
    /// Whether what a request adds up to can be counted in 64 bits.
    pub fn can_tick(&self, query: &Query) -> (can: bool)
        ensures
            can == tickable(*self, query@),
    {
        let measuring = query.get("measuring").is_some();
        let spell = read_timing(query);
        if !measuring && self.frames == u64::MAX {
            return false;
        }
        let mut burst: Option<Spell> = self.burst;
        let mut paced: Spell = self.paced;
        if let Some(spell) = spell {
            if measuring {
                burst = Some(spell);
            } else {
                paced = match add_spell(paced, spell) {
                    Some(paced) => paced,
                    None => return false,
                };
            }
        }
        let ghost next = ticked(*self, query@, 0);
        proof {
            assert(next.burst == burst);
            assert(next.paced == paced);
        }
        if let Some(burst) = burst {
            if burst.head.checked_add(burst.body).is_none() {
                return false;
            }
            proof {
                lemma_each(burst);
            }
        }
        match paced.each() {
            Some((head, body)) => head.checked_add(body).is_some(),
            None => true,
        }
    }

    /// Renders the header, once per animation frame.
    ///
    /// One vocabulary, however the timing was taken: see [`timing`]. The page
    /// times the request before this one, because nothing can time itself. The
    /// paced and burst figures are kept apart because they disagree by a factor
    /// of five.
    ///
    /// `now` is the number of nanoseconds since a moment that the shell picks
    /// once.
    pub fn tick(&mut self, target: &Uri, query: &Query, now: u64) -> (clock: Clock)
        requires
            tickable(*old(self), query@),
        ensures
            *final(self) == ticked(*old(self), query@, now),
            clock.coarse@ == coarse_text(since(final(self).started->0, now)),
            clock.fine@ == fine_text(since(final(self).started->0, now)),
            readings(clock.stats@) == gauges(*final(self), target@),
            readings(clock.breakdown@) == burst_lines(*final(self)) + paced_lines(*final(self)),
    {
        let measuring = query.get("measuring").is_some();
        let started: u64 = match self.started {
            Some(started) => started,
            None => now,
        };
        self.started = Some(started);
        let elapsed: u64 = if now > started {
            now - started
        } else {
            0
        };
        if !measuring {
            self.frames = self.frames + 1;
        }
        if let Some(spell) = read_timing(query) {
            if measuring {
                self.burst = Some(spell);
            } else {
                self.paced = Spell {
                    head: self.paced.head + spell.head,
                    body: self.paced.body + spell.body,
                    of: self.paced.of + spell.of,
                };
            }
        }
        proof {
            assert(burst_fits(*self) && trips_fit(*self));
        }
        let seconds: u64 = elapsed / 1_000_000_000;
        let mut coarse = text::to_decimal(seconds / 60);
        coarse.append(":");
        let rest = text::to_zero_padded(seconds % 60, 2);
        coarse.append(rest.as_str());
        coarse.append(".");
        let millis = text::to_zero_padded(elapsed / 1_000_000 % 1000, 3);
        coarse.append(millis.as_str());
        let fine = text::to_zero_padded(elapsed / 1000 % 1000, 3);
        let stats = stats(self, target);
        let breakdown = breakdown(self);
        Clock { coarse, fine, stats, breakdown }
    }
}

/// What the page timed, if the query says it.
fn read_timing(query: &Query) -> (spell: Option<Spell>)
    ensures
        spell == timing(query@),
{
    let head: Option<u64> = text::to_number(param(query, "head"));
    let body: Option<u64> = text::to_number(param(query, "body"));
    match (head, body) {
        (Some(head), Some(body)) => {
            let of: u64 = match text::to_number(param(query, "of")) {
                Some(of) => if of == 0 {
                    1
                } else {
                    of
                },
                None => 1,
            };
            Some(Spell { head, body, of })
        },
        _ => None,
    }
}

/// Two spells as one, if 64 bits can count it.
fn add_spell(left: Spell, right: Spell) -> (sum: Option<Spell>)
    ensures
        match sum {
            Some(sum) => sum.head == left.head + right.head && sum.body == left.body + right.body
                && sum.of == left.of + right.of,
            None => left.head + right.head > u64::MAX || left.body + right.body > u64::MAX
                || left.of + right.of > u64::MAX,
        },
{
    match (
        left.head.checked_add(right.head),
        left.body.checked_add(right.body),
        left.of.checked_add(right.of),
    ) {
        (Some(head), Some(body), Some(of)) => Some(Spell { head, body, of }),
        _ => None,
    }
}

/// The clock starts the first time anything asks it, and no later request moves
/// that moment.
pub proof fn law_the_clock_starts_once(
    clockwork: Clockwork,
    first: Seq<(Seq<char>, Seq<char>)>,
    first_now: u64,
    second: Seq<(Seq<char>, Seq<char>)>,
    second_now: u64,
)
    ensures
        ticked(clockwork, first, first_now).started is Some,
        ticked(ticked(clockwork, first, first_now), second, second_now).started == ticked(
            clockwork,
            first,
            first_now,
        ).started,
{
}

/// A request that measures the transport is not a frame, and leaves what frames
/// cost as it was; a frame leaves the burst as it was.
pub proof fn law_measuring_and_frames_stay_apart(
    clockwork: Clockwork,
    query: Seq<(Seq<char>, Seq<char>)>,
    now: u64,
)
    requires
        tickable(clockwork, query),
    ensures
        is_measuring(query) ==> ticked(clockwork, query, now).frames == clockwork.frames && ticked(
            clockwork,
            query,
            now,
        ).paced == clockwork.paced,
        !is_measuring(query) ==> ticked(clockwork, query, now).frames == clockwork.frames + 1
            && ticked(clockwork, query, now).burst == clockwork.burst,
{
}

/// The coarse reading is minutes, two digits of seconds and three of
/// milliseconds, and the fine one is the three digits of microseconds behind
/// them: the time that has passed, taken apart and lost nothing of down to the
/// microsecond.
pub proof fn law_the_reading_is_the_time(
    minutes: nat,
    seconds: nat,
    millis: nat,
    micros: nat,
    nanos: nat,
)
    requires
        seconds < 60,
        millis < 1000,
        micros < 1000,
        nanos < 1000,
    ensures
        ({
            let elapsed = (((minutes * 60 + seconds) * 1000 + millis) * 1000 + micros) * 1000
                + nanos;
            &&& coarse_text(elapsed) == text::decimal(minutes) + ":"@ + text::zero_padded(
                seconds,
                2,
            ) + "."@ + text::zero_padded(millis, 3)
            &&& fine_text(elapsed) == text::zero_padded(micros, 3)
        }),
{
    let whole = minutes * 60 + seconds;
    let elapsed = ((whole * 1000 + millis) * 1000 + micros) * 1000 + nanos;
    assert(elapsed / 1_000_000_000 == whole);
    assert(whole / 60 == minutes && whole % 60 == seconds);
    assert(elapsed / 1_000_000 == whole * 1000 + millis);
    assert((whole * 1000 + millis) % 1000 == millis);
    assert(elapsed / 1000 == (whole * 1000 + millis) * 1000 + micros);
    assert(((whole * 1000 + millis) * 1000 + micros) % 1000 == micros);
}

/// A number padded to a width it does not exceed is that wide.
proof fn lemma_narrow(value: nat, width: nat)
    requires
        (width == 2 && value < 100) || (width == 3 && value < 1000),
    ensures
        text::zero_padded(value, width).len() == width,
{
    text::lemma_decimal(value);
}

/// The microseconds of a time, from its parts.
proof fn lemma_put_together(elapsed: nat)
    ensures
        elapsed / 1000 == ((elapsed / 1_000_000_000 / 60 * 60 + elapsed / 1_000_000_000 % 60) * 1000
            + elapsed / 1_000_000 % 1000) * 1000 + elapsed / 1000 % 1000,
{
    let micros = elapsed / 1000;
    let millis = elapsed / 1_000_000;
    let seconds = elapsed / 1_000_000_000;
    assert(micros / 1000 == millis);
    assert(millis / 1000 == seconds);
    assert(micros == millis * 1000 + micros % 1000);
    assert(millis == seconds * 1000 + millis % 1000);
    assert(seconds == seconds / 60 * 60 + seconds % 60);
}

/// Two readings are the same only if they are of the same microsecond.
pub proof fn law_a_reading_is_of_one_microsecond(one: nat, other: nat)
    requires
        coarse_text(one) == coarse_text(other),
        fine_text(one) == fine_text(other),
    ensures
        one / 1000 == other / 1000,
{
    lemma_apart(one);
    lemma_apart(other);
    lemma_put_together(one);
    lemma_put_together(other);
}

/// The parts of a reading stand at places that are counted from its end, and
/// each spells its number.
proof fn lemma_apart(elapsed: nat)
    ensures
        ({
            let shown = coarse_text(elapsed);
            let end = shown.len() as int;
            &&& end >= 7
            &&& text::digits_value(shown.take(end - 7)) == elapsed / 1_000_000_000 / 60
            &&& text::digits_value(shown.subrange(end - 6, end - 4)) == elapsed / 1_000_000_000 % 60
            &&& text::digits_value(shown.subrange(end - 3, end)) == elapsed / 1_000_000 % 1000
            &&& text::digits_value(fine_text(elapsed)) == elapsed / 1000 % 1000
        }),
{
    reveal_strlit(":");
    reveal_strlit(".");
    let minutes = elapsed / 1_000_000_000 / 60;
    let seconds = elapsed / 1_000_000_000 % 60;
    let millis = elapsed / 1_000_000 % 1000;
    let micros = elapsed / 1000 % 1000;
    lemma_narrow(seconds, 2);
    lemma_narrow(millis, 3);
    text::law_a_decimal_spells_its_number(minutes);
    text::law_padding_keeps_the_number(seconds, 2);
    text::law_padding_keeps_the_number(millis, 3);
    text::law_padding_keeps_the_number(micros, 3);
    let shown = coarse_text(elapsed);
    let end = shown.len() as int;
    assert(shown.take(end - 7) =~= text::decimal(minutes));
    assert(shown.subrange(end - 6, end - 4) =~= text::zero_padded(seconds, 2));
    assert(shown.subrange(end - 3, end) =~= text::zero_padded(millis, 3));
}

/// What a clock shows is the time from when it was first asked to when it is
/// asked now: nothing at first, and nothing where the instants run backwards.
pub proof fn law_the_clock_counts_from_the_first_request(
    clockwork: Clockwork,
    query: Seq<(Seq<char>, Seq<char>)>,
    first: u64,
    now: u64,
)
    ensures
        clockwork.started is None ==> ticked(clockwork, query, first).started == Some(first),
        clockwork.started is Some ==> ticked(clockwork, query, first).started
            == clockwork.started,
        first <= now ==> since(first, now) == now - first,
        now <= first ==> since(first, now) == 0,
{
}

/// A count is written in groups of three digits from its end, with a comma
/// between each two and nowhere else.
pub proof fn law_commas_stand_between_groups_of_three(trips: nat, i: int)
    requires
        0 <= i < count_text(trips).len(),
    ensures
        count_text(trips)[i] == ',' <==> (count_text(trips).len() - 1 - i) % 4 == 3,
        count_text(trips)[0] != ',',
    decreases trips,
{
    reveal_strlit(",");
    if trips < 1000 {
        text::lemma_decimal(trips);
        assert('0' <= count_text(trips)[i] <= '9');
        assert('0' <= count_text(trips)[0] <= '9');
    } else {
        let front = count_text(trips / 1000);
        let back = text::zero_padded(trips % 1000, 3);
        lemma_narrow(trips % 1000, 3);
        text::law_padding_keeps_the_number(trips % 1000, 3);
        lemma_count_is_written(trips / 1000);
        assert(count_text(trips).len() == front.len() + 4);
        law_commas_stand_between_groups_of_three(trips / 1000, 0);
        assert(count_text(trips)[0] == front[0]);
        if i < front.len() {
            law_commas_stand_between_groups_of_three(trips / 1000, i);
            assert(count_text(trips)[i] == front[i]);
        } else if i > front.len() {
            assert(count_text(trips)[i] == back[i - front.len() - 1]);
        }
    }
}

/// A count is written with something.
proof fn lemma_count_is_written(trips: nat)
    ensures
        count_text(trips).len() > 0,
{
    text::lemma_decimal(trips);
    text::lemma_decimal(trips % 1000);
}

/// The rate is the whole number of round trips that a second of such a burst
/// holds: as many as fit, and not one more.
pub proof fn law_the_rate_is_trips_a_second(burst: Spell)
    requires
        burst.head + burst.body > 0,
        burst.of * 1_000_000 <= u64::MAX,
    ensures
        rate(burst) * (burst.head + burst.body) <= burst.of * 1_000_000,
        burst.of * 1_000_000 < (rate(burst) + 1) * (burst.head + burst.body),
{
    let trips = (burst.of * 1_000_000) as nat;
    let spent = (burst.head + burst.body) as nat;
    vstd::arithmetic::div_mod::lemma_fundamental_div_mod(trips as int, spent as int);
    vstd::arithmetic::div_mod::lemma_mod_bound(trips as int, spent as int);
    let whole = trips / spent;
    assert(whole * spent == spent * whole) by (nonlinear_arith);
    assert((whole + 1) * spent == spent * whole + spent) by (nonlinear_arith);
}

/// What each round trip cost is what all of them cost, shared out evenly and
/// rounded down; a spell of none costs nothing to tell.
pub proof fn law_each_trip_costs_its_share(spell: Spell, head: u64, body: u64)
    ensures
        spell.of == 0 ==> each_of(spell) is None,
        spell.of > 0 && head * spell.of <= spell.head < (head + 1) * spell.of && body * spell.of
            <= spell.body < (body + 1) * spell.of ==> each_of(spell) == Some((head, body)),
{
    if spell.of > 0 && head * spell.of <= spell.head < (head + 1) * spell.of && body * spell.of
        <= spell.body < (body + 1) * spell.of {
        lemma_share(spell.head as int, spell.of as int, head as int);
        lemma_share(spell.body as int, spell.of as int, body as int);
    }
}

/// A quotient is the number that the division leaves less than one of.
proof fn lemma_share(all: int, of: int, each: int)
    requires
        of > 0,
        0 <= each,
        each * of <= all < (each + 1) * of,
    ensures
        all / of == each,
{
    assert((each + 1) * of == each * of + of) by (nonlinear_arith);
    vstd::arithmetic::div_mod::lemma_fundamental_div_mod_converse(all, of, each, all - each * of);
}

/// A burst is taken apart into what a round trip cost in all, up to its head and
/// from there on, with how many it was measured over; and there is nothing to
/// take apart where nothing was timed.
pub proof fn law_a_burst_is_told_in_three_lines(
    clockwork: Clockwork,
    burst: Spell,
    head: u64,
    body: u64,
)
    requires
        clockwork.burst == Some(burst),
        burst.of > 0,
        head * burst.of <= burst.head < (head + 1) * burst.of,
        body * burst.of <= burst.body < (body + 1) * burst.of,
        head + body <= u64::MAX,
    ensures
        burst_lines(clockwork) == seq![
            (
                "flat out"@,
                duration_text((head + body) as u64),
                count_text(burst.of as nat) + " back-to-back, nothing else running"@,
            ),
            ("  to the head"@, duration_text(head), "request out, response head back"@),
            ("  body"@, duration_text(body), "read off the response and parsed"@),
        ],
{
    law_each_trip_costs_its_share(burst, head, body);
}

/// Where nothing was timed there is nothing to tell.
pub proof fn law_nothing_timed_is_nothing_told(clockwork: Clockwork)
    ensures
        clockwork.burst is None || clockwork.burst->0.of == 0 ==> burst_lines(clockwork).len() == 0,
        clockwork.paced.of == 0 ==> paced_lines(clockwork).len() == 0,
{
}

/// What a round trip costs in a frame is told in one line, and in a second what
/// of it is the frame's: the difference to one with nothing in its way, and
/// nothing where that was not the cheaper. Without a burst to compare there is
/// no second line.
pub proof fn law_the_frame_has_the_difference(
    clockwork: Clockwork,
    head: u64,
    body: u64,
    flat_head: u64,
    flat_body: u64,
)
    requires
        clockwork.paced.of > 0,
        head * clockwork.paced.of <= clockwork.paced.head < (head + 1) * clockwork.paced.of,
        body * clockwork.paced.of <= clockwork.paced.body < (body + 1) * clockwork.paced.of,
        head + body <= u64::MAX,
    ensures
        paced_lines(clockwork).len() >= 1,
        paced_lines(clockwork)[0] == (
            "in a frame"@,
            duration_text((head + body) as u64),
            "the same request, timed from the loop that draws the clock"@,
        ),
        clockwork.burst is None || clockwork.burst->0.of == 0 ==> paced_lines(clockwork).len() == 1,
        clockwork.burst matches Some(burst) && burst.of > 0 && flat_head * burst.of <= burst.head
            < (flat_head + 1) * burst.of && flat_body * burst.of <= burst.body < (flat_body + 1)
            * burst.of ==> {
            &&& paced_lines(clockwork).len() == 2
            &&& paced_lines(clockwork)[1].0 == "  the frame's share"@
            &&& head + body >= flat_head + flat_body ==> paced_lines(clockwork)[1].1
                == duration_text((head + body - (flat_head + flat_body)) as u64)
            &&& head + body <= flat_head + flat_body ==> paced_lines(clockwork)[1].1
                == duration_text(0)
        },
{
    law_each_trip_costs_its_share(clockwork.paced, head, body);
    if let Some(burst) = clockwork.burst {
        law_each_trip_costs_its_share(burst, flat_head, flat_body);
    }
}

/// The gauges are the frames that were drawn, the rate of the burst if there was
/// one, and the origin the request arrived at.
pub proof fn law_the_gauges_show_what_was_counted(
    clockwork: Clockwork,
    scheme: Seq<char>,
    authority: Seq<char>,
    path: Option<Seq<char>>,
)
    ensures
        ({
            let shown = gauges(clockwork, (Some(scheme), Some(authority), path));
            &&& shown.len() == (if clockwork.burst is Some {
                3nat
            } else {
                2nat
            })
            &&& shown[0].0 == "frames"@
            &&& shown[0].1.filter(|c: char| c != ',') == text::decimal(clockwork.frames as nat)
            &&& shown.last().0 == "origin"@
            &&& shown.last().1 == scheme + "://"@ + authority
            &&& clockwork.burst matches Some(burst) ==> shown[1].0 == "flat out"@ && shown[1].1
                == count_text(rate(burst)) + "/s"@
        }),
{
    law_separators_keep_the_number(clockwork.frames as nat);
}

/// What the page timed is read from its query: two numbers of microseconds, and
/// how many round trips they cover, which is one where it does not say.
pub proof fn law_a_timing_is_read_from_the_query(
    query: Seq<(Seq<char>, Seq<char>)>,
    head: u64,
    body: u64,
    of: u64,
)
    requires
        route::lookup(query, "head"@) == Some(text::decimal(head as nat)),
        route::lookup(query, "body"@) == Some(text::decimal(body as nat)),
    ensures
        route::lookup(query, "of"@) is None ==> timing(query) == Some(Spell { head, body, of: 1 }),
        route::lookup(query, "of"@) == Some(text::decimal(of as nat)) && of > 0 ==> timing(query)
            == Some(Spell { head, body, of }),
        route::lookup(query, "of"@) == Some(text::decimal(0)) ==> timing(query) == Some(
            Spell { head, body, of: 1 },
        ),
{
    text::law_a_decimal_spells_its_number(head as nat);
    text::law_a_decimal_spells_its_number(body as nat);
    text::law_a_decimal_spells_its_number(of as nat);
    text::law_a_decimal_spells_its_number(0);
    assert(text::unsigned_digits(Seq::<char>::empty()).len() == 0);
}

/// A query that lacks either half of a timing has none, so nothing it says is
/// counted but the frame.
pub proof fn law_half_a_timing_is_none(
    clockwork: Clockwork,
    query: Seq<(Seq<char>, Seq<char>)>,
    now: u64,
)
    requires
        route::lookup(query, "head"@) is None || route::lookup(query, "body"@) is None,
    ensures
        timing(query) is None,
        ticked(clockwork, query, now).burst == clockwork.burst,
        ticked(clockwork, query, now).paced == clockwork.paced,
{
    assert(text::unsigned_digits(Seq::<char>::empty()).len() == 0);
}

/// A frame is counted, and what it timed goes on top of what frames cost before;
/// a request that measures is not counted, and what it timed stands in place of
/// the burst before.
pub proof fn law_a_frame_adds_and_a_burst_replaces(
    clockwork: Clockwork,
    query: Seq<(Seq<char>, Seq<char>)>,
    now: u64,
    spell: Spell,
)
    requires
        tickable(clockwork, query),
        timing(query) == Some(spell),
    ensures
        route::lookup(query, "measuring"@) is None ==> {
            let next = ticked(clockwork, query, now);
            &&& next.frames == clockwork.frames + 1
            &&& next.paced.head == clockwork.paced.head + spell.head
            &&& next.paced.body == clockwork.paced.body + spell.body
            &&& next.paced.of == clockwork.paced.of + spell.of
            &&& next.burst == clockwork.burst
        },
        route::lookup(query, "measuring"@) is Some ==> {
            let next = ticked(clockwork, query, now);
            &&& next.frames == clockwork.frames
            &&& next.paced == clockwork.paced
            &&& next.burst == Some(spell)
        },
{
}

/// Scaling goes on until the digits are full.
proof fn lemma_scaled(numerator: nat, denominator: nat)
    requires
        numerator > 0,
        denominator > 0,
    ensures
        scaling(numerator, denominator) >= 1,
        numerator * scaling(numerator, denominator) >= denominator * DIGITS_FULL,
    decreases 2 * denominator * DIGITS_FULL - numerator,
{
    if numerator < denominator * DIGITS_FULL {
        lemma_scaled(2 * numerator, denominator);
        let half = scaling(2 * numerator, denominator);
        assert(scaling(numerator, denominator) == 2 * half);
        assert(numerator * (2 * half) == (2 * numerator) * half) by (nonlinear_arith);
    } else {
        assert(scaling(numerator, denominator) == 1);
        assert(numerator * 1 == numerator) by (nonlinear_arith);
    }
}

/// What is shown in milliseconds is the time, to the nearest hundredth: off by
/// no more than half of one, which is five microseconds.
pub proof fn law_milliseconds_are_to_the_nearest_hundredth(micros: nat)
    requires
        0 < micros < 9007199254740992,
    ensures
        10 * hundredths(micros) <= micros + 5,
        micros <= 10 * hundredths(micros) + 5,
{
    assert(spacing(micros) == 1);
    law_nearest_is_nearest(micros, 1);
    let taken = nearest(micros, 1) * 1;
    assert(taken == micros);
    assert(spacing(micros / 1000) == 1);
    let scale = scaling(micros, 1000);
    lemma_scaled(micros, 1000);
    let digits = nearest(micros * scale, 1000);
    law_nearest_is_nearest(micros * scale, 1000);
    let shown = nearest(digits * 1 * 100, scale);
    law_nearest_is_nearest(digits * 100, scale);
    assert(hundredths(micros) == shown);
    assert(scale > 500) by (nonlinear_arith)
        requires
            micros < 9007199254740992,
            micros * scale >= 1000 * 4503599627370496,
    ;
    assert(10 * shown <= micros + 5) by (nonlinear_arith)
        requires
            2 * (shown * scale) <= 2 * (digits * 100) + scale,
            2 * (digits * 1000) <= 2 * (micros * scale) + 1000,
            scale > 500,
    ;
    assert(micros <= 10 * shown + 5) by (nonlinear_arith)
        requires
            2 * (digits * 100) <= 2 * (shown * scale) + scale,
            2 * (micros * scale) <= 2 * (digits * 1000) + 1000,
            scale > 500,
    ;
}

/// A duration under a millisecond is its microseconds, and a longer one is
/// milliseconds with two digits behind the point, as near to it as those can be.
pub proof fn law_a_duration_reads_as_the_time_it_is(micros: u64)
    ensures
        micros < 1000 ==> duration_text(micros) == text::decimal(micros as nat) + "\u{b5}s"@,
        1000 <= micros < 9007199254740992 ==> exists|whole: nat, part: nat|
            #![trigger text::decimal(whole), text::zero_padded(part, 2)]
            part < 100 && duration_text(micros) == text::decimal(whole) + "."@ + text::zero_padded(
                part,
                2,
            ) + "ms"@ && 10 * (100 * whole + part) <= micros + 5 && micros <= 10 * (100 * whole
                + part) + 5,
{
    if 1000 <= micros < 9007199254740992 {
        law_milliseconds_are_to_the_nearest_hundredth(micros as nat);
        let shown = hundredths(micros as nat);
        let whole = shown / 100;
        let part = shown % 100;
        assert(100 * whole + part == shown);
        assert(duration_text(micros) == text::decimal(whole) + "."@ + text::zero_padded(part, 2)
            + "ms"@);
    }
}

/// Nearest is nearest: no more than half a step away, and where two are as near,
/// the even one.
pub proof fn law_nearest_is_nearest(numerator: nat, denominator: nat)
    requires
        denominator > 0,
    ensures
        2 * (nearest(numerator, denominator) * denominator) <= 2 * numerator + denominator,
        2 * numerator <= 2 * (nearest(numerator, denominator) * denominator) + denominator,
        2 * (nearest(numerator, denominator) * denominator) == 2 * numerator + denominator || 2
            * numerator == 2 * (nearest(numerator, denominator) * denominator) + denominator
            ==> nearest(numerator, denominator) % 2 == 0,
{
    let whole = numerator / denominator;
    let rest = numerator % denominator;
    vstd::arithmetic::div_mod::lemma_fundamental_div_mod(numerator as int, denominator as int);
    vstd::arithmetic::div_mod::lemma_mod_bound(numerator as int, denominator as int);
    assert(whole * denominator == denominator * whole) by (nonlinear_arith);
    assert((whole + 1) * denominator == denominator * whole + denominator) by (nonlinear_arith);
}

/// A number that has more than fifty-three binary digits is known to fifty-three
/// of them, and every smaller one to the last.
pub proof fn law_a_number_keeps_its_first_digits(number: nat)
    ensures
        number < 9007199254740992 ==> spacing(number) == 1,
        number >= 9007199254740992 ==> 4503599627370496 * spacing(number) <= number
            < 9007199254740992 * spacing(number),
    decreases number,
{
    if number >= 9007199254740992 {
        law_a_number_keeps_its_first_digits(number / 2);
    }
}

/// A fraction that is less than its digits can hold is multiplied until they are
/// full, and no further.
pub proof fn law_a_fraction_fills_its_digits(numerator: nat, denominator: nat)
    requires
        0 < numerator,
        numerator < denominator * 9007199254740992,
    ensures
        denominator * 4503599627370496 <= numerator * scaling(numerator, denominator)
            < denominator * 9007199254740992,
    decreases 2 * denominator * DIGITS_FULL - numerator,
{
    if numerator < denominator * DIGITS_FULL {
        assert(2 * numerator < denominator * 9007199254740992) by (nonlinear_arith)
            requires
                numerator < denominator * 4503599627370496,
        ;
        law_a_fraction_fills_its_digits(2 * numerator, denominator);
        let half = scaling(2 * numerator, denominator);
        assert(scaling(numerator, denominator) == 2 * half);
        assert(numerator * (2 * half) == (2 * numerator) * half) by (nonlinear_arith);
    } else {
        assert(scaling(numerator, denominator) == 1);
        assert(numerator * 1 == numerator) by (nonlinear_arith);
    }
}

/// A burst that took no time is taken to have taken a microsecond, and trips that
/// are too many to count in microseconds are taken to be as many as can be.
pub proof fn law_a_rate_is_never_out_of_reach(burst: Spell)
    ensures
        burst.head + burst.body == 0 && burst.of * 1_000_000 <= u64::MAX ==> rate(burst) == burst.of
            * 1_000_000,
        burst.head + burst.body == 0 && burst.of * 1_000_000 > u64::MAX ==> rate(burst) == u64::MAX,
        burst.head + burst.body > 0 && burst.of * 1_000_000 > u64::MAX ==> rate(burst) * (burst.head
            + burst.body) <= u64::MAX < (rate(burst) + 1) * (burst.head + burst.body),
{
    let spent = if burst.head + burst.body == 0 {
        1
    } else {
        (burst.head + burst.body) as nat
    };
    let trips = if burst.of * 1_000_000 > u64::MAX {
        u64::MAX as nat
    } else {
        (burst.of * 1_000_000) as nat
    };
    vstd::arithmetic::div_mod::lemma_fundamental_div_mod(trips as int, spent as int);
    vstd::arithmetic::div_mod::lemma_mod_bound(trips as int, spent as int);
    let whole = trips / spent;
    assert(whole * spent == spent * whole) by (nonlinear_arith);
    assert((whole + 1) * spent == spent * whole + spent) by (nonlinear_arith);
}

/// A target without a scheme or an authority is somewhere, and what is said of
/// each gauge is the same whatever it shows.
pub proof fn law_a_target_is_at_least_somewhere(
    clockwork: Clockwork,
    target: (Option<Seq<char>>, Option<Seq<char>>, Option<Seq<char>>),
)
    ensures
        ({
            let shown = gauges(clockwork, target);
            &&& target.0 is None || target.1 is None ==> shown.last().1 == "somewhere"@
            &&& shown[0].2 == "one a frame, forever"@
            &&& shown.last().2 == "as the server saw it"@
            &&& clockwork.burst is Some ==> shown[1].2 == "with nothing in its way"@
        }),
{
}

} // verus!
