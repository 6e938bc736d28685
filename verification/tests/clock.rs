use tauri_plugin_topcoat::clock::{breakdown, count, duration, stats, Clockwork, Part, Spell, CLOCK};
use tauri_plugin_topcoat::route::{param, query, Query};
use tauri_plugin_topcoat::uri::Uri;

/// What a duration reads as in floating point.
fn floating(micros: u64) -> String {
    format!("{:.2}ms", micros as f64 / 1_000.0)
}

#[test]
fn a_duration_is_in_the_unit_that_wastes_no_digit() {
    assert_eq!(duration(0), "0\u{b5}s");
    assert_eq!(duration(999), "999\u{b5}s");
    assert_eq!(duration(1_000), "1.00ms");
    assert_eq!(duration(1_004), "1.00ms");
    assert_eq!(duration(1_006), "1.01ms");
    assert_eq!(duration(12_340), "12.34ms");
    assert_eq!(duration(999_999), "1000.00ms");
}

#[test]
fn milliseconds_round_as_floating_point_does() {
    for micros in 1_000..200_000 {
        assert_eq!(duration(micros), floating(micros), "{micros}");
    }
    for micros in [
        1_005, 1_015, 1_125, 1_375, 1_625, 1_875, 2_125, 4_503_599_627_370_495,
        4_503_599_627_370_497, 9_007_199_254_740_991, 9_007_199_254_740_993,
        9_007_199_254_740_995, 9_007_199_254_740_993_000, 18_014_398_509_481_985,
        u64::MAX, u64::MAX - 1023, u64::MAX - 1024, u64::MAX - 1025,
        18_014_398_509_481_983_999, 18_014_398_509_481_984_001,
    ] {
        assert_eq!(duration(micros), floating(micros), "{micros}");
    }
    let mut seed: u64 = 0x9e37_79b9_7f4a_7c15;
    for round in 0..200_000u32 {
        seed ^= seed << 13;
        seed ^= seed >> 7;
        seed ^= seed << 17;
        let micros = seed >> (round % 54);
        if micros >= 1_000 {
            assert_eq!(duration(micros), floating(micros), "{micros}");
            let tie = micros / 10 * 10 + 5;
            assert_eq!(duration(tie), floating(tie), "{tie}");
        }
    }
}

#[test]
fn a_count_has_separators() {
    for (number, text) in [
        (0, "0"),
        (7, "7"),
        (999, "999"),
        (1_000, "1,000"),
        (1_001, "1,001"),
        (12_345, "12,345"),
        (1_000_000, "1,000,000"),
        (u64::MAX, "18,446,744,073,709,551,615"),
    ] {
        assert_eq!(count(number), text);
        assert_eq!(count(number).replace(',', ""), number.to_string());
    }
}

fn target(query: &str) -> Uri {
    Uri::parse(&format!("probe://localhost{CLOCK}?{query}")).expect("a target")
}

fn asked(words: &str) -> (Uri, Query) {
    let target = target(words);
    let query = query(&target);
    (target, query)
}

fn readings(parts: &[Part]) -> Vec<(&str, &str, &str)> {
    parts
        .iter()
        .map(|part| (part.label.as_str(), part.value.as_str(), part.note.as_str()))
        .collect()
}

#[test]
fn the_clock_reads_from_the_first_time_it_is_asked() {
    let mut clock = Clockwork::default();
    let (target, query) = asked("");
    let first = clock.tick(&target, &query, 5_000_000_000);
    assert_eq!((first.coarse.as_str(), first.fine.as_str()), ("0:00.000", "000"));
    let later = clock.tick(&target, &query, 5_000_000_000 + 62_034_567_899);
    assert_eq!((later.coarse.as_str(), later.fine.as_str()), ("1:02.034", "567"));
    let much = clock.tick(&target, &query, 5_000_000_000 + 3_661_000_000_000);
    assert_eq!(much.coarse, "61:01.000");
    let earlier = clock.tick(&target, &query, 1);
    assert_eq!(earlier.coarse, "0:00.000");
    assert_eq!(clock.frames, 4);
    assert_eq!(
        readings(&earlier.stats),
        [
            ("frames", "4", "one a frame, forever"),
            ("origin", "probe://localhost", "as the server saw it"),
        ]
    );
    assert!(earlier.breakdown.is_empty());
}

#[test]
fn a_burst_is_not_a_frame() {
    let mut clock = Clockwork::default();
    let (target, burst) = asked("measuring&head=20000&body=10000&of=100");
    let shown = clock.tick(&target, &burst, 0);
    assert_eq!(clock.frames, 0);
    assert_eq!(
        readings(&shown.stats),
        [
            ("frames", "0", "one a frame, forever"),
            ("flat out", "3,333/s", "with nothing in its way"),
            ("origin", "probe://localhost", "as the server saw it"),
        ]
    );
    assert_eq!(
        readings(&shown.breakdown),
        [
            ("flat out", "300\u{b5}s", "100 back-to-back, nothing else running"),
            ("  to the head", "200\u{b5}s", "request out, response head back"),
            ("  body", "100\u{b5}s", "read off the response and parsed"),
        ]
    );

    let (target, frame) = asked("head=900&body=350");
    clock.tick(&target, &frame, 0);
    let shown = clock.tick(&target, &frame, 0);
    assert_eq!(clock.frames, 2);
    assert_eq!((clock.paced.head, clock.paced.body, clock.paced.of), (1800, 700, 2));
    assert_eq!(
        readings(&shown.breakdown)[3..],
        [
            (
                "in a frame",
                "1.25ms",
                "the same request, timed from the loop that draws the clock"
            ),
            (
                "  the frame's share",
                "950\u{b5}s",
                "style, layout and paint, which finish before a response is delivered"
            ),
        ]
    );
}

#[test]
fn a_timing_needs_both_of_its_halves() {
    let mut clock = Clockwork::default();
    for words in ["head=1", "body=1", "head=x&body=1", "head=&body=1", "head=1&body=-1"] {
        let (target, query) = asked(words);
        clock.tick(&target, &query, 0);
        assert_eq!(clock.paced.of, 0, "{words}");
    }
    let (target, query) = asked("head=%2B4&body=2&of=0");
    clock.tick(&target, &query, 0);
    assert_eq!((clock.paced.head, clock.paced.body, clock.paced.of), (4, 2, 1));
    let (target, query) = asked("measuring=1&head=9&head=3&body=1&of=y");
    let shown = clock.tick(&target, &query, 0);
    assert_eq!(shown.breakdown[0].value, "4\u{b5}s");
    assert_eq!(
        shown.breakdown.last().expect("a share").value,
        "2\u{b5}s",
        "six in a frame, four flat out"
    );
}

#[test]
fn a_burst_is_taken_apart_by_what_each_trip_cost() {
    let clock = Clockwork {
        started: None,
        frames: 0,
        burst: Some(Spell { head: u64::MAX, body: u64::MAX, of: u64::MAX }),
        paced: Spell { head: 12, body: 6, of: 3 },
    };
    let parts = breakdown(&clock);
    let values: Vec<&str> = parts.iter().map(|part| part.value.as_str()).collect();
    assert_eq!(values, ["2\u{b5}s", "1\u{b5}s", "1\u{b5}s", "6\u{b5}s", "4\u{b5}s"]);
}

#[test]
fn a_frame_cheaper_than_the_burst_has_no_share() {
    let clock = Clockwork {
        started: None,
        frames: 1_234_567,
        burst: Some(Spell { head: 0, body: 0, of: u64::MAX }),
        paced: Spell { head: 0, body: 0, of: 3 },
    };
    let parts = breakdown(&clock);
    assert_eq!(parts.last().expect("a share").value, "0\u{b5}s");
    let relative = Uri::parse("/clock").expect("a target");
    assert_eq!(
        readings(&stats(&clock, &relative)),
        [
            ("frames", "1,234,567", "one a frame, forever"),
            (
                "flat out",
                "18,446,744,073,709,551,615/s",
                "with nothing in its way"
            ),
            ("origin", "somewhere", "as the server saw it"),
        ]
    );
}

#[test]
fn a_clock_says_what_it_cannot_count() {
    let clock = Clockwork::default();
    let max = u64::MAX;
    let can = |clock: &Clockwork, words: &str| clock.can_tick(&asked(words).1);
    assert!(can(&clock, ""));
    assert!(can(&clock, &format!("head={max}&body=0")));
    assert!(!can(&clock, &format!("head={max}&body=1")));
    assert!(can(&clock, &format!("head={max}&body={max}&of=2")));
    assert!(!can(&clock, &format!("measuring&head={max}&body={max}&of=2")));
    let full = Clockwork { frames: max, ..Clockwork::default() };
    assert!(!can(&full, ""));
    assert!(can(&full, "measuring"));
    let paced = Clockwork {
        paced: Spell { head: max, body: 0, of: 1 },
        ..Clockwork::default()
    };
    assert!(!can(&paced, "head=1&body=0"));
    assert!(can(&paced, "head=0&body=0"));
    assert!(!can(&paced, &format!("head=0&body=0&of={max}")));
}

#[test]
fn a_query_is_read_as_a_form() {
    let target = Uri::parse("/x?a=1&b=%41+c&a=2&&=&d").expect("a target");
    let query = query(&target);
    assert_eq!(param(&query, "a"), "2");
    assert_eq!(param(&query, "b"), "A c");
    assert_eq!(param(&query, "d"), "");
    assert_eq!(query.get("d"), Some(""));
    assert_eq!(query.get(""), Some(""));
    assert_eq!(param(&query, "e"), "");
    assert_eq!(query.get("e"), None);
}

#[test]
fn a_spell_of_nothing_costs_nothing() {
    assert_eq!(Spell { head: 1, body: 2, of: 0 }.each(), None);
    assert_eq!(Spell { head: 10, body: 5, of: 4 }.each(), Some((2, 1)));
}
