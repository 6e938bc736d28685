use tauri_plugin_topcoat::report::{Answer, Probe, Report, Verdict, COUNT};

#[test]
fn test_every_probe_has_its_own_id() {
    let mut ids: Vec<String> = Probe::all()
        .iter()
        .map(|probe| serde_json::to_string(probe.id()).expect("a probe serializes"))
        .collect();
    ids.sort_unstable();

    let count = ids.len();
    ids.dedup();
    assert_eq!(ids.len(), count, "two probes share an id");
}

#[test]
fn test_a_verdict_is_spelled_the_same_way_by_both_routes() {
    for found in Verdict::all() {
        assert_eq!(
            serde_json::to_string(found.as_str()).expect("a verdict serializes"),
            format!("{:?}", found.as_str()),
            "{found:?} goes by two names"
        );
    }
    for (verdict, word) in [
        (Verdict::Yes, "yes"),
        (Verdict::No, "no"),
        (Verdict::Info, "info"),
        (Verdict::Unknown, "unknown"),
    ] {
        assert_eq!(verdict.as_str(), word);
    }
}

#[test]
fn test_no_probe_expects_to_go_unanswered() {
    for probe in Probe::all() {
        assert_ne!(
            probe.expected(),
            Verdict::Unknown,
            "{probe:?} expects nothing to answer it"
        );
    }
}

#[test]
fn test_the_table_marks_what_was_not_expected_and_nothing_else() {
    let mut report = Report::new();

    // A fresh report is mostly silent as `unknown` against expectations
    // that are not, so both kinds of row are already here.
    for row in &report.rows() {
        assert_eq!(
            row.expectation().starts_with('['),
            row.news(),
            "{:?} is marked as though it were the other one",
            row.id
        );
    }

    // One probe through both states, read back off the rendered table -
    // the brackets are no use if they stop at the edge of the struct.
    report.record(Probe::GzipDecoded, Answer::no("the body arrived gzipped"));
    assert!(
        !line(&report, Probe::GzipDecoded).contains('['),
        "the answer we expected is flagged as though it were news"
    );

    report.record(Probe::GzipDecoded, Answer::yes(""));
    assert!(
        line(&report, Probe::GzipDecoded).contains("[no]"),
        "a webview that stopped behaving the way it was measured says so \
         nowhere in the table"
    );
}

/// The line the rendered table gives one probe.
fn line(report: &Report, probe: Probe) -> String {
    report
        .render()
        .lines()
        .find(|line| line.starts_with(probe.label()))
        .expect("every probe has a line")
        .to_owned()
}

#[test]
fn test_an_answer_lands_on_its_own_row() {
    let mut report = Report::new();
    report.record(Probe::GzipDecoded, Answer::yes("decoded"));

    for row in &report.rows() {
        let expected = if row.id == Probe::GzipDecoded {
            Verdict::Yes
        } else {
            row.id.silence().verdict
        };
        assert_eq!(row.verdict, expected, "{:?} moved", row.id);
    }
}

#[test]
fn a_probe_is_found_by_its_id_and_by_nothing_else() {
    for (at, probe) in Probe::all().into_iter().enumerate() {
        assert_eq!(Probe::from_id(probe.id()), Some(probe));
        assert_eq!(probe.index(), at);
        assert!(!probe.id().contains('/'));
    }
    assert_eq!(Probe::all().len(), COUNT);
    assert_eq!(Probe::from_id(""), None);
    assert_eq!(Probe::from_id("Page-Origin"), None);
    assert_eq!(Probe::from_id("page-origin "), None);
}

#[test]
fn a_run_that_goes_as_expected_has_no_news() {
    let mut report = Report::default();
    for probe in Probe::all() {
        report.record(probe, Answer::new(probe.expected(), "measured  "));
    }
    let sheet = report.sheet();
    assert_eq!(sheet.tally, "13 yes, 8 no, 6 info");
    assert_eq!(sheet.news, "");
    assert_eq!(sheet.rows.len(), COUNT);

    let table = report.render();
    assert!(!table.contains('['));
    assert!(table.ends_with("measured\n\n13 yes, 8 no, 6 info\n"), "{table}");
    let mut lines = table.lines();
    assert_eq!(
        lines.next(),
        Some(
            "probe                                          result   expected   detail"
        )
    );
    assert_eq!(
        lines.next(),
        Some(
            "the origin the page runs on                    info     info       measured"
        )
    );
    assert_eq!(lines.count(), COUNT - 1 + 2);
}

#[test]
fn a_fresh_report_counts_its_silences() {
    let report = Report::new();
    let sheet = report.sheet();
    assert_eq!(sheet.tally, "1 yes, 7 no, 19 unknown");
    assert_eq!(sheet.news, "24 unexpected");
    assert!(report
        .render()
        .ends_with("\n\n1 yes, 7 no, 19 unknown, 24 unexpected - in [brackets] above\n"));
}

#[test]
fn the_table_has_a_line_for_each_probe() {
    let mut report = Report::new();
    report.record(Probe::UserAgent, Answer::info("Mozilla/5.0  "));
    let table = report.render();
    let lines: Vec<&str> = table.split('\n').collect();
    assert_eq!(lines.len(), COUNT + 4);
    assert_eq!(lines.len(), 31);
    assert_eq!(
        lines[0],
        "probe                                          result   expected   detail"
    );
    for (at, probe) in Probe::all().iter().enumerate() {
        assert!(lines[at + 1].starts_with(probe.label()), "{probe:?}");
    }
    for line in &lines {
        assert_eq!(line.trim_end(), *line);
    }
    assert_eq!(lines[28], "");
    assert_eq!(
        lines[29],
        "1 yes, 7 no, 1 info, 18 unknown, 23 unexpected - in [brackets] above"
    );
    assert_eq!(lines[30], "");

    let fresh = Report::new().render();
    assert_eq!(
        fresh.lines().last(),
        Some("1 yes, 7 no, 19 unknown, 24 unexpected - in [brackets] above")
    );
}

#[test]
fn a_line_ends_where_its_words_do() {
    let mut report = Report::new();
    report.record(Probe::LocalStorage, Answer::yes(" \u{3000}\t"));
    assert_eq!(
        line(&report, Probe::LocalStorage),
        "localStorage works                             yes      yes"
    );
    report.record(Probe::LocalStorage, Answer::info("\u{e9}t\u{e9} \n"));
    assert_eq!(
        line(&report, Probe::LocalStorage),
        "localStorage works                             info     [yes]      \u{e9}t\u{e9}"
    );
}

#[test]
fn the_last_answer_to_a_probe_stands() {
    let mut report = Report::new();
    report.record(Probe::IpcInvoke, Answer::no("first"));
    report.record(Probe::IpcInvoke, Answer::info("second"));
    let rows = report.rows();
    let row = &rows[Probe::IpcInvoke.index()];
    assert_eq!(row.verdict, Verdict::Info);
    assert_eq!(row.detail, "second");
    assert_eq!(row.label, "invoke reaches a Tauri command");
    let copy = Answer::no("kept").clone();
    assert_eq!(copy.detail, "kept");
}
