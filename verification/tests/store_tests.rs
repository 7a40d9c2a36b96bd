use egui_logger::{Color, LogStore, Severity, SeverityFilter};

fn push_numbered(store: &mut LogStore, severity: Severity, count: usize) {
    let mut i = 0;
    while i < count {
        store.push(severity, format!("line {}", i));
        i += 1;
    }
}

#[test]
fn bounded_size_under_capacity() {
    let mut store = LogStore::new(10);
    push_numbered(&mut store, Severity::Info, 4);
    assert_eq!(store.len(), 4);
}

#[test]
fn bounded_size_at_capacity() {
    let mut store = LogStore::new(3);
    push_numbered(&mut store, Severity::Info, 5);
    assert_eq!(store.len(), 3);
}

#[test]
fn eviction_keeps_most_recent_in_order() {
    let mut store = LogStore::new(3);
    let mut i = 0;
    while i < 5 {
        store.push(Severity::Info, format!("{}", i));
        i += 1;
    }
    let records = store.filtered(SeverityFilter::Trace);
    assert_eq!(records.len(), 3);
    assert_eq!(records[0].text, "4");
    assert_eq!(records[1].text, "3");
    assert_eq!(records[2].text, "2");
}

#[test]
fn filter_selects_by_severity() {
    let mut store = LogStore::new(10);
    store.push(Severity::Trace, String::from("t"));
    store.push(Severity::Info, String::from("i"));
    store.push(Severity::Error, String::from("e"));
    let errors = store.filtered(SeverityFilter::Error);
    assert_eq!(errors.len(), 1);
    assert_eq!(errors[0].text, "e");
    let infos = store.filtered(SeverityFilter::Info);
    assert_eq!(infos.len(), 2);
    assert_eq!(infos[0].text, "e");
    assert_eq!(infos[1].text, "i");
    let none = store.filtered(SeverityFilter::Off);
    assert_eq!(none.len(), 0);
}

#[test]
fn permissive_threshold_admits_superset() {
    let mut store = LogStore::new(10);
    store.push(Severity::Trace, String::from("t"));
    store.push(Severity::Debug, String::from("d"));
    store.push(Severity::Info, String::from("i"));
    store.push(Severity::Warn, String::from("w"));
    store.push(Severity::Error, String::from("e"));
    let strict = store.filtered(SeverityFilter::Warn);
    let loose = store.filtered(SeverityFilter::Debug);
    let mut i = 0;
    while i < strict.len() {
        let mut found = false;
        let mut j = 0;
        while j < loose.len() {
            if loose[j].text == strict[i].text && loose[j].severity == strict[i].severity {
                found = true;
            }
            j += 1;
        }
        assert!(found);
        i += 1;
    }
    assert!(strict.len() <= loose.len());
}

#[test]
fn clear_scenario() {
    let mut store = LogStore::new(10);
    push_numbered(&mut store, Severity::Info, 5);
    assert_eq!(store.len(), 5);
    store.clear();
    assert_eq!(store.len(), 0);
    assert_eq!(store.snapshot(SeverityFilter::Trace).len(), 0);
    assert_eq!(store.snapshot(SeverityFilter::Off).len(), 0);
}

#[test]
fn interleaved_pushes_count_capped() {
    let mut store = LogStore::new(10);
    let mut k = 0;
    while k < 3 {
        let mut m = 0;
        while m < 4 {
            store.push(Severity::Info, format!("worker {} item {}", m, k));
            m += 1;
        }
        k += 1;
    }
    assert_eq!(store.len(), 10);
    let mut small = LogStore::new(100);
    push_numbered(&mut small, Severity::Info, 12);
    assert_eq!(small.len(), 12);
}

#[test]
fn snapshot_decodes_with_severity_base_color() {
    let mut store = LogStore::new(10);
    store.push(Severity::Warn, String::from("w"));
    let shown = store.snapshot(SeverityFilter::Trace);
    assert_eq!(shown.len(), 1);
    assert_eq!(shown[0].0, Severity::Warn);
    assert_eq!(shown[0].1.len(), 1);
    assert_eq!(shown[0].1[0].text, "w");
    assert_eq!(shown[0].1[0].color, Color::Yellow);
}

#[test]
fn snapshot_sgr_overrides_severity_color() {
    let mut store = LogStore::new(10);
    store.push(Severity::Error, format!("a{}[34mb", '\u{1b}'));
    let shown = store.snapshot(SeverityFilter::Error);
    assert_eq!(shown.len(), 1);
    let runs = &shown[0].1;
    assert_eq!(runs.len(), 2);
    assert_eq!(runs[0].text, "a");
    assert_eq!(runs[0].color, Color::Red);
    assert_eq!(runs[1].text, "b");
    assert_eq!(runs[1].color, Color::Blue);
}

#[test]
fn snapshot_counts_selected_records() {
    let mut store = LogStore::new(10);
    store.push(Severity::Debug, String::from("d"));
    store.push(Severity::Error, String::from("e"));
    store.push(Severity::Warn, String::from("w"));
    assert_eq!(store.snapshot(SeverityFilter::Warn).len(), 2);
    assert_eq!(store.snapshot(SeverityFilter::Trace).len(), 3);
    assert_eq!(store.len(), 3);
}

#[test]
fn export_joins_newest_first() {
    let mut store = LogStore::new(10);
    store.push(Severity::Info, String::from("first"));
    store.push(Severity::Info, String::from("second"));
    let text = store.export_plain_text(SeverityFilter::Trace);
    assert_eq!(text, "second \nfirst \n");
}

#[test]
fn export_respects_threshold() {
    let mut store = LogStore::new(10);
    store.push(Severity::Trace, String::from("noise"));
    store.push(Severity::Error, String::from("boom"));
    let text = store.export_plain_text(SeverityFilter::Error);
    assert_eq!(text, "boom \n");
    let empty = store.export_plain_text(SeverityFilter::Off);
    assert_eq!(empty, "");
}

#[test]
fn capacity_is_reported() {
    let store = LogStore::new(7);
    assert_eq!(store.max_len(), 7);
    assert_eq!(store.len(), 0);
}
