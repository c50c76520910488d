use core_text_runs::runs::{collect_runs, font_key_address_usable, RunRaw};
use core_text_runs::utf16::encode_utf16_units;

fn raw(location: i64, length: i64, name: &str, font_ptr: u64) -> RunRaw {
    RunRaw {
        utf16_location: location,
        utf16_length: length,
        postscript_name: String::from(name),
        font_ptr,
    }
}

#[test]
fn test_collect_runs_basic() {
    let text = "Hello, World!";
    let raws = vec![raw(0, 13, "Helvetica", 0x1000)];
    let runs = collect_runs(text, &raws);

    assert!(!runs.is_empty(), "Should have at least one run");

    for run in &runs {
        assert!(
            !run.text.is_empty() || run.length_utf16 == 0,
            "Run text should not be empty unless length is 0"
        );
        assert!(!run.font_name.is_empty(), "Font name should not be empty");
        assert!(run.font_ptr != 0, "Font pointer should not be zero");
    }
}

#[test]
fn test_collect_runs_unicode() {
    let text = "Hello 世界";
    let raws = vec![
        raw(0, 6, "Helvetica", 0x1000),
        raw(6, 2, "PingFangSC-Regular", 0x2000),
    ];
    let runs = collect_runs(text, &raws);

    assert!(!runs.is_empty(), "Should have at least one run");

    let total_utf16: usize = text.encode_utf16().count();
    let mut covered: usize = 0;

    for run in &runs {
        assert!(run.start_utf16 <= total_utf16, "Start UTF-16 index out of bounds");
        assert!(
            run.start_utf16 + run.length_utf16 <= total_utf16,
            "End UTF-16 index out of bounds"
        );
        covered += run.length_utf16;
    }

    assert_eq!(covered, total_utf16, "All UTF-16 code units should be covered by runs");
}

#[test]
fn test_split_and_shape_text_unicode() {
    let text = "Hello 世界";
    let raws = vec![
        raw(0, 6, "Helvetica", 0x1000),
        raw(6, 2, "PingFangSC-Regular", 0x2000),
    ];
    let runs = collect_runs(text, &raws);

    assert!(!runs.is_empty(), "Should have at least one run for Unicode text");

    let total_utf16: usize = text.encode_utf16().count();
    let mut covered: usize = 0;

    for run in &runs {
        assert!(run.start_utf16 <= total_utf16, "Start UTF-16 index out of bounds");
        assert!(
            run.start_utf16 + run.length_utf16 <= total_utf16,
            "End UTF-16 index out of bounds"
        );
        covered += run.length_utf16;
        assert!(!run.font_name.is_empty(), "Font name should not be empty");
    }

    assert_eq!(covered, total_utf16, "All UTF-16 code units should be covered by runs");
}

#[test]
fn empty_text_yields_no_runs() {
    let units = encode_utf16_units("");
    assert_eq!(units.len(), 0);
    let runs = collect_runs("", &Vec::new());
    assert_eq!(runs.len(), 0);
}

#[test]
fn ascii_text_yields_one_run_with_full_text() {
    let text = "Hello, World!";
    let raws = vec![raw(0, 13, "Helvetica", 0x1000)];
    let runs = collect_runs(text, &raws);
    assert_eq!(runs.len(), 1);
    assert_eq!(runs[0].text, text);
    assert_eq!(runs[0].start_utf16, 0);
    assert_eq!(runs[0].length_utf16, 13);
    assert_eq!(runs[0].font_name, "Helvetica");
}

#[test]
fn mixed_script_text_yields_runs_with_different_fonts() {
    let text = "Hello 世界";
    let raws = vec![
        raw(0, 6, "Helvetica", 0x1000),
        raw(6, 2, "PingFangSC-Regular", 0x2000),
    ];
    let runs = collect_runs(text, &raws);
    assert!(runs.len() >= 2);
    assert_ne!(runs[0].font_name, runs[1].font_name);
    assert_eq!(runs[0].text, "Hello ");
    assert_eq!(runs[1].text, "世界");
}

#[test]
fn tiling_raw_runs_partition_the_unit_range() {
    let text = "abc 世界 🌍";
    let total: usize = text.encode_utf16().count();
    let raws = vec![
        raw(0, 4, "Helvetica", 0x1000),
        raw(4, 3, "PingFangSC-Regular", 0x2000),
        raw(7, (total - 7) as i64, "AppleColorEmoji", 0x3000),
    ];
    let runs = collect_runs(text, &raws);
    assert_eq!(runs.len(), raws.len());
    assert_eq!(runs[0].start_utf16, 0);
    let mut next: usize = 0;
    for run in &runs {
        assert_eq!(run.start_utf16, next, "runs must be contiguous");
        next = run.start_utf16 + run.length_utf16;
    }
    assert_eq!(next, total, "runs must cover the whole range");
}

#[test]
fn invalid_raw_runs_are_dropped() {
    let text = "Hello";
    let raws = vec![
        raw(-1, 2, "Helvetica", 0x1000),
        raw(0, -2, "Helvetica", 0x1000),
        raw(3, 3, "Helvetica", 0x1000),
        raw(0, 2, "Helvetica", 0),
        raw(0, 2, "", 0x1000),
        raw(0, 5, "Helvetica", 0x1000),
    ];
    let runs = collect_runs(text, &raws);
    assert_eq!(runs.len(), 1);
    assert_eq!(runs[0].text, "Hello");
}

#[test]
fn run_text_round_trips_through_unit_slices() {
    let text = "ab🌍cd";
    let raws = vec![
        raw(0, 2, "Helvetica", 0x1000),
        raw(2, 2, "AppleColorEmoji", 0x2000),
        raw(4, 2, "Helvetica", 0x1000),
    ];
    let runs = collect_runs(text, &raws);
    assert_eq!(runs.len(), 3);
    assert_eq!(runs[0].text, "ab");
    assert_eq!(runs[1].text, "🌍");
    assert_eq!(runs[2].text, "cd");
}

#[test]
fn collecting_twice_yields_equal_run_lists() {
    let text = "Hello 世界";
    let raws = vec![
        raw(0, 6, "Helvetica", 0x1000),
        raw(6, 2, "PingFangSC-Regular", 0x2000),
    ];
    let first = collect_runs(text, &raws);
    let second = collect_runs(text, &raws);
    assert_eq!(first.len(), second.len());
    for (a, b) in first.iter().zip(second.iter()) {
        assert_eq!(a.start_utf16, b.start_utf16);
        assert_eq!(a.length_utf16, b.length_utf16);
        assert_eq!(a.font_name, b.font_name);
        assert_eq!(a.text, b.text);
    }
}

#[test]
fn multiline_text_runs_cover_all_lines() {
    let text = "Line 1\nLine 2\nLine 3";
    let total: usize = text.encode_utf16().count();
    assert_eq!(total, 20);
    let raws = vec![
        raw(0, 7, "Helvetica", 0x1000),
        raw(7, 7, "Helvetica", 0x1000),
        raw(14, 6, "Helvetica", 0x1000),
    ];
    let runs = collect_runs(text, &raws);
    assert_eq!(runs.len(), 3);
    assert_eq!(runs[0].text, "Line 1\n");
    assert_eq!(runs[1].text, "Line 2\n");
    assert_eq!(runs[2].text, "Line 3");
    let covered: usize = runs.iter().map(|r| r.length_utf16).sum();
    assert_eq!(covered, total);
}

#[test]
fn font_key_address_validation() {
    assert!(!font_key_address_usable(0));
    assert!(!font_key_address_usable(0xd));
    assert!(!font_key_address_usable(0xFFF));
    assert!(font_key_address_usable(0x1000));
    assert!(font_key_address_usable(0x7FFF_1234_5678));
}
