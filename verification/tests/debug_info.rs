use vyn::debug_info::DebugInfo;
use vyn::span::Span;

#[test]
fn test_rle_compression() {
    let mut debug_info = DebugInfo::new();
    let span1 = Span {
        line: 1,
        start_column: 0,
        end_column: 10,
    };
    let span2 = Span {
        line: 2,
        start_column: 5,
        end_column: 15,
    };

    // Add 5 consecutive bytes with same span
    for i in 0..5 {
        debug_info.add_span(i, span1);
    }

    // Should compress to 1 run
    assert_eq!(debug_info.num_runs(), 1);
    assert_eq!(debug_info.runs[0], (0, 5, span1));

    // Add 3 bytes with different span
    for i in 5..8 {
        debug_info.add_span(i, span2);
    }

    // Should have 2 runs now
    assert_eq!(debug_info.num_runs(), 2);
    assert_eq!(debug_info.runs[1], (5, 3, span2));

    // Test retrieval
    assert_eq!(debug_info.get_span(2), span1);
    assert_eq!(debug_info.get_span(6), span2);
}

#[test]
fn test_compression_ratio() {
    let mut debug_info = DebugInfo::new();
    let span = Span { line: 1, start_column: 0, end_column: 10 };
    for i in 0..100 {
        debug_info.add_span(i, span);
    }
    assert_eq!(debug_info.num_runs(), 1);
    assert_eq!(debug_info.runs[0], (0, 100, span));
}

#[test]
fn recorded_span_reads_back_and_others_stay() {
    let mut debug_info = DebugInfo::new();
    let a = Span { line: 1, start_column: 1, end_column: 4 };
    let b = Span { line: 2, start_column: 3, end_column: 9 };
    debug_info.add_span(0, a);
    debug_info.add_span(1, a);
    debug_info.add_span(2, b);
    assert_eq!(debug_info.get_span(2), b);
    assert_eq!(debug_info.get_span(0), a);
    assert_eq!(debug_info.get_span(1), a);
    assert_eq!(debug_info.num_runs(), 2);
}

#[test]
fn unrecorded_offset_has_zero_span() {
    let mut debug_info = DebugInfo::new();
    assert_eq!(debug_info.get_span(0), Span::default_span());
    debug_info.add_span(3, Span { line: 7, start_column: 1, end_column: 2 });
    assert_eq!(debug_info.get_span(2), Span { line: 0, start_column: 0, end_column: 0 });
    assert_eq!(debug_info.get_span(4), Span { line: 0, start_column: 0, end_column: 0 });
}

#[test]
fn gap_starts_a_new_run() {
    let mut debug_info = DebugInfo::new();
    let a = Span { line: 1, start_column: 1, end_column: 2 };
    debug_info.add_span(0, a);
    debug_info.add_span(2, a);
    assert_eq!(debug_info.num_runs(), 2);
    assert_eq!(debug_info.runs[1], (2, 1, a));
}
