use vyn::cli::{CliArgs, Commands, VERSION};
use vyn::progress::{BarLayout, ProgressBar, Theme};

#[test]
fn bar_layouts() {
    let bar = ProgressBar::new(20);
    assert_eq!(bar.width(), 20);
    assert!(bar.shows_percentage());
    assert_eq!(bar.layout(0), BarLayout { filled: 0, trail: 0, arrow: false, empty: 20 });
    assert_eq!(bar.layout(20), BarLayout { filled: 20, trail: 0, arrow: false, empty: 0 });
    assert_eq!(bar.layout(25), BarLayout { filled: 20, trail: 0, arrow: false, empty: 0 });
    assert_eq!(bar.layout(10), BarLayout { filled: 5, trail: 3, arrow: true, empty: 10 });
    assert_eq!(bar.layout(3), BarLayout { filled: 0, trail: 1, arrow: true, empty: 17 });
    assert_eq!(bar.layout(1), BarLayout { filled: 0, trail: 0, arrow: true, empty: 19 });
}

#[test]
fn layouts_span_the_width() {
    let bar = ProgressBar::new(30);
    for done in 2..30 {
        let l = bar.layout(done);
        assert!(l.arrow);
        assert_eq!(l.filled + l.trail + 2 + l.empty, 30);
    }
}

#[test]
fn theme_and_switches() {
    assert_eq!(Theme::PROGRESS_ARROW, ">>");
    assert_eq!(Theme::PHASE_COMPLETE, "✓");
    assert_eq!(VERSION, "0.12.0");
    let args = CliArgs {
        command: Commands::Version,
        no_progress: false,
        verbose: true,
        quiet: false,
        slow_mode: false,
    };
    assert!(args.shows_progress());
    assert!(args.shows_timing());
    let quiet = CliArgs { command: Commands::Run { file: "a.vyn".to_string() }, no_progress: false, verbose: true, quiet: true, slow_mode: false };
    assert!(!quiet.shows_progress());
    assert!(!quiet.shows_timing());
}
