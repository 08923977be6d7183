use bandwidthmon::chart::{render_chart, render_grid};
use bandwidthmon::format::{format_bytes, format_total_bytes};
use bandwidthmon::parse::{parse_u64, parse_version_line};

#[test]
fn flat_series_fills_the_bottom_row() {
    let rows = render_chart(&vec![5, 5, 5], 3, 3);
    assert_eq!(rows.len(), 3);
    assert_eq!(rows[0], "    5.0 |   ");
    assert_eq!(rows[1], "    5.0 |   ");
    assert_eq!(rows[2], "    5.0 |\u{2588}\u{2588}\u{2588}");
}

#[test]
fn empty_series_renders_nothing() {
    let rows = render_chart(&Vec::new(), 10, 40);
    assert!(rows.is_empty());
}

#[test]
fn degenerate_grid_renders_nothing() {
    assert!(render_chart(&vec![1, 2, 3], 0, 10).is_empty());
    assert!(render_chart(&vec![1, 2, 3], 10, 0).is_empty());
}

#[test]
fn rendering_is_deterministic() {
    let series: Vec<u64> = vec![0, 140, 7, 9000, 9000, 3, 250000];
    let a = render_chart(&series, 7, 5);
    let b = render_chart(&series, 7, 5);
    assert_eq!(a, b);
}

#[test]
fn bars_scale_between_min_and_max() {
    let rows = render_chart(&vec![0, 1, 3], 4, 3);
    assert_eq!(rows.len(), 4);
    // Max label on top, min at the bottom, midpoint in the middle;
    // the middle value's bar tops out half way with an eighth-block
    // gradient glyph above it.
    assert_eq!(rows[0], "    3.0 |  \u{2588}");
    assert_eq!(rows[1], "        | \u{2582}\u{2588}");
    assert_eq!(rows[2], "    1.0 | \u{2588}\u{2588}");
    assert_eq!(rows[3], "    0.0 |\u{2588}\u{2588}\u{2588}");
}

#[test]
fn bare_grid_matches_the_labeled_chart_cells() {
    let grid = render_grid(&vec![0, 1, 3], 4, 3);
    assert_eq!(grid.len(), 4);
    assert_eq!(grid[0], vec![' ', ' ', '\u{2588}']);
    assert_eq!(grid[1], vec![' ', '\u{2582}', '\u{2588}']);
    assert_eq!(grid[2], vec![' ', '\u{2588}', '\u{2588}']);
    assert_eq!(grid[3], vec!['\u{2588}', '\u{2588}', '\u{2588}']);
    assert!(render_grid(&Vec::new(), 4, 3).is_empty());
}

#[test]
fn only_the_last_width_samples_are_plotted() {
    // With width 2 only the values 8 and 8 remain: a flat selection.
    let rows = render_chart(&vec![1000, 8, 8], 2, 2);
    assert_eq!(rows.len(), 2);
    assert_eq!(rows[0], "    8.0 |  ");
    assert_eq!(rows[1], "    8.0 |\u{2588}\u{2588}");
}

#[test]
fn short_series_leaves_trailing_columns_blank() {
    let rows = render_chart(&vec![2, 2], 2, 4);
    assert_eq!(rows[0], "    2.0 |    ");
    assert_eq!(rows[1], "    2.0 |\u{2588}\u{2588}  ");
}

#[test]
fn labels_use_k_and_m_suffixes() {
    let rows = render_chart(&vec![0, 2500], 2, 2);
    assert_eq!(rows[0], "   2.5K | \u{2588}");
    assert_eq!(rows[1], "    0.0 |\u{2588}\u{2588}");

    let rows = render_chart(&vec![0, 1_500_000], 2, 2);
    assert_eq!(rows[0], "   1.5M | \u{2588}");
    assert_eq!(rows[1], "    0.0 |\u{2588}\u{2588}");
}

#[test]
fn rates_format_in_1024_units() {
    assert_eq!(format_bytes(0), "   0.00 B/s");
    assert_eq!(format_bytes(512), " 512.00 B/s");
    assert_eq!(format_bytes(1023), "1023.00 B/s");
    assert_eq!(format_bytes(1024), "   1.00 KB/s");
    assert_eq!(format_bytes(1536), "   1.50 KB/s");
    assert_eq!(format_bytes(1048576), "   1.00 MB/s");
    assert_eq!(format_bytes(3 * 1024 * 1024 * 1024), "   3.00 GB/s");
    // Rates above the GB/s rung stay in GB/s.
    assert_eq!(format_bytes(2048 * 1024 * 1024 * 1024), "2048.00 GB/s");
}

#[test]
fn totals_format_up_to_terabytes() {
    assert_eq!(format_total_bytes(0), "0.00 B");
    assert_eq!(format_total_bytes(1024), "1.00 KB");
    assert_eq!(format_total_bytes(1048576), "1.00 MB");
    assert_eq!(format_total_bytes(5 * 1024 * 1024 * 1024), "5.00 GB");
    assert_eq!(format_total_bytes(2 * 1024 * 1024 * 1024 * 1024), "2.00 TB");
    assert_eq!(format_total_bytes(1024 + 512), "1.50 KB");
}

#[test]
fn parses_decimal_counters() {
    assert_eq!(parse_u64("0"), Some(0));
    assert_eq!(parse_u64("12345"), Some(12345));
    assert_eq!(parse_u64("18446744073709551615"), Some(u64::MAX));
    assert_eq!(parse_u64("18446744073709551616"), None);
    assert_eq!(parse_u64(""), None);
    assert_eq!(parse_u64("12a"), None);
    assert_eq!(parse_u64("-5"), None);
    assert_eq!(parse_u64(" 5"), None);
}

#[test]
fn parses_version_assignments() {
    assert_eq!(parse_version_line("version = 1.2.3"), Some(String::from("1.2.3")));
    assert_eq!(parse_version_line("  version=2.0 \r"), Some(String::from("2.0")));
    assert_eq!(parse_version_line("version ="), Some(String::from("")));
    assert_eq!(parse_version_line("version 1.2"), None);
    assert_eq!(parse_version_line("ver = 1"), None);
    assert_eq!(parse_version_line(""), None);
}
