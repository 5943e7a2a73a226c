use pinax::chart::{bar_row, chart_text, line_chart, plot_line, title_lines};
use pinax::ChartType;

fn row_text(r: &[char]) -> String {
    r.iter().collect()
}

#[test]
fn full_and_half_bars() {
    let full = bar_row("60", 40, "60.0");
    assert_eq!(full, format!("60     │ {} 60.0", "█".repeat(40)));
    let half = bar_row("30", 20, "30.0");
    assert_eq!(half, format!("30     │ {}{} 30.0", "█".repeat(20), " ".repeat(20)));
    assert_eq!(half.chars().filter(|c| *c == '█').count(), 20);
}

#[test]
fn chart_title_is_underlined() {
    assert_eq!(title_lines("Sales"), "Sales\n=====\n\n");
}

#[test]
fn rising_segment_uses_slashes() {
    let c = plot_line(&vec![2, 0], 3);
    assert_eq!(c.len(), 3);
    assert_eq!(row_text(&c[0]), format!("{}●{}", " ".repeat(12), " ".repeat(11)));
    assert_eq!(row_text(&c[1]), format!("{}//////{}", " ".repeat(6), " ".repeat(12)));
    assert_eq!(row_text(&c[2]), format!("●/////{}", " ".repeat(18)));
}

#[test]
fn falling_and_level_segments() {
    let c = plot_line(&vec![0, 1, 1], 2);
    assert_eq!(row_text(&c[0]), format!("●{}{}", "\\".repeat(11), " ".repeat(24)));
    assert_eq!(row_text(&c[1]), format!("{}●{}●{}", " ".repeat(12), "─".repeat(11), " ".repeat(11)));
}

#[test]
fn steep_segment_takes_more_steps() {
    let c = plot_line(&vec![14, 0], 15);
    let marks: usize = c.iter().map(|r| r.iter().filter(|ch| **ch == '/').count()).sum();
    assert_eq!(marks, 13);
    assert_eq!(c[0][12], '●');
    assert_eq!(c[14][0], '●');
}

#[test]
fn line_chart_has_labels_and_axis() {
    let ys = vec![2, 0];
    let yl = vec!["    20.0 ".to_string(), "    10.0 ".to_string(), "     0.0 ".to_string()];
    let labels = vec!["A".to_string(), "B".to_string()];
    let out = line_chart(&ys, 3, &yl, &labels);
    assert_eq!(out.len(), 5);
    assert_eq!(out[0], format!("    20.0  │ {}●{}", " ".repeat(12), " ".repeat(11)));
    assert!(out[1].starts_with("    10.0  │ "));
    assert!(out[2].starts_with("     0.0  │ ●"));
    assert_eq!(out[3], format!("{}└{}", " ".repeat(10), "─".repeat(24)));
    assert_eq!(out[4], format!("{}A{} B{}", " ".repeat(12), " ".repeat(10), " ".repeat(10)));
    assert_eq!(line_chart(&ys, 3, &yl, &labels), out);
}

#[test]
fn empty_line_chart_has_only_axis_and_labels() {
    let yl = vec![String::new(), String::new(), String::new()];
    let out = line_chart(&vec![], 0, &yl, &vec![]);
    assert_eq!(out, vec![format!("{}└", " ".repeat(10)), " ".repeat(12)]);
    assert_ne!(ChartType::Bar, ChartType::Line);
}

#[test]
fn chart_text_joins_title_and_lines() {
    let lines = vec!["a".to_string(), "bc".to_string()];
    assert_eq!(chart_text(Some("T"), &lines), "T\n=\n\na\nbc\n");
    assert_eq!(chart_text(None, &lines), "a\nbc\n");
    assert_eq!(chart_text(None, &vec![]), "");
}

#[test]
fn steep_segment_follows_the_straight_line() {
    let c = plot_line(&vec![0, 23], 24);
    let marks: Vec<(usize, usize)> = (0..24)
        .flat_map(|r| (0..24).map(move |x| (r, x)))
        .filter(|(r, x)| c[*r][*x] == '\\')
        .collect();
    assert_eq!(marks.len(), 22);
    assert!(marks.iter().all(|(_, x)| *x < 12));
    assert_eq!(c[0][0], '●');
    assert_eq!(c[23][12], '●');
    assert_eq!(c[1][0], '\\');
    assert_eq!(c[22][11], '\\');
}
