use gpui_web::font_table::FontId;
use gpui_web::line_layout::{
    needs_shaping, run_font_id, style_spans, FontDataKey, FontRun, ShapedLine, StyleSpan,
};

#[test]
fn empty_text_gives_empty_line() {
    assert!(!needs_shaping("", &Vec::new()));
    let line: ShapedLine<u32> = ShapedLine::new("");
    assert_eq!(line.len, 0);
    assert!(line.runs.is_empty());
}

#[test]
fn empty_runs_skip_shaping() {
    assert!(!needs_shaping("abc", &Vec::new()));
    assert!(needs_shaping("abc", &vec![FontRun { len: 3, font_id: FontId(0) }]));
}

#[test]
fn line_len_is_byte_length() {
    let line: ShapedLine<u32> = ShapedLine::new("héllo ✓");
    assert_eq!(line.len, "héllo ✓".len());
    assert_eq!(line.len, 10);
}

#[test]
fn adjacent_runs_of_one_font_merge() {
    let mut line: ShapedLine<u32> = ShapedLine::new("abcdef");
    line.push_run(FontId(0), vec![1, 2]);
    line.push_run(FontId(0), vec![3]);
    line.push_run(FontId(1), vec![4]);
    line.push_run(FontId(0), vec![5, 6]);
    assert_eq!(line.runs.len(), 3);
    assert_eq!(line.runs[0].font_id, FontId(0));
    assert_eq!(line.runs[0].glyphs, vec![1, 2, 3]);
    assert_eq!(line.runs[1].glyphs, vec![4]);
    assert_eq!(line.runs[2].font_id, FontId(0));
    for pair in line.runs.windows(2) {
        assert_ne!(pair[0].font_id, pair[1].font_id);
    }
}

#[test]
fn spans_alternate_size_nudge() {
    let runs = vec![
        FontRun { len: 3, font_id: FontId(0) },
        FontRun { len: 2, font_id: FontId(1) },
        FontRun { len: 4, font_id: FontId(0) },
    ];
    assert_eq!(
        style_spans(&runs),
        vec![
            StyleSpan { start: 0, end: 3, font_id: FontId(0), size_nudged: true },
            StyleSpan { start: 3, end: 5, font_id: FontId(1), size_nudged: false },
            StyleSpan { start: 5, end: 9, font_id: FontId(0), size_nudged: true },
        ]
    );
}

#[test]
fn shaper_font_matched_to_loaded_font() {
    let loaded = vec![
        FontDataKey { addr: 100, len: 50, index: 0 },
        FontDataKey { addr: 200, len: 70, index: 1 },
    ];
    let runs = vec![FontRun { len: 3, font_id: FontId(7) }];
    assert_eq!(run_font_id(FontDataKey { addr: 200, len: 70, index: 1 }, &runs, &loaded), FontId(1));
    assert_eq!(run_font_id(FontDataKey { addr: 200, len: 70, index: 0 }, &runs, &loaded), FontId(7));
    assert_eq!(run_font_id(FontDataKey { addr: 5, len: 5, index: 0 }, &Vec::new(), &loaded), FontId(0));
}
