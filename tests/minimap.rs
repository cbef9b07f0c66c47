use code_minimap::{Span, braille, frames, line_extent, merge, row_spans, write_frame};

fn span(start: usize, end: usize) -> Span {
    Span { start, end }
}

/// Renders `input` at unit scale on both axes: line `i` is row slot `i`.
fn render(input: &str, padding: Option<usize>) -> String {
    let lines: Vec<String> = input.lines().map(|l| l.to_string()).collect();
    let keys: Vec<usize> = (0..lines.len()).collect();
    render_with_keys(&lines, &keys, padding)
}

fn render_with_keys(lines: &Vec<String>, keys: &Vec<usize>, padding: Option<usize>) -> String {
    let rows = row_spans(lines, keys);
    let mut out = String::new();
    for frame in frames(&rows) {
        out.push_str(&write_frame(&frame, padding));
    }
    out
}

fn strings(lines: &[&str]) -> Vec<String> {
    lines.iter().map(|l| l.to_string()).collect()
}

const BRAILLE_TABLE: [char; 256] = [
    '⠀', '⠁', '⠂', '⠃', '⠄', '⠅', '⠆', '⠇', '⡀', '⡁', '⡂', '⡃', '⡄', '⡅', '⡆', '⡇',
    '⠈', '⠉', '⠊', '⠋', '⠌', '⠍', '⠎', '⠏', '⡈', '⡉', '⡊', '⡋', '⡌', '⡍', '⡎', '⡏',
    '⠐', '⠑', '⠒', '⠓', '⠔', '⠕', '⠖', '⠗', '⡐', '⡑', '⡒', '⡓', '⡔', '⡕', '⡖', '⡗',
    '⠘', '⠙', '⠚', '⠛', '⠜', '⠝', '⠞', '⠟', '⡘', '⡙', '⡚', '⡛', '⡜', '⡝', '⡞', '⡟',
    '⠠', '⠡', '⠢', '⠣', '⠤', '⠥', '⠦', '⠧', '⡠', '⡡', '⡢', '⡣', '⡤', '⡥', '⡦', '⡧',
    '⠨', '⠩', '⠪', '⠫', '⠬', '⠭', '⠮', '⠯', '⡨', '⡩', '⡪', '⡫', '⡬', '⡭', '⡮', '⡯',
    '⠰', '⠱', '⠲', '⠳', '⠴', '⠵', '⠶', '⠷', '⡰', '⡱', '⡲', '⡳', '⡴', '⡵', '⡶', '⡷',
    '⠸', '⠹', '⠺', '⠻', '⠼', '⠽', '⠾', '⠿', '⡸', '⡹', '⡺', '⡻', '⡼', '⡽', '⡾', '⡿',
    '⢀', '⢁', '⢂', '⢃', '⢄', '⢅', '⢆', '⢇', '⣀', '⣁', '⣂', '⣃', '⣄', '⣅', '⣆', '⣇',
    '⢈', '⢉', '⢊', '⢋', '⢌', '⢍', '⢎', '⢏', '⣈', '⣉', '⣊', '⣋', '⣌', '⣍', '⣎', '⣏',
    '⢐', '⢑', '⢒', '⢓', '⢔', '⢕', '⢖', '⢗', '⣐', '⣑', '⣒', '⣓', '⣔', '⣕', '⣖', '⣗',
    '⢘', '⢙', '⢚', '⢛', '⢜', '⢝', '⢞', '⢟', '⣘', '⣙', '⣚', '⣛', '⣜', '⣝', '⣞', '⣟',
    '⢠', '⢡', '⢢', '⢣', '⢤', '⢥', '⢦', '⢧', '⣠', '⣡', '⣢', '⣣', '⣤', '⣥', '⣦', '⣧',
    '⢨', '⢩', '⢪', '⢫', '⢬', '⢭', '⢮', '⢯', '⣨', '⣩', '⣪', '⣫', '⣬', '⣭', '⣮', '⣯',
    '⢰', '⢱', '⢲', '⢳', '⢴', '⢵', '⢶', '⢷', '⣰', '⣱', '⣲', '⣳', '⣴', '⣵', '⣶', '⣷',
    '⢸', '⢹', '⢺', '⢻', '⢼', '⢽', '⢾', '⢿', '⣸', '⣹', '⣺', '⣻', '⣼', '⣽', '⣾', '⣿',
];

#[test]
fn empty_input_gives_empty_output() {
    assert_eq!("", render("", None));
}

#[test]
fn single_character() {
    assert_eq!("⠁\n", render("a", None));
    assert_eq!("⠁", render("a", None).trim());
}

#[test]
fn four_solid_lines() {
    assert_eq!("⣿⣿", render("aaaa\nbbbb\ncccc\ndddd", None).trim());
}

#[test]
fn four_solid_lines_of_odd_width() {
    assert_eq!("⣿⣿⡇\n", render("aaaaa\naaaaa\naaaaa\naaaaa", None));
}

#[test]
fn diagonal() {
    assert_eq!("⠙⢇", render("aaa\n aa\n  a\n   a", None).trim());
}

#[test]
fn scattered_content() {
    assert_eq!("⢐⡛⠿⠭", render("  a  b c\n d efg  \n    h  i\n jk", None).trim());
}

#[test]
fn one_output_line_per_four_input_lines() {
    let out = render("a\nb\nc\nd\ne\nf\ng\nh\ni", None);
    assert_eq!(3, out.lines().count());
    assert_eq!("⡇\n⡇\n⠁\n", out);
}

#[test]
fn output_line_count_follows_distinct_row_slots() {
    let lines = strings(&["a", "b", "c", "d", "e", "f", "g", "h", "i", "j"]);
    let keys: Vec<usize> = vec![0, 0, 1, 1, 2, 2, 3, 3, 4, 4];
    let rows = row_spans(&lines, &keys);
    assert_eq!(5, rows.len());
    assert_eq!(2, frames(&rows).len());
    assert_eq!(2, render_with_keys(&lines, &keys, None).lines().count());
}

#[test]
fn zero_vertical_scale_collapses_all_lines() {
    let lines = strings(&["a", "    bb", "c"]);
    let keys: Vec<usize> = vec![0, 0, 0];
    assert_eq!(vec![span(0, 6)], row_spans(&lines, &keys));
    assert_eq!("⠉⠉⠉\n", render_with_keys(&lines, &keys, None));
}

#[test]
fn equal_keys_only_merge_when_consecutive() {
    let lines = strings(&["a", "  b", "c"]);
    let keys: Vec<usize> = vec![5, 7, 5];
    assert_eq!(vec![span(0, 1), span(2, 3), span(0, 1)], row_spans(&lines, &keys));
}

#[test]
fn padding_extends_short_lines() {
    assert_eq!("⠁    \n", render("a", Some(5)));
}

#[test]
fn padding_never_truncates() {
    assert_eq!("⣿⣿\n", render("aaaa\nbbbb\ncccc\ndddd", Some(1)));
    assert_eq!("⣿⣿\n", render("aaaa\nbbbb\ncccc\ndddd", Some(2)));
}

#[test]
fn padding_of_an_empty_frame() {
    let frame = [span(0, 0); 4];
    assert_eq!("   \n", write_frame(&frame, Some(3)));
    assert_eq!("\n", write_frame(&frame, None));
}

#[test]
fn blank_lines_do_not_widen_a_row() {
    let with_blanks = strings(&["  ", "   a ", "\t"]);
    let without = strings(&["   a "]);
    assert_eq!(row_spans(&without, &vec![0]), row_spans(&with_blanks, &vec![0, 0, 0]));
    assert_eq!(vec![span(3, 4)], row_spans(&with_blanks, &vec![0, 0, 0]));
}

#[test]
fn blank_lines_give_empty_rows() {
    assert_eq!("⠒\n", render("   \nab\n\n  ", None));
    assert_eq!("\n", render("   \n\t", None));
}

#[test]
fn extent_of_lines() {
    assert_eq!(span(0, 0), line_extent(""));
    assert_eq!(span(0, 0), line_extent(" \t \u{3000}\u{a0}"));
    assert_eq!(span(2, 5), line_extent("  abc  "));
    assert_eq!(span(0, 1), line_extent("x"));
}

#[test]
fn extent_counts_characters_not_bytes() {
    assert_eq!(span(2, 4), line_extent("  éü  "));
    assert_eq!(span(0, 3), line_extent("é\u{2003}ü\u{2028}"));
}

#[test]
fn merge_of_spans() {
    assert_eq!(span(1, 9), merge(span(3, 9), span(1, 4)));
    assert_eq!(span(3, 9), merge(span(3, 9), span(0, 0)));
    assert_eq!(span(1, 4), merge(span(0, 0), span(1, 4)));
}

#[test]
fn frames_fill_the_last_batch_with_empty_rows() {
    let rows = vec![span(0, 1), span(1, 2), span(2, 3), span(3, 4), span(4, 5)];
    let fs = frames(&rows);
    assert_eq!(2, fs.len());
    assert_eq!([span(0, 1), span(1, 2), span(2, 3), span(3, 4)], fs[0]);
    assert_eq!([span(4, 5), span(0, 0), span(0, 0), span(0, 0)], fs[1]);
    assert!(frames(&vec![]).is_empty());
}

#[test]
fn braille_characters_match_the_table() {
    for m in 0..=255u8 {
        assert_eq!(BRAILLE_TABLE[m as usize], braille(m), "mask {}", m);
    }
}

#[test]
fn cell_mask_packs_rows_and_columns() {
    let frame = [span(1, 2), span(0, 1), span(0, 0), span(0, 2)];
    assert_eq!(braille(2 + 8 + 16 * (1 + 8)), write_frame(&frame, None).chars().next().unwrap());
}

#[test]
fn reversed_span_covers_nothing() {
    let frame = [span(3, 1), span(0, 0), span(0, 0), span(0, 0)];
    assert_eq!("⠀\n", write_frame(&frame, None));
}
