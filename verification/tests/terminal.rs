use winshell::terminal::{
    cursor_cell, dim, indexed_color, input_query, paint_cell, sanitize_title, CellColor, GridCell,
    Integration, PromptLine, RowCell, ShellMarks, Size, BACKGROUND,
};

fn row(text: &str, columns: usize) -> Vec<RowCell> {
    let mut cells: Vec<RowCell> = text
        .chars()
        .map(|c| RowCell { c, wide_spacer: false, zero_width: vec![] })
        .collect();
    while cells.len() < columns {
        cells.push(RowCell { c: ' ', wide_spacer: false, zero_width: vec![] });
    }
    cells
}

fn line(marks: &ShellMarks, text: &str, cursor_col: usize) -> PromptLine {
    PromptLine {
        at_prompt: marks.at_prompt,
        closed: false,
        alternate_screen: false,
        display_offset: 0,
        cursor_col,
        cells: row(text, 30),
    }
}

#[test]
fn indexed_palette_is_xterm_compatible() {
    assert_eq!(indexed_color(16), 0);
    assert_eq!(indexed_color(231), 0xffffff);
    assert_eq!(indexed_color(232), 0x080808);
    assert_eq!(
        indexed_color(alacritty_terminal::vte::ansi::NamedColor::Background as usize),
        BACKGROUND
    );
}

#[test]
fn fragmented_shell_markers_and_prompt_gating() {
    let mut marks = ShellMarks::new("C:/".into());
    let mut integration = Integration::new();
    for chunk in
        b"\x1b]7;file://localhost/C:/work\x1b\\\x1b]133;A;0\x07\x1b]133;B\x07".chunks(1)
    {
        integration.process(chunk, &mut marks);
    }
    assert_eq!(marks.cwd, "C:/work");
    assert!(marks.at_prompt);
    assert_eq!(
        input_query(&line(&marks, "❯ git st", 8)).as_deref(),
        Some("git st")
    );
    integration.process(b"\x1b]133;C\x07", &mut marks);
    assert!(input_query(&line(&marks, "❯ git st", 8)).is_none());
}

#[test]
fn split_output_is_read_as_whole() {
    let stream: &[u8] = b"text\x1b]133;A;127\x1b\\\x1b]133;B\x07more\x1b]7;file://localhost/D:/x\x07";
    let mut whole = ShellMarks::new("C:/".into());
    Integration::new().process(stream, &mut whole);
    for split in 0..stream.len() {
        let mut marks = ShellMarks::new("C:/".into());
        let mut integration = Integration::new();
        integration.process(&stream[..split], &mut marks);
        integration.process(&stream[split..], &mut marks);
        assert_eq!(marks.cwd, whole.cwd);
        assert_eq!(marks.at_prompt, whole.at_prompt);
        assert_eq!(marks.prompt_count, whole.prompt_count);
        assert_eq!(marks.last_exit, whole.last_exit);
    }
    assert_eq!(whole.cwd, "D:/x");
    assert_eq!(whole.prompt_count, 1);
    assert_eq!(whole.last_exit, Some(127));
    assert!(whole.at_prompt);
}

#[test]
fn exit_codes_and_rejected_directories() {
    let mut marks = ShellMarks::new("C:/".into());
    let mut integration = Integration::new();
    integration.process(b"\x1b]133;A;-2147483648\x07", &mut marks);
    assert_eq!(marks.last_exit, Some(i32::MIN));
    integration.process(b"\x1b]133;A;2147483648\x07", &mut marks);
    assert_eq!(marks.last_exit, None);
    integration.process(b"\x1b]133;A;+7\x07", &mut marks);
    assert_eq!(marks.last_exit, Some(7));
    integration.process(b"\x1b]133;A\x07", &mut marks);
    assert_eq!(marks.last_exit, None);
    assert_eq!(marks.prompt_count, 4);
    integration.process(b"\x1b]7;file://localhost/C:/a\tb\x07", &mut marks);
    assert_eq!(marks.cwd, "C:/");
    integration.process(b"\x1b]7;file://localhost/C:/\xffx\x07", &mut marks);
    assert_eq!(marks.cwd, "C:/\u{fffd}x");
}

#[test]
fn prompt_query_needs_the_integrated_prompt() {
    let mut marks = ShellMarks::new("C:/".into());
    marks.at_prompt = true;
    assert!(input_query(&line(&marks, "$ git st", 8)).is_none());
    assert!(input_query(&line(&marks, "❯ git st  x", 8)).is_none());
    assert_eq!(input_query(&line(&marks, "❯ ", 2)).as_deref(), Some(""));
    let mut scrolled = line(&marks, "❯ ls", 4);
    scrolled.display_offset = 3;
    assert!(input_query(&scrolled).is_none());
    let mut wide = line(&marks, "❯ 中", 4);
    wide.cells[3].wide_spacer = true;
    wide.cells[2].zero_width = vec!['\u{301}'];
    assert_eq!(input_query(&wide).as_deref(), Some("中\u{301}"));
}

#[test]
fn sizes_titles_and_cursor() {
    let size = Size::clamped(1, 5000);
    assert_eq!((size.rows, size.cols), (2, 1000));
    let (same, changed) = size.resize(0, 1001);
    assert_eq!(same, size);
    assert!(!changed);
    let (bigger, changed) = size.resize(40, 140);
    assert_eq!((bigger.rows, bigger.cols), (40, 140));
    assert!(changed);
    assert_eq!(Size::initial().selection_point(100, 3, 5), (27 - 5, 3));
    let long: String = std::iter::repeat('x').take(200).collect();
    assert_eq!(sanitize_title(&long).chars().count(), 160);
    assert_eq!(sanitize_title("a\u{7}b\u{9b}c"), "abc");
    assert_eq!(cursor_cell(true, -1, 3, 28, 4, false), Some((2, 4)));
    assert_eq!(cursor_cell(true, -4, 3, 28, 4, false), None);
    assert_eq!(cursor_cell(false, 0, 0, 28, 4, false), None);
    assert_eq!(cursor_cell(true, 0, 0, 28, 4, true), None);
}

fn cell(c: char, fg: CellColor, bg: CellColor) -> GridCell {
    GridCell {
        c,
        zero_width: vec![],
        fg,
        bg,
        bold: false,
        dim: false,
        inverse: false,
        hidden: false,
        spacer: false,
        decorated: false,
        selected: false,
    }
}

#[test]
fn cells_are_painted_with_resolved_colors() {
    let mut colors = vec![None; 269];
    let text = cell('中', CellColor::Rgb(0x010203), CellColor::Named(257));
    let painted = paint_cell(&text, &colors).unwrap();
    assert_eq!((painted.text.as_str(), painted.fg, painted.bg), ("中", 0x010203, BACKGROUND));
    assert!(paint_cell(&cell(' ', CellColor::Named(256), CellColor::Named(257)), &colors).is_none());
    let mut bold = cell('b', CellColor::Named(1), CellColor::Named(257));
    bold.bold = true;
    assert_eq!(paint_cell(&bold, &colors).unwrap().fg, 0xff96a7);
    let mut faint = cell('f', CellColor::Indexed(231), CellColor::Named(257));
    faint.dim = true;
    assert_eq!(paint_cell(&faint, &colors).unwrap().fg, dim(0xffffff));
    assert_eq!(dim(0xffffff), 0xbebebe);
    let mut inverse = cell('i', CellColor::Rgb(1), CellColor::Rgb(2));
    inverse.inverse = true;
    inverse.selected = true;
    let p = paint_cell(&inverse, &colors).unwrap();
    assert_eq!((p.fg, p.bg), (2, 0x344c5b));
    colors[257] = Some(0x123456);
    let blank = paint_cell(&cell(' ', CellColor::Named(256), CellColor::Named(257)), &colors).unwrap();
    assert_eq!(blank.bg, 0x123456);
    let mut hidden = cell('h', CellColor::Named(256), CellColor::Rgb(5));
    hidden.hidden = true;
    assert_eq!(paint_cell(&hidden, &colors).unwrap().text, "");
}

#[test]
fn no_query_outside_the_live_prompt() {
    let mut l = PromptLine {
        at_prompt: true,
        closed: false,
        alternate_screen: true,
        display_offset: 0,
        cursor_col: 8,
        cells: row("❯ git st", 30),
    };
    assert!(input_query(&l).is_none());
    l.alternate_screen = false;
    l.display_offset = 3;
    assert!(input_query(&l).is_none());
    l.display_offset = 0;
    l.closed = true;
    assert!(input_query(&l).is_none());
    l.closed = false;
    assert_eq!(input_query(&l).as_deref(), Some("git st"));
    l.cells = row("$ git st", 30);
    assert!(input_query(&l).is_none());
}

#[test]
fn reported_directories_with_control_characters_are_ignored() {
    let mut marks = ShellMarks::new("C:/home".into());
    let mut integration = Integration::new();
    integration.process(b"\x1b]7;file://localhost/C:/evil\x08dir\x07", &mut marks);
    assert_eq!(marks.cwd, "C:/home");
    let mut long = b"\x1b]7;file://localhost/".to_vec();
    long.extend(std::iter::repeat(b'a').take(10_000));
    long.push(7);
    integration.process(&long, &mut marks);
    assert_eq!(marks.cwd, "C:/home");
    integration.process(b"\x1b]7;file://localhost/D:/ok\x07", &mut marks);
    assert_eq!(marks.cwd, "D:/ok");
}
