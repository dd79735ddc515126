use alacritty_terminal::{
    event::VoidListener,
    grid::{Dimensions, Scroll},
    index::{Column, Point},
    term::{cell::Flags, color::COUNT, Config, TermMode},
    vte::ansi::{Color, Processor},
    Term,
};
use winshell::terminal::{paint_cell, CellColor, GridCell, Size};

struct Grid(Size);

impl Dimensions for Grid {
    fn total_lines(&self) -> usize {
        self.0.rows as usize
    }
    fn screen_lines(&self) -> usize {
        self.0.rows as usize
    }
    fn columns(&self) -> usize {
        self.0.cols as usize
    }
}

fn terminal(rows: u16, cols: u16) -> Term<VoidListener> {
    let config = Config { scrolling_history: 100, ..Default::default() };
    Term::new(config, &Grid(Size { rows, cols }), VoidListener)
}

fn text(term: &Term<VoidListener>) -> String {
    term.bounds_to_string(
        Point::new(term.topmost_line(), Column(0)),
        Point::new(term.bottommost_line(), term.last_column()),
    )
}

fn cell_color(color: Color) -> CellColor {
    match color {
        Color::Spec(rgb) => {
            CellColor::Rgb((u32::from(rgb.r) << 16) | (u32::from(rgb.g) << 8) | u32::from(rgb.b))
        }
        Color::Indexed(index) => CellColor::Indexed(index),
        Color::Named(name) => CellColor::Named(name as u16),
    }
}

/// The painted cells of the visible grid: text and foreground color.
fn painted(term: &Term<VoidListener>) -> Vec<(String, u32)> {
    let content = term.renderable_content();
    let colors: Vec<Option<u32>> = (0..COUNT)
        .map(|i| {
            content.colors[i]
                .map(|rgb| (u32::from(rgb.r) << 16) | (u32::from(rgb.g) << 8) | u32::from(rgb.b))
        })
        .collect();
    let mut cells = Vec::new();
    for indexed in content.display_iter {
        let cell = indexed.cell;
        let grid_cell = GridCell {
            c: cell.c,
            zero_width: cell.zerowidth().map(<[char]>::to_vec).unwrap_or_default(),
            fg: cell_color(cell.fg),
            bg: cell_color(cell.bg),
            bold: cell.flags.contains(Flags::BOLD),
            dim: cell.flags.contains(Flags::DIM),
            inverse: cell.flags.contains(Flags::INVERSE),
            hidden: cell.flags.contains(Flags::HIDDEN),
            spacer: cell
                .flags
                .intersects(Flags::WIDE_CHAR_SPACER | Flags::LEADING_WIDE_CHAR_SPACER),
            decorated: cell.flags.intersects(Flags::ALL_UNDERLINES | Flags::STRIKEOUT),
            selected: false,
        };
        if let Some(paint) = paint_cell(&grid_cell, &colors) {
            cells.push((paint.text, paint.fg));
        }
    }
    cells
}

#[test]
fn ansi_truecolor_unicode_and_alternate_screen() {
    let mut term = terminal(5, 30);
    let mut parser: Processor = Processor::new();
    parser.advance(&mut term, "normal \x1b[38;2;1;2;3m中文\x1b[0m".as_bytes());
    assert!(text(&term).contains("中文"));
    assert!(painted(&term)
        .iter()
        .any(|(text, fg)| text == "中" && *fg == 0x010203));
    parser.advance(&mut term, b"\x1b[?1049h\x1b[Hfull screen");
    assert!(term.mode().contains(TermMode::ALT_SCREEN));
    parser.advance(&mut term, b"\x1b[?1049l");
    assert!(text(&term).contains("normal"));
}

#[test]
fn scrollback_and_resize_keep_content() {
    let mut term = terminal(3, 30);
    let mut parser: Processor = Processor::new();
    parser.advance(&mut term, b"one\r\ntwo\r\nthree\r\nfour\r\nfive");
    term.scroll_display(Scroll::Top);
    assert!(term.renderable_content().display_offset > 0);
    let (size, changed) = Size { rows: 3, cols: 30 }.resize(6, 40);
    assert!(changed);
    term.resize(Grid(size));
    assert!(text(&term).contains("one"));
    assert!(text(&term).contains("five"));
}
