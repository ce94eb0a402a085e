//! Tests of the terminal board's layout.
use klondike::cli::render::{help_screen, screen, Style};
use klondike::cli::session::{KeyInput, Session};
use klondike::GameConfig;

#[test]
fn help_overlay_lists_the_key_legend() {
    let h = help_screen();
    assert_eq!(h.len(), 14);
    assert_eq!(h[0].text, "Klondike — key legend");
    assert_eq!((h[0].x, h[0].y), (2, 1));
    assert_eq!(h[13].y, 14);
    let mut s = Session::new(1, GameConfig::default());
    s.handle_key(KeyInput::Char('?'));
    let shown = screen(&s, 0, 0);
    assert_eq!(shown.len(), 14);
}

#[test]
fn board_shows_status_headers_and_cells() {
    let s = Session::new(7, GameConfig::default());
    let segs = screen(&s, 83, 0);
    assert_eq!(segs[0].text, "♠ Klondike Solitaire ♥");
    assert_eq!(segs[0].style, Style::Title);
    assert_eq!(segs[1].text, "seed 7   moves 0   score 0   time 01:23");
    assert_eq!((segs[2].x, segs[2].y, segs[2].text.as_str()), (1, 3, "Stock"));
    assert_eq!((segs[3].x, segs[3].y, segs[3].text.as_str()), (7, 3, "Waste"));
    // Foundation labels, each padded to a cell, under [8] [9] [0] [-].
    assert_eq!(segs[4].text, "[8]  ");
    assert_eq!((segs[7].x, segs[7].text.as_str()), (44, "[-]  "));
    // The stock holds cards at the deal: a dim back.
    assert_eq!((segs[8].style, segs[8].text.as_str()), (Style::Dim, "###  "));
    // The waste is empty at the deal.
    assert_eq!((segs[9].x, segs[9].y, segs[9].text.as_str()), (7, 4, " ·   "));
    // Four empty foundations, then the tableau header.
    assert_eq!(segs[10].text, " ·   ");
    assert_eq!((segs[14].x, segs[14].y, segs[14].text.as_str()), (0, 6, " "));
    assert_eq!((segs[15].x, segs[15].text.as_str()), (1, "[1]  "));
    // Grid row 0: margin, then column 1's only card is face-up.
    assert_eq!((segs[22].x, segs[22].y), (0, 7));
    assert_ne!(segs[23].style, Style::Dim);
    // Column 7's first card is face-down.
    assert_eq!((segs[29].x, segs[29].style, segs[29].text.as_str()), (31, Style::Dim, "###  "));
    // Seven rows at the deal, then the hint line.
    let last = segs.last().unwrap();
    assert_eq!(last.style, Style::Hint);
    assert_eq!(last.y, 8 + 7 + 1);
}

#[test]
fn selection_is_highlighted_and_messages_shown() {
    let mut s = Session::new(7, GameConfig::default());
    s.handle_key(KeyInput::Char('3'));
    let segs = screen(&s, 0, 0);
    assert_eq!(segs[17].text, "[3]  ");
    assert_eq!(segs[17].style, Style::Selected);
    s.handle_key(KeyInput::Char('u'));
    let segs = screen(&s, 0, 0);
    let msg = &segs[segs.len() - 2];
    assert_eq!(msg.style, Style::Message);
    assert_eq!(msg.text, "Nothing to undo");
}
