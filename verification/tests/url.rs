use smooth_terminal::terminal::cell::Cell;
use smooth_terminal::terminal::grid::TerminalGrid;
use smooth_terminal::terminal::url::{
    cells_contain, detect_urls, is_url_char, starts_with_at, url_under,
};

fn make_row(s: &str) -> Vec<Cell> {
    s.chars().map(|ch| Cell::new(ch, Default::default())).collect()
}

#[test]
fn detect_https_url() {
    let row = make_row("visit https://example.com/path end");
    let urls = detect_urls(&row);
    assert_eq!(urls.len(), 1);
    assert_eq!(urls[0].2, "https://example.com/path");
}

#[test]
fn detect_http_url() {
    let row = make_row("http://foo.bar/baz");
    let urls = detect_urls(&row);
    assert_eq!(urls.len(), 1);
    assert_eq!(urls[0].2, "http://foo.bar/baz");
}

#[test]
fn detect_www_prefix() {
    let row = make_row("go to www.example.com now");
    let urls = detect_urls(&row);
    assert_eq!(urls.len(), 1);
    assert!(urls[0].2.starts_with("https://www.example.com"));
}

#[test]
fn trailing_punctuation_stripped() {
    let row = make_row("see https://example.com/page.");
    let urls = detect_urls(&row);
    assert_eq!(urls[0].2, "https://example.com/page");
}

#[test]
fn balanced_parens_kept() {
    let row = make_row("https://en.wikipedia.org/wiki/Rust_(programming_language)");
    let urls = detect_urls(&row);
    assert_eq!(urls[0].2, "https://en.wikipedia.org/wiki/Rust_(programming_language)");
}

#[test]
fn unbalanced_paren_stripped() {
    let row = make_row("(https://example.com/path)");
    let urls = detect_urls(&row);
    // The opening paren is not part of the URL, the closing one should be stripped
    assert_eq!(urls[0].2, "https://example.com/path");
}

#[test]
fn prefix_only_rejected() {
    let row = make_row("https:// nothing");
    let urls = detect_urls(&row);
    assert!(urls.is_empty());
}

#[test]
fn must_have_dot_after_scheme() {
    let row = make_row("https://localhost/path");
    let urls = detect_urls(&row);
    assert!(urls.is_empty());
}

#[test]
fn empty_row_no_urls() {
    let row = make_row("");
    let urls = detect_urls(&row);
    assert!(urls.is_empty());
}

#[test]
fn multiple_urls_in_one_row() {
    let row = make_row("https://a.com https://b.org/x");
    let urls = detect_urls(&row);
    assert_eq!(urls.len(), 2);
    assert_eq!(urls[0].2, "https://a.com");
    assert_eq!(urls[1].2, "https://b.org/x");
}

#[test]
fn column_positions_correct() {
    let row = make_row("XX https://x.com YY");
    let urls = detect_urls(&row);
    assert_eq!(urls[0].0, 3);  // start col
    assert_eq!(urls[0].1, 16); // end col (exclusive) — "https://x.com" is 13 chars
}

// ── Further cases ───────────────────────────────────────────────────

#[test]
fn normalized_url_is_found_verbatim() {
    let url = "https://example.com/a/b?c=d#e";
    let row = make_row(url);
    let urls = detect_urls(&row);
    assert_eq!(urls, vec![(0, url.chars().count(), url.to_string())]);
    let again = detect_urls(&make_row(&urls[0].2));
    assert_eq!(again, urls);
}

#[test]
fn www_url_gets_scheme_and_keeps_columns() {
    let row = make_row("go to www.example.com now");
    let urls = detect_urls(&row);
    assert_eq!(urls, vec![(6, 21, "https://www.example.com".to_string())]);
}

#[test]
fn all_trailing_punctuation_is_cut() {
    for tail in [".", ",", ";", ":", "!", "?", "'", "\"", "?!.", ")."] {
        let row = make_row(&format!("https://a.io/x{}", tail));
        let urls = detect_urls(&row);
        assert_eq!(urls, vec![(0, 14, "https://a.io/x".to_string())]);
    }
}

#[test]
fn www_without_second_dot_is_rejected() {
    assert!(detect_urls(&make_row("www.a")).is_empty());
    assert!(detect_urls(&make_row("www.")).is_empty());
    assert_eq!(detect_urls(&make_row("www.a.b")), vec![(0, 7, "https://www.a.b".to_string())]);
}

#[test]
fn search_goes_on_behind_a_rejected_span() {
    let row = make_row("http://localhost http://a.b");
    let urls = detect_urls(&row);
    assert_eq!(urls, vec![(17, 27, "http://a.b".to_string())]);
}

#[test]
fn non_ascii_cells_end_a_url() {
    let row = make_row("\u{4e2d}https://a.b/c\u{6587}x");
    let urls = detect_urls(&row);
    assert_eq!(urls, vec![(1, 14, "https://a.b/c".to_string())]);
}

#[test]
fn url_helpers() {
    let row = make_row("ab(www.c");
    assert!(starts_with_at(&row, 3, "www."));
    assert!(!starts_with_at(&row, 4, "www."));
    assert!(!starts_with_at(&row, 6, "www."));
    assert!(starts_with_at(&row, 8, ""));
    assert!(!starts_with_at(&row, 9, ""));
    assert!(cells_contain(&row, 0, 3, '('));
    assert!(!cells_contain(&row, 0, 2, '('));
    assert!(!cells_contain(&row, 3, 3, 'w'));
    for ch in "AZaz09-._~:/?#[]@!$&'()*+,;=%".chars() {
        assert!(is_url_char(ch));
    }
    for ch in " \"<>\\^`{|}\u{e9}\0".chars() {
        assert!(!is_url_char(ch));
    }
}

#[test]
fn url_under_a_column() {
    let row = make_row("x https://a.com y https://b.org/z");
    assert_eq!(url_under(&row, 0), None);
    assert_eq!(url_under(&row, 2), Some((2, 15, "https://a.com".to_string())));
    assert_eq!(url_under(&row, 14), Some((2, 15, "https://a.com".to_string())));
    assert_eq!(url_under(&row, 15), None);
    assert_eq!(url_under(&row, 20), Some((18, 33, "https://b.org/z".to_string())));
    assert_eq!(url_under(&row, 99), None);
}

#[test]
fn url_at_absolute_row() {
    let mut grid = TerminalGrid::new(20, 2);
    for (i, ch) in "see http://a.bc/d ok".chars().enumerate() {
        grid.set_cell(i, 0, ch);
    }
    grid.scroll_up_region(1);
    for (i, ch) in "www.x.yz".chars().enumerate() {
        grid.set_cell(i, 1, ch);
    }
    assert_eq!(grid.url_at(0, 5), Some((4, 17, "http://a.bc/d".to_string())));
    assert_eq!(grid.url_at(0, 1), None);
    assert_eq!(grid.url_at(1, 0), None);
    assert_eq!(grid.url_at(2, 3), Some((0, 8, "https://www.x.yz".to_string())));
    assert_eq!(grid.url_at(3, 0), None);
}

#[test]
fn normalized_url_between_spaces() {
    for url in ["https://example.com/a(b)", "http://a.b", "https://x.y/z?q=1&r=(2)"] {
        for (before, after) in [(0, 0), (3, 0), (0, 4), (5, 2)] {
            let text = format!("{}{}{}", " ".repeat(before), url, " ".repeat(after));
            let len = url.chars().count();
            assert_eq!(detect_urls(&make_row(&text)), vec![(before, before + len, url.to_string())]);
        }
    }
}

#[test]
fn every_detected_url_is_a_fixed_point() {
    let rows = [
        "see www.example.com, or (https://a.b/c). Also http://x.y/z! and www.q.r/s(t)",
        "www.a.b",
        "https://https://a.b www.www.c",
        "(http://en.wikipedia.org/wiki/Rust_(language))",
    ];
    let mut seen = 0;
    for text in rows {
        for (_, _, url) in detect_urls(&make_row(text)) {
            let len = url.chars().count();
            assert_eq!(detect_urls(&make_row(&url)), vec![(0, len, url.clone())]);
            seen += 1;
        }
    }
    assert_eq!(seen, 8);
}
