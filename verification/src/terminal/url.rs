//! Hyperlinks in a row of cells.
//!
//! A link starts at `https://`, `http://` or `www.`, runs over the
//! characters that may stand in a URL, and ends before the punctuation that
//! closes a sentence rather than a link.

use vstd::prelude::*;
use crate::terminal::cell::Cell;
use crate::terminal::grid::{string_from_chars, TerminalGrid};
use crate::terminal::screen::max_int;

verus! {

/// Whether `ch` may stand in a URL: an ASCII letter or digit, or one of
/// `-._~:/?#[]@!$&'()*+,;=%`.
pub open spec fn spec_is_url_char(ch: char) -> bool {
    ||| 'A' <= ch <= 'Z'
    ||| 'a' <= ch <= 'z'
    ||| '0' <= ch <= '9'
    ||| ch == '-'
    ||| ch == '.'
    ||| ch == '_'
    ||| ch == '~'
    ||| ch == ':'
    ||| ch == '/'
    ||| ch == '?'
    ||| ch == '#'
    ||| ch == '['
    ||| ch == ']'
    ||| ch == '@'
    ||| ch == '!'
    ||| ch == '$'
    ||| ch == '&'
    ||| ch == '\''
    ||| ch == '('
    ||| ch == ')'
    ||| ch == '*'
    ||| ch == '+'
    ||| ch == ','
    ||| ch == ';'
    ||| ch == '='
    ||| ch == '%'
}

/// Whether `ch` is punctuation that ends a sentence and is cut off the end
/// of a link: one of `.,;:!?'"`.
pub open spec fn is_trailing_punctuation(ch: char) -> bool {
    ||| ch == '.'
    ||| ch == ','
    ||| ch == ';'
    ||| ch == ':'
    ||| ch == '!'
    ||| ch == '?'
    ||| ch == '\''
    ||| ch == '"'
}

/// The cells of `row` from `col` on spell `pattern`.
pub open spec fn spec_starts_with_at(row: Seq<Cell>, col: int, pattern: Seq<char>) -> bool {
    &&& 0 <= col
    &&& col + pattern.len() <= row.len()
    &&& forall|j: int| 0 <= j < pattern.len() ==> (#[trigger] row[col + j]).ch == pattern[j]
}

/// One of the cells `start..end` of `row` holds `target`.
pub open spec fn spec_cells_contain(row: Seq<Cell>, start: int, end: int, target: char) -> bool {
    exists|j: int| start <= j < end && (#[trigger] row[j]).ch == target
}

/// The characters of the cells `start..end` of `row`.
pub open spec fn cell_text(row: Seq<Cell>, start: int, end: int) -> Seq<char> {
    Seq::new((end - start) as nat, |j: int| row[start + j].ch)
}

/// The length of the link prefix that starts at `col`: 8 for `https://`,
/// 7 for `http://`, 4 for `www.`, and 0 where none of them starts there.
pub open spec fn prefix_len_at(row: Seq<Cell>, col: int) -> int {
    if spec_starts_with_at(row, col, "https://"@) {
        8
    } else if spec_starts_with_at(row, col, "http://"@) {
        7
    } else if spec_starts_with_at(row, col, "www."@) {
        4
    } else {
        0
    }
}

/// The end of the run of URL characters that starts at `col`.
pub open spec fn url_extent(row: Seq<Cell>, col: int) -> int
    decreases row.len() - col,
{
    if 0 <= col < row.len() && spec_is_url_char(row[col].ch) {
        url_extent(row, col + 1)
    } else {
        col
    }
}

/// The end of the link `start..end` once the punctuation behind it is cut
/// off: every trailing `.,;:!?'"`, and a trailing `)` unless the link holds
/// a `(`.
pub open spec fn stripped_end(row: Seq<Cell>, start: int, end: int) -> int
    decreases end - start,
{
    if end <= start {
        end
    } else if is_trailing_punctuation(row[end - 1].ch) {
        stripped_end(row, start, end - 1)
    } else if row[end - 1].ch == ')' && !spec_cells_contain(row, start, end, '(') {
        stripped_end(row, start, end - 1)
    } else {
        end
    }
}

/// A link as `detect_urls` reports it: first column, the column behind the
/// last, and the address.
pub type UrlModel = (int, int, Seq<char>);

/// The link that starts at `col`, if one does: its first column, the column
/// behind its last, and its address. A span that holds no more than the
/// prefix, or whose part behind the prefix is without a dot, is no link.
pub open spec fn url_at(row: Seq<Cell>, col: int) -> Option<UrlModel> {
    let prefix = prefix_len_at(row, col);
    let end = stripped_end(row, col, url_extent(row, col));
    if prefix == 0 || end <= col + prefix {
        None
    } else if !spec_cells_contain(row, col + prefix, end, '.') || end - (col + prefix) <= 1 {
        None
    } else if prefix == 4 {
        Some((col, end, "https://"@ + cell_text(row, col, end)))
    } else {
        Some((col, end, cell_text(row, col, end)))
    }
}

/// The column at which the search goes on behind `col`: behind the span
/// that starts at `col` where a prefix stands there, else the next column.
pub open spec fn next_col(row: Seq<Cell>, col: int) -> int {
    let end = stripped_end(row, col, url_extent(row, col));
    if prefix_len_at(row, col) != 0 && end > col {
        end
    } else {
        col + 1
    }
}

/// The links of `row` from the column `col` on.
pub open spec fn urls_from(row: Seq<Cell>, col: int) -> Seq<UrlModel>
    decreases row.len() - col,
{
    if col < 0 || col >= row.len() {
        Seq::empty()
    } else {
        proof {
            lemma_next_col_in_row(row, col);
        }
        match url_at(row, col) {
            Some(url) => seq![url] + urls_from(row, next_col(row, col)),
            None => urls_from(row, next_col(row, col)),
        }
    }
}

/// The links of `row`, from left to right.
pub open spec fn urls_of(row: Seq<Cell>) -> Seq<UrlModel> {
    urls_from(row, 0)
}

/// What a list of links holds.
pub open spec fn urls_view(urls: Seq<(usize, usize, String)>) -> Seq<UrlModel> {
    Seq::new(urls.len(), |i: int| (urls[i].0 as int, urls[i].1 as int, urls[i].2@))
}

/// Whether `ch` may stand in a URL.
#[verifier::when_used_as_spec(spec_is_url_char)]
pub fn is_url_char(ch: char) -> (b: bool)
    ensures
        b == spec_is_url_char(ch),
{
    ('A' <= ch && ch <= 'Z') || ('a' <= ch && ch <= 'z') || ('0' <= ch && ch <= '9') || ch == '-'
        || ch == '.' || ch == '_' || ch == '~' || ch == ':' || ch == '/' || ch == '?' || ch == '#'
        || ch == '[' || ch == ']' || ch == '@' || ch == '!' || ch == '$' || ch == '&' || ch
        == '\'' || ch == '(' || ch == ')' || ch == '*' || ch == '+' || ch == ',' || ch == ';'
        || ch == '=' || ch == '%'
}

/// Whether the cells of `row` from `col` on spell `pattern`.
pub fn starts_with_at(row: &[Cell], col: usize, pattern: &str) -> (b: bool)
    ensures
        b == spec_starts_with_at(row@, col as int, pattern@),
{
    let len = pattern.unicode_len();
    if len > row.len() || col > row.len() - len {
        return false;
    }
    let mut j: usize = 0;
    while j < len
        invariant
            j <= len,
            len == pattern@.len(),
            col + len <= row@.len(),
            col + len <= usize::MAX,
            forall|k: int| 0 <= k < j ==> (#[trigger] row@[col + k]).ch == pattern@[k],
        decreases len - j,
    {
        if row[col + j].ch != pattern.get_char(j) {
            return false;
        }
        j += 1;
    }
    true
}

/// Whether one of the cells `start..end` of `row` holds `target`.
pub fn cells_contain(row: &[Cell], start: usize, end: usize, target: char) -> (b: bool)
    requires
        end <= row@.len(),
    ensures
        b == spec_cells_contain(row@, start as int, end as int, target),
{
    let mut j: usize = start;
    while j < end
        invariant
            start <= j,
            end <= row@.len(),
            forall|k: int| start <= k < j ==> (#[trigger] row@[k]).ch != target,
        decreases end - j,
    {
        if row[j].ch == target {
            return true;
        }
        j += 1;
    }
    false
}

/// The end of the run of URL characters that starts at `col`.
fn extent(row: &[Cell], col: usize) -> (end: usize)
    requires
        col <= row@.len(),
    ensures
        end == url_extent(row@, col as int),
        col <= end <= row@.len(),
{
    let mut end: usize = col;
    while end < row.len() && is_url_char(row[end].ch)
        invariant
            col <= end <= row@.len(),
            url_extent(row@, end as int) == url_extent(row@, col as int),
        decreases row@.len() - end,
    {
        end += 1;
    }
    end
}

/// The end of the link `start..end` without the punctuation behind it.
fn strip(row: &[Cell], start: usize, end: usize) -> (stripped: usize)
    requires
        start <= end <= row@.len(),
    ensures
        stripped == stripped_end(row@, start as int, end as int),
        start <= stripped <= end,
{
    let mut cur: usize = end;
    while cur > start
        invariant
            start <= cur <= end,
            end <= row@.len(),
            stripped_end(row@, start as int, cur as int) == stripped_end(
                row@,
                start as int,
                end as int,
            ),
        ensures
            start <= cur <= end,
            cur == stripped_end(row@, start as int, end as int),
        decreases cur - start,
    {
        let ch = row[cur - 1].ch;
        if ch == '.' || ch == ',' || ch == ';' || ch == ':' || ch == '!' || ch == '?' || ch == '\''
            || ch == '"' {
            cur -= 1;
        } else if ch == ')' {
            if cells_contain(row, start, cur, '(') {
                break ;
            }
            cur -= 1;
        } else {
            break ;
        }
    }
    cur
}

/// The length of the link prefix that starts at `col`, 0 where none does.
fn prefix_len(row: &[Cell], col: usize) -> (len: usize)
    requires
        col < row@.len(),
    ensures
        len == prefix_len_at(row@, col as int),
        len == 0 || len == 4 || len == 7 || len == 8,
{
    proof {
        reveal_strlit("https://");
        reveal_strlit("http://");
        reveal_strlit("www.");
    }
    let ch = row[col].ch;
    assert(row@[col + 0] == row@[col as int]);
    if ch == 'h' && starts_with_at(row, col, "https://") {
        8
    } else if ch == 'h' && starts_with_at(row, col, "http://") {
        7
    } else if ch == 'w' && starts_with_at(row, col, "www.") {
        4
    } else {
        0
    }
}

/// The address of the link `start..end`: the characters of its cells, behind
/// `https://` where the link began with `www.`.
fn address(row: &[Cell], start: usize, end: usize, add_scheme: bool) -> (text: String)
    requires
        start <= end <= row@.len(),
    ensures
        text@ == if add_scheme {
            "https://"@ + cell_text(row@, start as int, end as int)
        } else {
            cell_text(row@, start as int, end as int)
        },
{
    let mut chars: Vec<char> = Vec::new();
    if add_scheme {
        chars.push('h');
        chars.push('t');
        chars.push('t');
        chars.push('p');
        chars.push('s');
        chars.push(':');
        chars.push('/');
        chars.push('/');
    }
    proof {
        reveal_strlit("https://");
        if add_scheme {
            assert(chars@ =~= "https://"@);
        }
    }
    let ghost scheme = chars@;
    let mut j: usize = start;
    while j < end
        invariant
            start <= j <= end,
            end <= row@.len(),
            chars@ == scheme + cell_text(row@, start as int, j as int),
        decreases end - j,
    {
        chars.push(row[j].ch);
        assert(chars@ =~= scheme + cell_text(row@, start as int, j + 1));
        j += 1;
    }
    assert(scheme.len() == 0 ==> scheme + cell_text(row@, start as int, end as int)
        =~= cell_text(row@, start as int, end as int));
    string_from_chars(&chars)
}

/// Finds the links of a row of cells, from left to right. A link starts at
/// `https://`, `http://` or `www.` and runs over the characters that may
/// stand in a URL; the punctuation `.,;:!?'"` at its end is cut off, and so
/// is a closing bracket unless the link holds an opening one. A span that
/// is no longer than its prefix, or that has no dot behind the prefix, is
/// no link. Each link comes with its first column and the column behind
/// its last; the address of a link that begins with `www.` is given with
/// `https://` before it.
pub fn detect_urls(row: &[Cell]) -> (urls: Vec<(usize, usize, String)>)
    ensures
        urls_view(urls@) == urls_of(row@),
{
    let len = row.len();
    let mut urls: Vec<(usize, usize, String)> = Vec::new();
    let mut col: usize = 0;
    assert(urls_view(urls@) + urls_from(row@, 0) =~= urls_of(row@));
    while col < len
        invariant
            col <= len,
            len == row@.len(),
            urls_view(urls@) + urls_from(row@, col as int) == urls_of(row@),
        decreases len - col,
    {
        let ghost found = urls_view(urls@);
        let prefix = prefix_len(row, col);
        let end = strip(row, col, extent(row, col));
        let next = if prefix != 0 && end > col {
            end
        } else {
            col + 1
        };
        assert(next == next_col(row@, col as int));
        if prefix != 0 && end - col > prefix && end - (col + prefix) > 1 && cells_contain(
            row,
            col + prefix,
            end,
            '.',
        ) {
            let text = address(row, col, end, prefix == 4);
            urls.push((col, end, text));
            proof {
                let url = url_at(row@, col as int)->0;
                assert(urls_view(urls@) =~= found.push(url));
                assert(found.push(url) + urls_from(row@, next as int) =~= found + (seq![url]
                    + urls_from(row@, next as int)));
            }
        }
        col = next;
    }
    assert(urls_view(urls@) + urls_from(row@, len as int) =~= urls_view(urls@));
    urls
}

/// The search goes on to the right, and at the end of the row at the
/// latest.
pub proof fn lemma_next_col_in_row(row: Seq<Cell>, col: int)
    requires
        0 <= col < row.len(),
    ensures
        col < next_col(row, col) <= row.len(),
{
    lemma_extent_chars(row, col);
    lemma_stripped_stop(row, col, url_extent(row, col));
}

/// Whether `text` begins with `pattern`.
pub open spec fn text_starts_with(text: Seq<char>, pattern: Seq<char>) -> bool {
    &&& pattern.len() <= text.len()
    &&& forall|j: int| 0 <= j < pattern.len() ==> #[trigger] text[j] == pattern[j]
}

/// The length of the scheme that `text` begins with: 8 for `https://`, 7
/// for `http://`, and 0 where it begins with neither.
pub open spec fn scheme_len(text: Seq<char>) -> int {
    if text_starts_with(text, "https://"@) {
        8
    } else if text_starts_with(text, "http://"@) {
        7
    } else {
        0
    }
}

/// Whether `text` is an address in the form in which `detect_urls` reports
/// addresses: it begins with `https://` or `http://` and goes on behind the
/// scheme, holds URL characters only, has a dot behind the scheme, and
/// does not end in punctuation that would be cut off: in none of
/// `.,;:!?'"`, and in `)` only if it holds a `(`.
pub open spec fn is_normalized_url(text: Seq<char>) -> bool {
    let scheme = scheme_len(text);
    &&& scheme != 0
    &&& text.len() > scheme
    &&& forall|i: int| 0 <= i < text.len() ==> spec_is_url_char(#[trigger] text[i])
    &&& exists|i: int| scheme <= i < text.len() && #[trigger] text[i] == '.'
    &&& !is_trailing_punctuation(text.last())
    &&& text.last() == ')' ==> exists|i: int| 0 <= i < text.len() && #[trigger] text[i] == '('
}

/// Whether `row` holds `text` from the column `at` on, one character a
/// cell, and spaces in every other cell.
pub open spec fn holds_only(row: Seq<Cell>, at: int, text: Seq<char>) -> bool {
    &&& 0 <= at
    &&& at + text.len() <= row.len()
    &&& forall|i: int|
        0 <= i < row.len() ==> (#[trigger] row[i]).ch == if at <= i < at + text.len() {
            text[i - at]
        } else {
            ' '
        }
}

/// Whether `detect_urls` reports `url` for some column of `row`.
pub open spec fn is_detected(row: Seq<Cell>, url: UrlModel) -> bool {
    exists|col: int| 0 <= col < row.len() && #[trigger] url_at(row, col) == Some(url)
}

/// No link starts at a space.
pub proof fn lemma_no_prefix_at_space(row: Seq<Cell>, col: int)
    requires
        0 <= col < row.len(),
        row[col].ch == ' ',
    ensures
        prefix_len_at(row, col) == 0,
        url_at(row, col) is None,
        next_col(row, col) == col + 1,
{
    reveal_strlit("https://");
    reveal_strlit("http://");
    reveal_strlit("www.");
    assert(row[col + 0] == row[col]);
}

/// The search finds nothing in a run of spaces.
pub proof fn lemma_skips_spaces(row: Seq<Cell>, from: int, to: int)
    requires
        0 <= from <= to <= row.len(),
        forall|i: int| from <= i < to ==> (#[trigger] row[i]).ch == ' ',
    ensures
        urls_from(row, from) == urls_from(row, to),
    decreases to - from,
{
    if from < to {
        lemma_no_prefix_at_space(row, from);
        lemma_skips_spaces(row, from + 1, to);
    }
}

/// A run of URL characters ends where the row ends or another character
/// stands.
pub proof fn lemma_extent_of_run(row: Seq<Cell>, col: int, end: int)
    requires
        0 <= col <= end <= row.len(),
        forall|i: int| col <= i < end ==> spec_is_url_char((#[trigger] row[i]).ch),
        end < row.len() ==> !spec_is_url_char(row[end].ch),
    ensures
        url_extent(row, col) == end,
    decreases end - col,
{
    if col < end {
        assert(spec_is_url_char(row[col].ch));
        lemma_extent_of_run(row, col + 1, end);
    }
}

/// Every cell of a run of URL characters holds a URL character.
pub proof fn lemma_extent_chars(row: Seq<Cell>, col: int)
    requires
        0 <= col <= row.len(),
    ensures
        col <= url_extent(row, col) <= row.len(),
        forall|i: int| col <= i < url_extent(row, col) ==> spec_is_url_char((#[trigger] row[i]).ch),
    decreases row.len() - col,
{
    if col < row.len() && spec_is_url_char(row[col].ch) {
        lemma_extent_chars(row, col + 1);
    }
}

/// Where the cutting of punctuation stops: in front of the span, or behind
/// a character that is none of `.,;:!?'"` and is `)` only if the span that
/// is left holds a `(`.
pub proof fn lemma_stripped_stop(row: Seq<Cell>, start: int, end: int)
    requires
        start <= end,
    ensures
        ({
            let stop = stripped_end(row, start, end);
            &&& start <= stop <= end
            &&& stop > start ==> !is_trailing_punctuation(row[stop - 1].ch)
            &&& stop > start && row[stop - 1].ch == ')' ==> spec_cells_contain(
                row,
                start,
                stop,
                '(',
            )
        }),
    decreases end - start,
{
    if end > start {
        lemma_stripped_stop(row, start, end - 1);
    }
}

/// Idempotence of the detection, first form. In a row that holds one
/// address in normalized form and spaces around it, `detect_urls` finds
/// that address and no other, from its first cell to its last, letter for
/// letter.
pub proof fn lemma_detects_normalized_url(row: Seq<Cell>, at: int, text: Seq<char>)
    requires
        is_normalized_url(text),
        holds_only(row, at, text),
    ensures
        urls_of(row) == seq![(at, at + text.len(), text)],
{
    reveal_strlit("https://");
    reveal_strlit("http://");
    reveal_strlit("www.");
    let len = text.len() as int;
    let end = at + len;
    let scheme = scheme_len(text);
    // The cells of the address.
    assert forall|i: int| at <= i < end implies (#[trigger] row[i]).ch == text[i - at] by {}
    assert(row[end - 1].ch == text.last());
    // The prefix at the first cell is the scheme of the address.
    assert(prefix_len_at(row, at) == scheme) by {
        assert forall|j: int| 0 <= j < 8 && j < len implies (#[trigger] row[at + j]).ch
            == text[j] by {}
        if scheme == 8 {
            assert(spec_starts_with_at(row, at, "https://"@));
        } else {
            assert(row[at + 4].ch == text[4]);
            assert(!spec_starts_with_at(row, at, "https://"@));
            assert(spec_starts_with_at(row, at, "http://"@));
        }
    }
    // The span is the address, and nothing is cut off it.
    assert forall|i: int| at <= i < end implies spec_is_url_char((#[trigger] row[i]).ch) by {
        assert(spec_is_url_char(text[i - at]));
    }
    lemma_extent_of_run(row, at, end);
    if text.last() == ')' {
        let open = choose|i: int| 0 <= i < len && #[trigger] text[i] == '(';
        assert(row[at + open].ch == '(');
    }
    assert(stripped_end(row, at, end) == end);
    // There is a dot behind the scheme, and more than the dot.
    let dot = choose|i: int| scheme <= i < len && #[trigger] text[i] == '.';
    assert(row[at + dot].ch == '.');
    assert(dot != len - 1);
    assert(cell_text(row, at, end) =~= text);
    assert(url_at(row, at) == Some((at, end, text)));
    assert(next_col(row, at) == end);
    // Nothing stands before the address and nothing behind it.
    lemma_skips_spaces(row, 0, at);
    lemma_skips_spaces(row, end, row.len() as int);
    assert(urls_from(row, row.len() as int) =~= Seq::<UrlModel>::empty());
    assert(urls_from(row, at) =~= seq![(at, end, text)] + urls_from(row, end));
    assert(urls_of(row) =~= seq![(at, end, text)]);
}

/// Every address that `detect_urls` reports is in normalized form, also
/// the one that it made of a link that begins with `www.`.
pub proof fn lemma_detected_is_normalized(row: Seq<Cell>, col: int)
    requires
        0 <= col < row.len(),
        url_at(row, col) is Some,
    ensures
        ({
            let url = url_at(row, col)->0;
            &&& is_normalized_url(url.2)
            &&& url.0 == col
            &&& col < url.1 <= row.len()
        }),
{
    reveal_strlit("https://");
    reveal_strlit("http://");
    reveal_strlit("www.");
    let prefix = prefix_len_at(row, col);
    let extent = url_extent(row, col);
    let end = stripped_end(row, col, extent);
    lemma_extent_chars(row, col);
    lemma_stripped_stop(row, col, extent);
    let span = cell_text(row, col, end);
    let url = url_at(row, col)->0;
    let text = url.2;
    let dot = choose|j: int| col + prefix <= j < end && (#[trigger] row[j]).ch == '.';
    assert forall|j: int| 0 <= j < span.len() implies #[trigger] span[j] == row[col + j].ch by {}
    assert forall|j: int| 0 <= j < span.len() implies spec_is_url_char(#[trigger] span[j]) by {
        assert(spec_is_url_char(row[col + j].ch));
    }
    assert(span.last() == row[end - 1].ch);
    if prefix == 4 {
        assert(text == "https://"@ + span);
        assert forall|j: int| 0 <= j < text.len() implies spec_is_url_char(#[trigger] text[j]) by {
            if j >= 8 {
                assert(text[j] == span[j - 8]);
            }
        }
        assert(text_starts_with(text, "https://"@));
        assert(span[3] == row[col + 3].ch);
        assert(text[11] == '.');
        assert(text.last() == span.last());
        if text.last() == ')' {
            let open = choose|j: int| col <= j < end && (#[trigger] row[j]).ch == '(';
            assert(text[8 + (open - col)] == span[open - col]);
            assert(text[8 + (open - col)] == '(');
        }
    } else {
        assert(text == span);
        if prefix == 8 {
            assert forall|j: int| 0 <= j < 8 implies #[trigger] text[j] == "https://"@[j] by {
                assert(row[col + j].ch == "https://"@[j]);
            }
            assert(text_starts_with(text, "https://"@));
        } else {
            assert(prefix == 7);
            if text_starts_with(text, "https://"@) {
                assert forall|j: int| 0 <= j < 8 implies (#[trigger] row[col + j]).ch
                    == "https://"@[j] by {
                    assert(text[j] == "https://"@[j]);
                }
                assert(spec_starts_with_at(row, col, "https://"@));
            }
            assert forall|j: int| 0 <= j < 7 implies #[trigger] text[j] == "http://"@[j] by {
                assert(row[col + j].ch == "http://"@[j]);
            }
            assert(text_starts_with(text, "http://"@));
        }
        assert(text[dot - col] == '.');
        if text.last() == ')' {
            let open = choose|j: int| col <= j < end && (#[trigger] row[j]).ch == '(';
            assert(text[open - col] == '(');
        }
    }
}

/// Every address in the result of `detect_urls` was found at some column.
pub proof fn lemma_urls_are_detected(row: Seq<Cell>, col: int, i: int)
    requires
        0 <= col,
        0 <= i < urls_from(row, col).len(),
    ensures
        is_detected(row, urls_from(row, col)[i]),
    decreases row.len() - col,
{
    if col < row.len() {
        lemma_next_col_in_row(row, col);
        let next = next_col(row, col);
        match url_at(row, col) {
            Some(url) => {
                if i == 0 {
                    assert(url_at(row, col) == Some(urls_from(row, col)[0]));
                } else {
                    lemma_urls_are_detected(row, next, i - 1);
                    assert(urls_from(row, col)[i] == urls_from(row, next)[i - 1]);
                }
            },
            None => {
                lemma_urls_are_detected(row, next, i);
            },
        }
    }
}

/// Idempotence of the detection, second form. Every address that
/// `detect_urls` reports is a fixed point: in a row that holds the address
/// and nothing else, `detect_urls` finds it again, from the first cell to
/// the last, letter for letter. That holds of the addresses that were
/// made of a link beginning with `www.` too.
pub proof fn lemma_detected_url_is_fixed_point(row: Seq<Cell>, i: int, again: Seq<Cell>)
    requires
        0 <= i < urls_of(row).len(),
        holds_only(again, 0, urls_of(row)[i].2),
    ensures
        urls_of(again) == seq![(0int, urls_of(row)[i].2.len() as int, urls_of(row)[i].2)],
{
    let url = urls_of(row)[i];
    lemma_urls_are_detected(row, 0, i);
    let col = choose|col: int| 0 <= col < row.len() && #[trigger] url_at(row, col) == Some(url);
    lemma_detected_is_normalized(row, col);
    lemma_detects_normalized_url(again, 0, url.2);
}

/// The first of `urls[from..]` that covers the column `col`.
pub open spec fn link_at(urls: Seq<UrlModel>, col: int, from: int) -> Option<UrlModel>
    decreases urls.len() - from,
{
    if from < 0 || from >= urls.len() {
        None
    } else if urls[from].0 <= col < urls[from].1 {
        Some(urls[from])
    } else {
        link_at(urls, col, from + 1)
    }
}

/// The link under the column `col` of a row, if there is one, with its
/// first column and the column behind its last.
pub fn url_under(row: &[Cell], col: usize) -> (found: Option<(usize, usize, String)>)
    ensures
        match found {
            Some(url) => link_at(urls_of(row@), col as int, 0) == Some(
                (url.0 as int, url.1 as int, url.2@),
            ),
            None => link_at(urls_of(row@), col as int, 0) is None,
        },
{
    let mut urls = detect_urls(row);
    let ghost all = urls_of(row@);
    let mut i: usize = urls.len();
    let mut found: Option<(usize, usize, String)> = None;
    // The list is taken apart from its end, so that the first link that
    // covers the column is the one that stays.
    while i > 0
        invariant
            i == urls@.len(),
            i <= all.len(),
            urls_view(urls@) == all.subrange(0, i as int),
            match found {
                Some(url) => link_at(all, col as int, i as int) == Some(
                    (url.0 as int, url.1 as int, url.2@),
                ),
                None => link_at(all, col as int, i as int) is None,
            },
        decreases i,
    {
        let ghost before = urls_view(urls@);
        let url = urls.pop().unwrap();
        i -= 1;
        proof {
            assert(before[i as int] == all[i as int]);
            assert(urls_view(urls@) =~= all.subrange(0, i as int));
        }
        if url.0 <= col && col < url.1 {
            found = Some(url);
        }
    }
    found
}

impl TerminalGrid {
    /// The link under the cell `col` of the absolute row `abs_row`, with
    /// its first column and the column behind its last; `None` where there
    /// is no such row and where no link covers the cell.
    pub fn url_at(&self, abs_row: usize, col: usize) -> (found: Option<(usize, usize, String)>)
        requires
            self.wf(),
        ensures
            match found {
                Some(url) => abs_row < self@.total_rows() && link_at(
                    urls_of(self@.abs_row(abs_row as int)),
                    col as int,
                    0,
                ) == Some((url.0 as int, url.1 as int, url.2@)),
                None => abs_row >= self@.total_rows() || link_at(
                    urls_of(self@.abs_row(abs_row as int)),
                    col as int,
                    0,
                ) is None,
            },
    {
        let slen = self.scrollback.len();
        if abs_row < slen {
            url_under(self.scrollback[abs_row].as_slice(), col)
        } else if abs_row - slen < self.rows {
            url_under(self.cells[abs_row - slen].as_slice(), col)
        } else {
            None
        }
    }
}

} // verus!
