//! Plain-text tables for listings: cells with alignment, color and style,
//! laid out in columns as wide as their widest cell.
use vstd::prelude::*;

verus! {

/// Bold text.
pub const BOLD: u8 = 1;
/// Underlined text.
pub const UNDERLINE: u8 = 2;
/// Text in reversed colors.
pub const REVERSED: u8 = 4;
/// Italic text.
pub const ITALIC: u8 = 8;

/// A set of text styles, one bit each.
#[derive(Clone, Copy, Debug, PartialEq, Eq, Structural)]
pub struct Style(pub u8);

impl Default for Style {
    fn default() -> (r: Style)
        ensures
            r.0 == 0,
    {
        Style(0)
    }
}

impl Style {
    /// The styles whose bits are set in `bits`.
    pub fn from_bits(bits: u8) -> (r: Style)
        ensures
            r.0 == bits,
    {
        Style(bits)
    }

    /// These styles together with those of `style`.
    pub fn add_style(self, style: u8) -> (r: Style)
        ensures
            r.0 == self.0 | style,
    {
        Style(self.0 | style)
    }

    /// Whether the text is bold.
    pub fn is_bold(&self) -> (r: bool)
        ensures
            r == (self.0 & BOLD != 0),
    {
        self.0 & BOLD != 0
    }

    /// Whether the text is italic.
    pub fn is_italic(&self) -> (r: bool)
        ensures
            r == (self.0 & ITALIC != 0),
    {
        self.0 & ITALIC != 0
    }

    /// Whether the text is underlined.
    pub fn is_underline(&self) -> (r: bool)
        ensures
            r == (self.0 & UNDERLINE != 0),
    {
        self.0 & UNDERLINE != 0
    }

    /// Whether the text is in reversed colors.
    pub fn is_reversed(&self) -> (r: bool)
        ensures
            r == (self.0 & REVERSED != 0),
    {
        self.0 & REVERSED != 0
    }
}

/// Where a cell's text sits within its column.
#[derive(Clone, Copy, Debug, PartialEq, Eq, Structural)]
pub enum Alignment {
    Left,
    Center,
    Right,
}

/// The colors a cell's text may have.
#[derive(Clone, Copy, Debug, PartialEq, Eq, Structural)]
pub enum Color {
    Black,
    Red,
    Green,
    Yellow,
    Blue,
    Magenta,
    Cyan,
    White,
    BrightBlack,
    BrightRed,
    BrightGreen,
    BrightYellow,
    BrightBlue,
    BrightMagenta,
    BrightCyan,
    BrightWhite,
    TrueColor { r: u8, g: u8, b: u8 },
}

/// One cell: its text, alignment, color and style.
#[derive(Debug)]
pub struct Cell {
    pub text: String,
    pub alignment: Alignment,
    pub color: Color,
    pub style: Style,
}

impl Cell {
    /// A centered, bright white, unstyled cell holding `text`.
    pub fn new(text: &str) -> (r: Cell)
        ensures
            r.text@ == text@,
            r.alignment == Alignment::Center,
            r.color == Color::BrightWhite,
            r.style == Style(0),
    {
        Cell { text: text.to_string(), alignment: Alignment::Center, color: Color::BrightWhite, style: Style(0) }
    }

    /// The cell's text.
    pub fn text(&self) -> (r: &str)
        ensures
            r@ == self.text@,
    {
        self.text.as_str()
    }

    /// This cell aligned left.
    pub fn left(self) -> (r: Cell)
        ensures
            r == (Cell { alignment: Alignment::Left, ..self }),
    {
        Cell { alignment: Alignment::Left, ..self }
    }

    /// This cell aligned right.
    pub fn right(self) -> (r: Cell)
        ensures
            r == (Cell { alignment: Alignment::Right, ..self }),
    {
        Cell { alignment: Alignment::Right, ..self }
    }

    /// This cell centered.
    pub fn center(self) -> (r: Cell)
        ensures
            r == (Cell { alignment: Alignment::Center, ..self }),
    {
        Cell { alignment: Alignment::Center, ..self }
    }

    /// This cell in color `color`.
    pub fn color(self, color: Color) -> (r: Cell)
        ensures
            r == (Cell { color: color, ..self }),
    {
        Cell { color, ..self }
    }

    /// This cell with the styles of `style` added.
    pub fn add_style(self, style: u8) -> (r: Cell)
        ensures
            r == (Cell { style: Style(self.style.0 | style), ..self }),
    {
        let st = self.style.add_style(style);
        Cell { style: st, ..self }
    }

    /// This cell in bold.
    pub fn bold(self) -> (r: Cell)
        ensures
            r == (Cell { style: Style(self.style.0 | BOLD), ..self }),
    {
        self.add_style(BOLD)
    }

    /// This cell in italics.
    pub fn italic(self) -> (r: Cell)
        ensures
            r == (Cell { style: Style(self.style.0 | ITALIC), ..self }),
    {
        self.add_style(ITALIC)
    }

    /// This cell underlined.
    pub fn underline(self) -> (r: Cell)
        ensures
            r == (Cell { style: Style(self.style.0 | UNDERLINE), ..self }),
    {
        self.add_style(UNDERLINE)
    }

    /// This cell in reversed colors.
    pub fn reversed(self) -> (r: Cell)
        ensures
            r == (Cell { style: Style(self.style.0 | REVERSED), ..self }),
    {
        self.add_style(REVERSED)
    }
}

/// Turning a value into a cell.
pub trait IntoCell: Sized {
    fn cell(self) -> Cell;
}

impl IntoCell for &str {
    fn cell(self) -> Cell {
        Cell::new(self)
    }
}

impl IntoCell for String {
    fn cell(self) -> Cell {
        Cell::new(self.as_str())
    }
}

/// The pieces a table is laid out in.
#[derive(Debug)]
pub enum Token {
    /// A cell's text.
    Text { text: String, color: Color, style: Style },
    /// That many spaces.
    Padding(usize),
    /// The column separator.
    ColumnSeparator,
    /// A row separator line of that width.
    RowSeparator(usize),
    /// The end of a line.
    NewLine,
}

/// A table: rows of cells, optional headers, the character between columns
/// and the optional character of the line between rows.
#[derive(Debug)]
pub struct Table {
    rows: Vec<Vec<Cell>>,
    headers: Vec<Cell>,
    col_separator: char,
    row_separator: Option<char>,
}

impl Default for Table {
    fn default() -> (r: Table)
        ensures
            r.spec_rows().len() == 0,
            r.spec_headers().len() == 0,
            r.spec_col_separator() == ' ',
            r.spec_row_separator().is_none(),
    {
        Table::new()
    }
}

/// The number of characters of a cell's text.
pub open spec fn cell_len(c: Cell) -> nat {
    c.text@.len()
}

/// The number of cells of the longest row.
pub open spec fn n_cols(rows: Seq<Vec<Cell>>) -> nat
    decreases rows.len(),
{
    if rows.len() == 0 {
        0
    } else {
        let m = n_cols(rows.drop_last());
        if rows.last()@.len() > m {
            rows.last()@.len()
        } else {
            m
        }
    }
}

/// The length of the longest text in column `j` of `rows`.
pub open spec fn rows_max(rows: Seq<Vec<Cell>>, j: int) -> nat
    decreases rows.len(),
{
    if rows.len() == 0 {
        0
    } else {
        let m = rows_max(rows.drop_last(), j);
        let l = if 0 <= j < rows.last()@.len() {
            cell_len(rows.last()@[j])
        } else {
            0
        };
        if l > m {
            l
        } else {
            m
        }
    }
}

/// The width of column `j`: its longest text, header included.
pub open spec fn col_width(rows: Seq<Vec<Cell>>, headers: Seq<Cell>, j: int) -> nat {
    let m = rows_max(rows, j);
    let h = if 0 <= j < headers.len() {
        cell_len(headers[j])
    } else {
        0
    };
    if h > m {
        h
    } else {
        m
    }
}

/// The widths of all columns.
pub open spec fn col_widths(rows: Seq<Vec<Cell>>, headers: Seq<Cell>) -> Seq<usize> {
    Seq::new(n_cols(rows), |j: int| col_width(rows, headers, j) as usize)
}

/// The width of a row separator line: each column and one more.
pub open spec fn total_width(w: Seq<usize>) -> nat
    decreases w.len(),
{
    if w.len() == 0 {
        0
    } else {
        total_width(w.drop_last()) + w.last() as nat + 1
    }
}

/// The pieces of one cell padded by `pad` spaces to its column's width; the
/// last column of a line gets no padding after its text.
pub open spec fn cell_tokens(c: Cell, pad: usize, last: bool) -> Seq<Token> {
    let t = Token::Text { text: c.text, color: c.color, style: c.style };
    match c.alignment {
        Alignment::Left => if last {
            seq![t]
        } else {
            seq![t, Token::Padding(pad)]
        },
        Alignment::Center => {
            let half = (pad / 2) as usize;
            if last {
                seq![Token::Padding(half), t]
            } else if pad % 2 != 0 {
                seq![Token::Padding(half), t, Token::Padding(half), Token::Padding(1)]
            } else {
                seq![Token::Padding(half), t, Token::Padding(half)]
            }
        },
        Alignment::Right => seq![Token::Padding(pad), t],
    }
}

/// The separator that follows entry `i` of `n`: none after the last.
pub open spec fn sep_after(i: int, n: int) -> Seq<Token> {
    if i != n - 1 {
        seq![Token::ColumnSeparator]
    } else {
        Seq::empty()
    }
}

/// The pieces of the first `i` cells of a line of `cells`.
pub open spec fn cells_part(cells: Seq<Cell>, w: Seq<usize>, last_col: int, i: int) -> Seq<Token>
    decreases i,
{
    if i <= 0 {
        Seq::empty()
    } else {
        cells_part(cells, w, last_col, i - 1) + cell_tokens(
            cells[i - 1],
            w[i - 1].saturating_sub(cell_len(cells[i - 1]) as usize),
            i - 1 == last_col,
        ) + sep_after(i - 1, cells.len() as int)
    }
}

/// Blank columns `from` up to `to`, each as wide as its column.
pub open spec fn fill(w: Seq<usize>, from: int, to: int) -> Seq<Token>
    decreases to - from,
{
    if to <= from {
        Seq::empty()
    } else {
        fill(w, from, to - 1) + seq![Token::Padding(w[to - 1])] + sep_after(to - 1, w.len() as int)
    }
}

/// The header line, when there are headers.
pub open spec fn header_tokens(headers: Seq<Cell>, w: Seq<usize>) -> Seq<Token> {
    if headers.len() == 0 {
        Seq::empty()
    } else {
        cells_part(headers, w, headers.len() - 1, headers.len() as int) + seq![Token::NewLine]
    }
}

/// The row separator line, when there is a row separator.
pub open spec fn sep_line(row_separator: Option<char>, w: Seq<usize>) -> Seq<Token> {
    if row_separator.is_some() {
        seq![Token::RowSeparator(total_width(w) as usize), Token::NewLine]
    } else {
        Seq::empty()
    }
}

/// The line of one row, followed by the row separator line.
pub open spec fn row_tokens(row: Seq<Cell>, w: Seq<usize>, sep: Seq<Token>) -> Seq<Token> {
    let ncols = w.len() as int;
    let body = if row.len() > 0 {
        cells_part(row, w, ncols - 1, row.len() as int) + if row.len() < ncols {
            seq![Token::ColumnSeparator] + fill(w, row.len() as int, ncols)
        } else {
            Seq::empty()
        }
    } else {
        fill(w, 0, ncols)
    };
    body + seq![Token::NewLine] + sep
}

/// The lines of the first rows.
pub open spec fn rows_tokens(rows: Seq<Vec<Cell>>, w: Seq<usize>, sep: Seq<Token>) -> Seq<Token>
    decreases rows.len(),
{
    if rows.len() == 0 {
        Seq::empty()
    } else {
        rows_tokens(rows.drop_last(), w, sep) + row_tokens(rows.last()@, w, sep)
    }
}

/// The text of one piece.
pub open spec fn token_text(t: Token, col_sep: char, row_sep: Option<char>) -> Seq<char> {
    match t {
        Token::Text { text, .. } => text@,
        Token::Padding(n) => Seq::new(n as nat, |i: int| ' '),
        Token::ColumnSeparator => seq![col_sep],
        Token::RowSeparator(n) => Seq::new(
            n as nat,
            |i: int|
                match row_sep {
                    Some(c) => c,
                    None => '\0',
                },
        ),
        Token::NewLine => seq!['\n'],
    }
}

/// The text of a sequence of pieces.
pub open spec fn tokens_text(ts: Seq<Token>, col_sep: char, row_sep: Option<char>) -> Seq<char>
    decreases ts.len(),
{
    if ts.len() == 0 {
        Seq::empty()
    } else {
        tokens_text(ts.drop_last(), col_sep, row_sep) + token_text(ts.last(), col_sep, row_sep)
    }
}

impl Table {
    /// The rows.
    pub closed spec fn spec_rows(&self) -> Seq<Vec<Cell>> {
        self.rows@
    }

    /// The headers.
    pub closed spec fn spec_headers(&self) -> Seq<Cell> {
        self.headers@
    }

    /// The column separator.
    pub closed spec fn spec_col_separator(&self) -> char {
        self.col_separator
    }

    /// The row separator.
    pub closed spec fn spec_row_separator(&self) -> Option<char> {
        self.row_separator
    }

    /// The widths of the columns.
    pub open spec fn widths(&self) -> Seq<usize> {
        col_widths(self.spec_rows(), self.spec_headers())
    }

    /// The table can be laid out: it has no more headers than columns, and
    /// its separator line's width fits a machine word.
    pub open spec fn can_layout(&self) -> bool {
        &&& self.spec_headers().len() <= n_cols(self.spec_rows())
        &&& total_width(self.widths()) <= usize::MAX
        &&& forall|j: int| 0 <= j < n_cols(self.spec_rows()) ==> col_width(self.spec_rows(), self.spec_headers(), j) <= usize::MAX
    }

    /// The pieces of the whole table: the header line, the row separator
    /// line, then each row's line followed by the row separator line.
    pub open spec fn tokens_spec(&self) -> Seq<Token> {
        let w = self.widths();
        let sep = sep_line(self.spec_row_separator(), w);
        header_tokens(self.spec_headers(), w) + sep + rows_tokens(self.spec_rows(), w, sep)
    }

    /// An empty table with a space between columns and no row separator.
    pub fn new() -> (r: Table)
        ensures
            r.spec_rows().len() == 0,
            r.spec_headers().len() == 0,
            r.spec_col_separator() == ' ',
            r.spec_row_separator().is_none(),
    {
        Table { rows: Vec::new(), headers: Vec::new(), col_separator: ' ', row_separator: None }
    }

    /// This table with `separator` between columns.
    pub fn with_column_separator(self, separator: char) -> (r: Table)
        ensures
            r.spec_rows() == self.spec_rows(),
            r.spec_headers() == self.spec_headers(),
            r.spec_col_separator() == separator,
            r.spec_row_separator() == self.spec_row_separator(),
    {
        Table { col_separator: separator, ..self }
    }

    /// This table with a line of `separator` between rows.
    pub fn with_row_separator(self, separator: char) -> (r: Table)
        ensures
            r.spec_rows() == self.spec_rows(),
            r.spec_headers() == self.spec_headers(),
            r.spec_col_separator() == self.spec_col_separator(),
            r.spec_row_separator() == Some(separator),
    {
        Table { row_separator: Some(separator), ..self }
    }

    /// This table with headers holding the texts `headers`.
    pub fn with_headers(self, headers: Vec<&str>) -> (r: Table)
        ensures
            r.spec_rows() == self.spec_rows(),
            r.spec_headers().len() == headers@.len(),
            forall|i: int| 0 <= i < headers@.len() ==> #[trigger] r.spec_headers()[i] == (Cell {
                text: r.spec_headers()[i].text,
                alignment: Alignment::Center,
                color: Color::BrightWhite,
                style: Style(0),
            }) && r.spec_headers()[i].text@ == headers@[i]@,
            r.spec_col_separator() == self.spec_col_separator(),
            r.spec_row_separator() == self.spec_row_separator(),
    {
        let mut cells: Vec<Cell> = Vec::new();
        let mut i: usize = 0;
        while i < headers.len()
            invariant
                i <= headers@.len(),
                cells@.len() == i,
                forall|k: int| 0 <= k < i ==> #[trigger] cells@[k] == (Cell {
                    text: cells@[k].text,
                    alignment: Alignment::Center,
                    color: Color::BrightWhite,
                    style: Style(0),
                }) && cells@[k].text@ == headers@[k]@,
            decreases headers@.len() - i,
        {
            cells.push(Cell::new(headers[i]));
            i = i + 1;
        }
        Table { headers: cells, ..self }
    }

    /// This table with headers `headers`.
    pub fn with_header_cells(self, headers: Vec<Cell>) -> (r: Table)
        ensures
            r.spec_rows() == self.spec_rows(),
            r.spec_headers() == headers@,
            r.spec_col_separator() == self.spec_col_separator(),
            r.spec_row_separator() == self.spec_row_separator(),
    {
        Table { headers, ..self }
    }

    /// Appends a row.
    pub fn push_row(&mut self, row: Vec<Cell>)
        ensures
            final(self).spec_rows() == old(self).spec_rows().push(row),
            final(self).spec_headers() == old(self).spec_headers(),
            final(self).spec_col_separator() == old(self).spec_col_separator(),
            final(self).spec_row_separator() == old(self).spec_row_separator(),
    {
        self.rows.push(row);
    }

    /// The widths of the columns.
    fn column_widths(&self) -> (r: Vec<usize>)
        requires
            self.can_layout(),
        ensures
            r@ == self.widths(),
    {
        let rows = &self.rows;
        let mut n: usize = 0;
        let mut i: usize = 0;
        while i < rows.len()
            invariant
                i <= rows@.len(),
                n == n_cols(rows@.subrange(0, i as int)),
            decreases rows@.len() - i,
        {
            proof {
                assert(rows@.subrange(0, i + 1).drop_last() =~= rows@.subrange(0, i as int));
            }
            if rows[i].len() > n {
                n = rows[i].len();
            }
            i = i + 1;
        }
        proof {
            assert(rows@.subrange(0, rows@.len() as int) =~= rows@);
        }
        let mut w: Vec<usize> = Vec::new();
        let mut j: usize = 0;
        while j < n
            invariant
                j <= n,
                w@.len() == j,
                forall|k: int| 0 <= k < j ==> w@[k] == 0,
            decreases n - j,
        {
            w.push(0);
            j = j + 1;
        }
        let mut r: usize = 0;
        proof {
            assert(rows@.subrange(0, 0) =~= Seq::<Vec<Cell>>::empty());
        }
        while r < rows.len()
            invariant
                r <= rows@.len(),
                n == n_cols(rows@),
                w@.len() == n,
                rows == &self.rows,
                forall|k: int| 0 <= k < n ==> w@[k] as nat == rows_max(rows@.subrange(0, r as int), k),
            decreases rows@.len() - r,
        {
            let row = &rows[r];
            proof {
                lemma_row_within_cols(rows@, r as int);
            }
            let mut c: usize = 0;
            while c < row.len()
                invariant
                    c <= row@.len(),
                    row@.len() <= n,
                    w@.len() == n,
                    forall|k: int|
                        0 <= k < n ==> #[trigger] w@[k] as nat == if k < c {
                            let m = rows_max(rows@.subrange(0, r as int), k);
                            let l = cell_len(row@[k]);
                            if l > m {
                                l
                            } else {
                                m
                            }
                        } else {
                            rows_max(rows@.subrange(0, r as int), k)
                        },
                decreases row@.len() - c,
            {
                let l = row[c].text.as_str().unicode_len();
                if l > w[c] {
                    w.set(c, l);
                }
                c = c + 1;
            }
            proof {
                assert(rows@.subrange(0, r + 1).drop_last() =~= rows@.subrange(0, r as int));
                assert(rows@.subrange(0, r + 1).last() == *row);
            }
            r = r + 1;
        }
        proof {
            assert(rows@.subrange(0, rows@.len() as int) =~= rows@);
        }
        let headers = &self.headers;
        let mut h: usize = 0;
        while h < headers.len()
            invariant
                h <= headers@.len(),
                headers@.len() <= n,
                n == n_cols(rows@),
                w@.len() == n,
                headers == &self.headers,
                forall|k: int|
                    0 <= k < n ==> #[trigger] w@[k] as nat == if k < h {
                        col_width(rows@, headers@, k)
                    } else {
                        rows_max(rows@, k)
                    },
            decreases headers@.len() - h,
        {
            let l = headers[h].text.as_str().unicode_len();
            if l > w[h] {
                w.set(h, l);
            }
            h = h + 1;
        }
        proof {
            assert(w@ =~= col_widths(rows@, headers@));
        }
        w
    }
}

/// Appends the pieces of one cell.
fn push_cell(tokens: &mut Vec<Token>, c: &Cell, pad: usize, last: bool)
    ensures
        final(tokens)@ == old(tokens)@ + cell_tokens(*c, pad, last),
{
    let ghost start = tokens@;
    let t = Token::Text { text: c.text.clone(), color: c.color, style: c.style };
    match c.alignment {
        Alignment::Left => {
            tokens.push(t);
            if !last {
                tokens.push(Token::Padding(pad));
            }
        },
        Alignment::Center => {
            let half = pad / 2;
            tokens.push(Token::Padding(half));
            tokens.push(t);
            if !last {
                tokens.push(Token::Padding(half));
                if pad % 2 != 0 {
                    tokens.push(Token::Padding(1));
                }
            }
        },
        Alignment::Right => {
            tokens.push(Token::Padding(pad));
            tokens.push(t);
        },
    }
    proof {
        assert(tokens@ =~= start + cell_tokens(*c, pad, last));
    }
}

/// Appends the separator that follows entry `i` of `n`.
fn push_sep_after(tokens: &mut Vec<Token>, i: usize, n: usize)
    ensures
        final(tokens)@ == old(tokens)@ + sep_after(i as int, n as int),
{
    let ghost start = tokens@;
    if n == 0 || i != n - 1 {
        tokens.push(Token::ColumnSeparator);
    }
    proof {
        assert(tokens@ =~= start + sep_after(i as int, n as int));
    }
}

/// Appends the pieces of the cells of one line.
fn push_cells(tokens: &mut Vec<Token>, cells: &Vec<Cell>, w: &Vec<usize>, last_col: usize)
    requires
        cells@.len() <= w@.len(),
    ensures
        final(tokens)@ == old(tokens)@ + cells_part(cells@, w@, last_col as int, cells@.len() as int),
{
    let ghost start = tokens@;
    let n = cells.len();
    let mut i: usize = 0;
    proof {
        assert(start + cells_part(cells@, w@, last_col as int, 0) =~= start);
    }
    while i < n
        invariant
            n == cells@.len(),
            n <= w@.len(),
            i <= n,
            tokens@ == start + cells_part(cells@, w@, last_col as int, i as int),
        decreases n - i,
    {
        let l = cells[i].text.as_str().unicode_len();
        let pad = w[i].saturating_sub(l);
        push_cell(tokens, &cells[i], pad, i == last_col);
        push_sep_after(tokens, i, n);
        proof {
            assert(tokens@ =~= start + cells_part(cells@, w@, last_col as int, i + 1));
        }
        i = i + 1;
    }
}

/// Appends blank columns `from` up to `to`.
fn push_fill(tokens: &mut Vec<Token>, w: &Vec<usize>, from: usize, to: usize)
    requires
        from <= to <= w@.len(),
    ensures
        final(tokens)@ == old(tokens)@ + fill(w@, from as int, to as int),
{
    let ghost start = tokens@;
    let mut j: usize = from;
    proof {
        assert(start + fill(w@, from as int, from as int) =~= start);
    }
    while j < to
        invariant
            from <= j <= to,
            to <= w@.len(),
            tokens@ == start + fill(w@, from as int, j as int),
        decreases to - j,
    {
        tokens.push(Token::Padding(w[j]));
        push_sep_after(tokens, j, w.len());
        proof {
            assert(tokens@ =~= start + fill(w@, from as int, j + 1));
        }
        j = j + 1;
    }
}

/// Appends the row separator line, when there is a row separator.
fn push_sep_line(tokens: &mut Vec<Token>, row_separator: Option<char>, total: usize, w: Ghost<Seq<usize>>)
    requires
        total == total_width(w@),
    ensures
        final(tokens)@ == old(tokens)@ + sep_line(row_separator, w@),
{
    let ghost start = tokens@;
    if row_separator.is_some() {
        tokens.push(Token::RowSeparator(total));
        tokens.push(Token::NewLine);
    }
    proof {
        assert(tokens@ =~= start + sep_line(row_separator, w@));
    }
}

/// A prefix of the columns is no wider than all of them.
proof fn lemma_total_prefix(w: Seq<usize>, j: int)
    requires
        0 <= j <= w.len(),
    ensures
        total_width(w.subrange(0, j)) <= total_width(w),
    decreases w.len() - j,
{
    if j < w.len() {
        lemma_total_prefix(w, j + 1);
        assert(w.subrange(0, j + 1).drop_last() =~= w.subrange(0, j));
    } else {
        assert(w.subrange(0, j) =~= w);
    }
}

/// The width of a row separator line.
fn total_of(w: &Vec<usize>) -> (r: usize)
    requires
        total_width(w@) <= usize::MAX,
    ensures
        r == total_width(w@),
{
    let mut acc: usize = 0;
    let mut j: usize = 0;
    proof {
        assert(w@.subrange(0, 0) =~= Seq::<usize>::empty());
    }
    while j < w.len()
        invariant
            j <= w@.len(),
            total_width(w@) <= usize::MAX,
            acc == total_width(w@.subrange(0, j as int)),
        decreases w@.len() - j,
    {
        proof {
            assert(w@.subrange(0, j + 1).drop_last() =~= w@.subrange(0, j as int));
            lemma_total_prefix(w@, j + 1);
        }
        acc = acc + w[j] + 1;
        j = j + 1;
    }
    proof {
        assert(w@.subrange(0, w@.len() as int) =~= w@);
    }
    acc
}

/// Relies on the `ToString` of `char`: the string of that one character.
#[verifier::external_body]
fn char_string(c: char) -> (r: String)
    ensures
        r@ == seq![c],
{
    c.to_string()
}

impl Table {
    /// The pieces the table is laid out in, in order.
    pub fn tokenize(&self) -> (r: Vec<Token>)
        requires
            self.can_layout(),
        ensures
            r@ == self.tokens_spec(),
    {
        let w = self.column_widths();
        let ncols = w.len();
        let mut tokens: Vec<Token> = Vec::new();
        let hn = self.headers.len();
        if hn > 0 {
            push_cells(&mut tokens, &self.headers, &w, hn - 1);
            tokens.push(Token::NewLine);
        }
        proof {
            assert(tokens@ =~= header_tokens(self.headers@, w@));
        }
        let total = total_of(&w);
        let ghost sep = sep_line(self.row_separator, w@);
        let ghost head = tokens@;
        push_sep_line(&mut tokens, self.row_separator, total, Ghost(w@));
        let ghost prefix = tokens@;
        let rows = &self.rows;
        let mut r: usize = 0;
        proof {
            assert(rows@.subrange(0, 0) =~= Seq::<Vec<Cell>>::empty());
            assert(prefix + rows_tokens(rows@.subrange(0, 0), w@, sep) =~= prefix);
        }
        while r < rows.len()
            invariant
                r <= rows@.len(),
                ncols == w@.len(),
                ncols == n_cols(rows@),
                total == total_width(w@),
                sep == sep_line(self.row_separator, w@),
                rows == &self.rows,
                tokens@ == prefix + rows_tokens(rows@.subrange(0, r as int), w@, sep),
            decreases rows@.len() - r,
        {
            let row = &rows[r];
            let ghost before = tokens@;
            proof {
                lemma_row_within_cols(rows@, r as int);
            }
            let rl = row.len();
            if rl > 0 {
                push_cells(&mut tokens, row, &w, ncols - 1);
                if rl < ncols {
                    tokens.push(Token::ColumnSeparator);
                    push_fill(&mut tokens, &w, rl, ncols);
                }
            } else {
                push_fill(&mut tokens, &w, 0, ncols);
            }
            tokens.push(Token::NewLine);
            push_sep_line(&mut tokens, self.row_separator, total, Ghost(w@));
            proof {
                assert(tokens@ =~= before + row_tokens(row@, w@, sep));
                assert(rows@.subrange(0, r + 1).drop_last() =~= rows@.subrange(0, r as int));
                assert(rows@.subrange(0, r + 1).last() == *row);
                assert(tokens@ =~= prefix + rows_tokens(rows@.subrange(0, r + 1), w@, sep));
            }
            r = r + 1;
        }
        proof {
            assert(rows@.subrange(0, rows@.len() as int) =~= rows@);
            assert(tokens@ =~= self.tokens_spec());
        }
        tokens
    }

    /// The table as text: every piece in order, padding as spaces, a row
    /// separator line as that many separator characters.
    pub fn render(&self) -> (r: String)
        requires
            self.can_layout(),
        ensures
            r@ == tokens_text(self.tokens_spec(), self.spec_col_separator(), self.spec_row_separator()),
    {
        let tokens = self.tokenize();
        let col = char_string(self.col_separator);
        let rowc = match self.row_separator {
            Some(c) => c,
            None => '\0',
        };
        let row = char_string(rowc);
        let mut out = String::new();
        let n = tokens.len();
        let mut i: usize = 0;
        proof {
            reveal_strlit("\n");
            reveal_strlit(" ");
            assert(tokens@.subrange(0, 0) =~= Seq::<Token>::empty());
        }
        while i < n
            invariant
                n == tokens@.len(),
                i <= n,
                col@ == seq![self.col_separator],
                row@ == seq![rowc],
                rowc == match self.row_separator {
                    Some(c) => c,
                    None => '\0',
                },
                out@ == tokens_text(tokens@.subrange(0, i as int), self.col_separator, self.row_separator),
            decreases n - i,
        {
            let ghost before = out@;
            proof {
                assert(tokens@.subrange(0, i + 1).drop_last() =~= tokens@.subrange(0, i as int));
            }
            match &tokens[i] {
                Token::Text { text, .. } => {
                    out.append(text.as_str());
                },
                Token::Padding(k) => {
                    proof {
                        reveal_strlit(" ");
                    }
                    repeat(&mut out, " ", *k);
                },
                Token::ColumnSeparator => {
                    out.append(col.as_str());
                },
                Token::RowSeparator(k) => {
                    repeat(&mut out, row.as_str(), *k);
                },
                Token::NewLine => {
                    out.append("\n");
                    proof {
                        reveal_strlit("\n");
                    }
                },
            }
            proof {
                assert(out@ =~= before + token_text(tokens@[i as int], self.col_separator, self.row_separator));
            }
            i = i + 1;
        }
        proof {
            assert(tokens@.subrange(0, n as int) =~= tokens@);
        }
        out
    }
}

/// Appends `k` copies of the one-character string `s`.
fn repeat(out: &mut String, s: &str, k: usize)
    requires
        s@.len() == 1,
    ensures
        final(out)@ == old(out)@ + Seq::new(k as nat, |i: int| s@[0]),
{
    let ghost start = out@;
    let mut j: usize = 0;
    proof {
        assert(start + Seq::new(0, |i: int| s@[0]) =~= start);
    }
    while j < k
        invariant
            j <= k,
            s@.len() == 1,
            out@ == start + Seq::new(j as nat, |i: int| s@[0]),
        decreases k - j,
    {
        out.append(s);
        proof {
            assert(s@ =~= seq![s@[0]]);
            assert(out@ =~= start + Seq::new((j + 1) as nat, |i: int| s@[0]));
        }
        j = j + 1;
    }
}

/// Turning rows of values into a table.
pub trait IntoTable {
    fn into_table(self) -> Table;
}

impl IntoTable for Vec<Vec<Cell>> {
    fn into_table(self) -> Table {
        let mut table = Table::new();
        let mut rows = self;
        let n = rows.len();
        let mut i: usize = 0;
        while i < n
            invariant
                i <= n,
                rows@.len() == n - i,
            decreases n - i,
        {
            let row = rows.remove(0);
            table.push_row(row);
            i = i + 1;
        }
        table
    }
}

impl IntoTable for Vec<Vec<&str>> {
    fn into_table(self) -> Table {
        let mut table = Table::new();
        let mut i: usize = 0;
        while i < self.len()
            decreases self@.len() - i,
        {
            let mut row: Vec<Cell> = Vec::new();
            let mut j: usize = 0;
            while j < self[i].len()
                invariant
                    i < self@.len(),
                decreases self@[i as int]@.len() - j,
            {
                row.push(Cell::new(self[i][j]));
                j = j + 1;
            }
            table.push_row(row);
            i = i + 1;
        }
        table
    }
}

impl IntoTable for Vec<Vec<String>> {
    fn into_table(self) -> Table {
        let mut table = Table::new();
        let mut i: usize = 0;
        while i < self.len()
            decreases self@.len() - i,
        {
            let mut row: Vec<Cell> = Vec::new();
            let mut j: usize = 0;
            while j < self[i].len()
                invariant
                    i < self@.len(),
                decreases self@[i as int]@.len() - j,
            {
                row.push(Cell::new(self[i][j].as_str()));
                j = j + 1;
            }
            table.push_row(row);
            i = i + 1;
        }
        table
    }
}

/// No row is longer than the longest.
proof fn lemma_row_within_cols(rows: Seq<Vec<Cell>>, r: int)
    requires
        0 <= r < rows.len(),
    ensures
        rows[r]@.len() <= n_cols(rows),
    decreases rows.len(),
{
    if r < rows.len() - 1 {
        lemma_row_within_cols(rows.drop_last(), r);
    }
}

} // verus!
