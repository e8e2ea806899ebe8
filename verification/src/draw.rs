//! Styling for the ASCII debug grid: ANSI escape codes and the grid of
//! styled symbols that the renderer prints.

use vstd::prelude::*;

verus! {

/// Text styles of the ANSI escape sequence.
#[derive(Debug, Clone, Copy, PartialEq, Eq)]
pub enum TextStyle {
    Reset,
    Bold,
    Dim,
    Underline,
    Reversed,
    Hidden,
}

/// Text colors of the ANSI escape sequence.
#[derive(Debug, Clone, Copy, PartialEq, Eq)]
pub enum TextColor {
    Black,
    Red,
    Green,
    Yellow,
    Blue,
    Magenta,
    Cyan,
    White,
}

/// A foreground color with an optional background color and style.
#[derive(Debug, Clone, Copy, PartialEq, Eq)]
pub struct ColorStyle {
    pub text_color: TextColor,
    pub background_color: Option<TextColor>,
    pub style: Option<TextStyle>,
}

/// The two-digit ANSI code selecting `c` as the foreground color.
pub open spec fn fg_code(c: TextColor) -> Seq<char> {
    match c {
        TextColor::Black => seq!['3', '0'],
        TextColor::Red => seq!['3', '1'],
        TextColor::Green => seq!['3', '2'],
        TextColor::Yellow => seq!['3', '3'],
        TextColor::Blue => seq!['3', '4'],
        TextColor::Magenta => seq!['3', '5'],
        TextColor::Cyan => seq!['3', '6'],
        TextColor::White => seq!['3', '7'],
    }
}

/// The two-digit ANSI code selecting `c` as the background color.
pub open spec fn bg_code(c: TextColor) -> Seq<char> {
    match c {
        TextColor::Black => seq!['4', '0'],
        TextColor::Red => seq!['4', '1'],
        TextColor::Green => seq!['4', '2'],
        TextColor::Yellow => seq!['4', '3'],
        TextColor::Blue => seq!['4', '4'],
        TextColor::Magenta => seq!['4', '5'],
        TextColor::Cyan => seq!['4', '6'],
        TextColor::White => seq!['4', '7'],
    }
}

/// The one-digit ANSI code selecting text style `s`.
pub open spec fn style_code(s: TextStyle) -> Seq<char> {
    match s {
        TextStyle::Reset => seq!['0'],
        TextStyle::Bold => seq!['1'],
        TextStyle::Dim => seq!['2'],
        TextStyle::Underline => seq!['4'],
        TextStyle::Reversed => seq!['7'],
        TextStyle::Hidden => seq!['8'],
    }
}

/// The full ANSI escape sequence for a color style: the escape introducer,
/// the codes that are present joined by semicolons, and the final `m`.
pub open spec fn ansi_of(cs: ColorStyle) -> Seq<char> {
    seq!['\x1b', '['] + fg_code(cs.text_color) + (match cs.background_color {
        Some(bg) => seq![';'] + bg_code(bg),
        None => Seq::<char>::empty(),
    }) + (match cs.style {
        Some(st) => seq![';'] + style_code(st),
        None => Seq::<char>::empty(),
    }) + seq!['m']
}

fn fg_str(c: TextColor) -> (r: &'static str)
    ensures
        r@ == fg_code(c),
{
    match c {
        TextColor::Black => {
            proof {
                reveal_strlit("30");
                assert("30"@ =~= seq!['3', '0']);
            }
            "30"
        }
        TextColor::Red => {
            proof {
                reveal_strlit("31");
                assert("31"@ =~= seq!['3', '1']);
            }
            "31"
        }
        TextColor::Green => {
            proof {
                reveal_strlit("32");
                assert("32"@ =~= seq!['3', '2']);
            }
            "32"
        }
        TextColor::Yellow => {
            proof {
                reveal_strlit("33");
                assert("33"@ =~= seq!['3', '3']);
            }
            "33"
        }
        TextColor::Blue => {
            proof {
                reveal_strlit("34");
                assert("34"@ =~= seq!['3', '4']);
            }
            "34"
        }
        TextColor::Magenta => {
            proof {
                reveal_strlit("35");
                assert("35"@ =~= seq!['3', '5']);
            }
            "35"
        }
        TextColor::Cyan => {
            proof {
                reveal_strlit("36");
                assert("36"@ =~= seq!['3', '6']);
            }
            "36"
        }
        TextColor::White => {
            proof {
                reveal_strlit("37");
                assert("37"@ =~= seq!['3', '7']);
            }
            "37"
        }
    }
}

fn bg_str(c: TextColor) -> (r: &'static str)
    ensures
        r@ == bg_code(c),
{
    match c {
        TextColor::Black => {
            proof {
                reveal_strlit("40");
                assert("40"@ =~= seq!['4', '0']);
            }
            "40"
        }
        TextColor::Red => {
            proof {
                reveal_strlit("41");
                assert("41"@ =~= seq!['4', '1']);
            }
            "41"
        }
        TextColor::Green => {
            proof {
                reveal_strlit("42");
                assert("42"@ =~= seq!['4', '2']);
            }
            "42"
        }
        TextColor::Yellow => {
            proof {
                reveal_strlit("43");
                assert("43"@ =~= seq!['4', '3']);
            }
            "43"
        }
        TextColor::Blue => {
            proof {
                reveal_strlit("44");
                assert("44"@ =~= seq!['4', '4']);
            }
            "44"
        }
        TextColor::Magenta => {
            proof {
                reveal_strlit("45");
                assert("45"@ =~= seq!['4', '5']);
            }
            "45"
        }
        TextColor::Cyan => {
            proof {
                reveal_strlit("46");
                assert("46"@ =~= seq!['4', '6']);
            }
            "46"
        }
        TextColor::White => {
            proof {
                reveal_strlit("47");
                assert("47"@ =~= seq!['4', '7']);
            }
            "47"
        }
    }
}

fn style_str(s: TextStyle) -> (r: &'static str)
    ensures
        r@ == style_code(s),
{
    match s {
        TextStyle::Reset => {
            proof {
                reveal_strlit("0");
                assert("0"@ =~= seq!['0']);
            }
            "0"
        }
        TextStyle::Bold => {
            proof {
                reveal_strlit("1");
                assert("1"@ =~= seq!['1']);
            }
            "1"
        }
        TextStyle::Dim => {
            proof {
                reveal_strlit("2");
                assert("2"@ =~= seq!['2']);
            }
            "2"
        }
        TextStyle::Underline => {
            proof {
                reveal_strlit("4");
                assert("4"@ =~= seq!['4']);
            }
            "4"
        }
        TextStyle::Reversed => {
            proof {
                reveal_strlit("7");
                assert("7"@ =~= seq!['7']);
            }
            "7"
        }
        TextStyle::Hidden => {
            proof {
                reveal_strlit("8");
                assert("8"@ =~= seq!['8']);
            }
            "8"
        }
    }
}

impl ColorStyle {
    /// Renders the ANSI escape sequence that switches the terminal to this
    /// color and style.
    pub fn color_style_to_ansi(&self) -> (r: String)
        ensures
            r@ == ansi_of(*self),
    {
        proof {
            reveal_strlit("\x1b[");
            reveal_strlit(";");
            reveal_strlit("m");
            assert("\x1b["@ =~= seq!['\x1b', '[']);
            assert(";"@ =~= seq![';']);
            assert("m"@ =~= seq!['m']);
        }
        let mut s = String::from_str("\x1b[");
        s.append(fg_str(self.text_color));
        if let Some(bg) = self.background_color {
            s.append(";");
            s.append(bg_str(bg));
        }
        if let Some(st) = self.style {
            s.append(";");
            s.append(style_str(st));
        }
        s.append("m");
        proof {
            assert(s@ =~= ansi_of(*self));
        }
        s
    }
}

impl Default for ColorStyle {
    /// White text on no particular background, with the style reset.
    fn default() -> (r: Self)
        ensures
            r == (ColorStyle {
                text_color: TextColor::White,
                background_color: None,
                style: Some(TextStyle::Reset),
            }),
    {
        Self { text_color: TextColor::White, background_color: None, style: Some(TextStyle::Reset) }
    }
}

/// The palette the demo scenes cycle through.
pub fn get_styles() -> (r: Vec<ColorStyle>)
    ensures
        r@.len() == 8,
        r@[0] == (ColorStyle { text_color: TextColor::Red, background_color: None, style: None }),
        r@[1] == (ColorStyle {
            text_color: TextColor::Green,
            background_color: Some(TextColor::Black),
            style: Some(TextStyle::Bold),
        }),
        r@[2] == (ColorStyle {
            text_color: TextColor::Blue,
            background_color: Some(TextColor::Yellow),
            style: Some(TextStyle::Underline),
        }),
        r@[3] == (ColorStyle {
            text_color: TextColor::Magenta,
            background_color: None,
            style: Some(TextStyle::Reversed),
        }),
        r@[4] == (ColorStyle {
            text_color: TextColor::Cyan,
            background_color: Some(TextColor::Red),
            style: Some(TextStyle::Dim),
        }),
        r@[5] == (ColorStyle {
            text_color: TextColor::White,
            background_color: Some(TextColor::Blue),
            style: Some(TextStyle::Hidden),
        }),
        r@[6] == (ColorStyle {
            text_color: TextColor::Black,
            background_color: Some(TextColor::Green),
            style: Some(TextStyle::Bold),
        }),
        r@[7] == (ColorStyle {
            text_color: TextColor::Yellow,
            background_color: None,
            style: Some(TextStyle::Underline),
        }),
{
    let mut v: Vec<ColorStyle> = Vec::new();
    v.push(ColorStyle { text_color: TextColor::Red, background_color: None, style: None });
    v.push(ColorStyle {
        text_color: TextColor::Green,
        background_color: Some(TextColor::Black),
        style: Some(TextStyle::Bold),
    });
    v.push(ColorStyle {
        text_color: TextColor::Blue,
        background_color: Some(TextColor::Yellow),
        style: Some(TextStyle::Underline),
    });
    v.push(ColorStyle {
        text_color: TextColor::Magenta,
        background_color: None,
        style: Some(TextStyle::Reversed),
    });
    v.push(ColorStyle {
        text_color: TextColor::Cyan,
        background_color: Some(TextColor::Red),
        style: Some(TextStyle::Dim),
    });
    v.push(ColorStyle {
        text_color: TextColor::White,
        background_color: Some(TextColor::Blue),
        style: Some(TextStyle::Hidden),
    });
    v.push(ColorStyle {
        text_color: TextColor::Black,
        background_color: Some(TextColor::Green),
        style: Some(TextStyle::Bold),
    });
    v.push(ColorStyle {
        text_color: TextColor::Yellow,
        background_color: None,
        style: Some(TextStyle::Underline),
    });
    v
}

/// One cell of the debug grid: a symbol and the style it is printed in.
#[derive(Debug, Clone, Copy, PartialEq, Eq)]
pub struct StyledSymbol {
    pub symbol: char,
    pub style: ColorStyle,
}

impl Default for StyledSymbol {
    /// A blank cell in the default color style.
    fn default() -> (r: Self)
        ensures
            r == (StyledSymbol {
                symbol: ' ',
                style: ColorStyle {
                    text_color: TextColor::White,
                    background_color: None,
                    style: Some(TextStyle::Reset),
                },
            }),
    {
        Self {
            symbol: ' ',
            style: ColorStyle {
                text_color: TextColor::White,
                background_color: None,
                style: Some(TextStyle::Reset),
            },
        }
    }
}

/// Pairs a symbol with the style it should be printed in.
pub fn create_styled_symbol(symbol: char, style: ColorStyle) -> (r: StyledSymbol)
    ensures
        r == (StyledSymbol { symbol, style }),
{
    StyledSymbol { symbol, style }
}

/// The style the grid's tick lines are drawn in.
pub open spec fn tick_style() -> ColorStyle {
    ColorStyle { text_color: TextColor::Cyan, background_color: None, style: Some(TextStyle::Bold) }
}

/// The style the grid's axis labels and arrows are drawn in.
pub open spec fn label_style() -> ColorStyle {
    ColorStyle {
        text_color: TextColor::Magenta,
        background_color: None,
        style: Some(TextStyle::Bold),
    }
}

/// A blank grid cell.
pub open spec fn blank_cell() -> StyledSymbol {
    StyledSymbol {
        symbol: ' ',
        style: ColorStyle {
            text_color: TextColor::White,
            background_color: None,
            style: Some(TextStyle::Reset),
        },
    }
}

/// The character for one decimal digit.
pub open spec fn digit_char(d: int) -> char {
    if d == 0 {
        '0'
    } else if d == 1 {
        '1'
    } else if d == 2 {
        '2'
    } else if d == 3 {
        '3'
    } else if d == 4 {
        '4'
    } else if d == 5 {
        '5'
    } else if d == 6 {
        '6'
    } else if d == 7 {
        '7'
    } else if d == 8 {
        '8'
    } else {
        '9'
    }
}

/// The decimal digits of `n`, most significant first.
pub open spec fn decimal_digits(n: int) -> Seq<char>
    recommends
        n >= 0,
    decreases n,
{
    if n < 10 {
        seq![digit_char(n)]
    } else {
        decimal_digits(n / 10).push(digit_char(n % 10))
    }
}

/// A number has at least one decimal digit, and at least two from ten up.
pub proof fn lemma_decimal_digits_len(n: int)
    requires
        n >= 0,
    ensures
        decimal_digits(n).len() >= 1,
        n >= 10 ==> decimal_digits(n).len() >= 2,
    decreases n,
{
    if n >= 10 {
        lemma_decimal_digits_len(n / 10);
    }
}

/// The first character of an axis label, which pads one-digit numbers
/// with a leading space to a width of two.
pub open spec fn label_char_0(n: int) -> char {
    if n < 10 {
        ' '
    } else {
        decimal_digits(n)[0]
    }
}

/// The second character of an axis label.
pub open spec fn label_char_1(n: int) -> char {
    if n < 10 {
        digit_char(n)
    } else {
        decimal_digits(n)[1]
    }
}

fn digit_to_char(d: usize) -> (c: char)
    requires
        d < 10,
    ensures
        c == digit_char(d as int),
{
    if d == 0 {
        '0'
    } else if d == 1 {
        '1'
    } else if d == 2 {
        '2'
    } else if d == 3 {
        '3'
    } else if d == 4 {
        '4'
    } else if d == 5 {
        '5'
    } else if d == 6 {
        '6'
    } else if d == 7 {
        '7'
    } else if d == 8 {
        '8'
    } else {
        '9'
    }
}

/// The two characters of the width-two axis label for `n`.
fn label_chars(n: usize) -> (r: (char, char))
    ensures
        r.0 == label_char_0(n as int),
        r.1 == label_char_1(n as int),
{
    if n < 10 {
        (' ', digit_to_char(n))
    } else {
        let ghost full: Seq<char> = decimal_digits(n as int);
        let mut digits: Vec<char> = Vec::new();
        let mut cur: usize = n;
        loop
            invariant_except_break
                full.len() == decimal_digits(cur as int).len() + digits@.len(),
                decimal_digits(cur as int) == full.subrange(0, full.len() - digits@.len()),
            invariant
                full == decimal_digits(n as int),
                forall|j: int|
                    0 <= j < digits@.len() ==> digits@[j] == full[full.len() - 1 - j],
            ensures
                digits@.len() == full.len(),
            decreases cur,
        {
            proof {
                let k = digits@.len() as int;
                let rem = decimal_digits(cur as int);
                assert(rem.len() == full.len() - k);
                if cur >= 10 {
                    assert(rem == decimal_digits(cur as int / 10).push(
                        digit_char(cur as int % 10),
                    ));
                    assert(rem[rem.len() - 1] == digit_char(cur as int % 10));
                    assert(decimal_digits(cur as int / 10) =~= full.subrange(
                        0,
                        full.len() - k - 1,
                    ));
                } else {
                    assert(rem == seq![digit_char(cur as int)]);
                    assert(cur as int % 10 == cur as int);
                    assert(rem[rem.len() - 1] == digit_char(cur as int % 10));
                }
                assert(rem[rem.len() - 1] == full.subrange(0, full.len() - k)[full.len() - k
                    - 1]);
                assert(full[full.len() - 1 - k] == digit_char(cur as int % 10));
            }
            let d = cur % 10;
            digits.push(digit_to_char(d));
            if cur < 10 {
                break;
            }
            cur = cur / 10;
        }
        proof {
            lemma_decimal_digits_len(n as int);
        }
        let c0 = digits[digits.len() - 1];
        let c1 = digits[digits.len() - 2];
        (c0, c1)
    }
}

/// What the tick-and-label pass leaves in cell `(r, c)`, before the axis
/// arrows are drawn.  The pass walks one index `i` from 0 up: iteration
/// `i` first draws the x-axis tick and labels into column `i`, then the
/// y-axis tick and labels into row `i`, so of two writes to the same cell
/// the one with the larger index — and at equal indices the y-axis one —
/// survives.
pub open spec fn grid_cell_ticks(grid_size: int, r: int, c: int) -> StyledSymbol {
    let x_axis_write = r == grid_size - 2 || ((r == grid_size - 1 || r == grid_size - 3) && c % 2
        == 0);
    let y_axis_write = c == 1 || ((c == 0 || c == 2) && r % 2 == 0);
    if x_axis_write && (!y_axis_write || c > r) {
        if r == grid_size - 2 {
            StyledSymbol { symbol: '─', style: tick_style() }
        } else if r == grid_size - 1 {
            StyledSymbol { symbol: label_char_0(c), style: label_style() }
        } else {
            StyledSymbol { symbol: label_char_1(c), style: label_style() }
        }
    } else if y_axis_write {
        if c == 1 {
            StyledSymbol { symbol: '│', style: tick_style() }
        } else if c == 0 {
            StyledSymbol { symbol: label_char_0(r), style: label_style() }
        } else {
            StyledSymbol { symbol: label_char_1(r), style: label_style() }
        }
    } else {
        blank_cell()
    }
}

/// What cell `(r, c)` of a fresh debug grid holds.  The axis arrows are
/// drawn after the ticks and labels and override them on the center row
/// and column.
pub open spec fn grid_cell(grid_size: int, r: int, c: int) -> StyledSymbol {
    let center = grid_size / 2;
    if r < center && c == center {
        StyledSymbol { symbol: '│', style: label_style() }
    } else if r == center && c == center {
        StyledSymbol { symbol: '┬', style: label_style() }
    } else if r == center && c > center {
        StyledSymbol { symbol: '─', style: label_style() }
    } else {
        grid_cell_ticks(grid_size, r, c)
    }
}

fn grid_cell_at(grid_size: usize, r: usize, c: usize) -> (s: StyledSymbol)
    requires
        3 <= grid_size,
        r < grid_size,
        c < grid_size,
    ensures
        s == grid_cell(grid_size as int, r as int, c as int),
{
    let center = grid_size / 2;
    let tick = ColorStyle {
        text_color: TextColor::Cyan,
        background_color: None,
        style: Some(TextStyle::Bold),
    };
    let label = ColorStyle {
        text_color: TextColor::Magenta,
        background_color: None,
        style: Some(TextStyle::Bold),
    };
    if r < center && c == center {
        StyledSymbol { symbol: '│', style: label }
    } else if r == center && c == center {
        StyledSymbol { symbol: '┬', style: label }
    } else if r == center && c > center {
        StyledSymbol { symbol: '─', style: label }
    } else {
        let x_axis_write = r == grid_size - 2 || ((r == grid_size - 1 || r == grid_size - 3) && c
            % 2 == 0);
        let y_axis_write = c == 1 || ((c == 0 || c == 2) && r % 2 == 0);
        if x_axis_write && (!y_axis_write || c > r) {
            if r == grid_size - 2 {
                StyledSymbol { symbol: '─', style: tick }
            } else if r == grid_size - 1 {
                let chars = label_chars(c);
                StyledSymbol { symbol: chars.0, style: label }
            } else {
                let chars = label_chars(c);
                StyledSymbol { symbol: chars.1, style: label }
            }
        } else if y_axis_write {
            if c == 1 {
                StyledSymbol { symbol: '│', style: tick }
            } else if c == 0 {
                let chars = label_chars(r);
                StyledSymbol { symbol: chars.0, style: label }
            } else {
                let chars = label_chars(r);
                StyledSymbol { symbol: chars.1, style: label }
            }
        } else {
            StyledSymbol {
                symbol: ' ',
                style: ColorStyle {
                    text_color: TextColor::White,
                    background_color: None,
                    style: Some(TextStyle::Reset),
                },
            }
        }
    }
}

/// Builds the square debug grid: blank cells, tick lines two cells in
/// from the bottom and one in from the left, width-two labels on every
/// other row and column, and the two axis arrows meeting in a `┬` at the
/// center.
pub fn make_grid(grid_size: usize) -> (grid: Vec<Vec<StyledSymbol>>)
    requires
        3 <= grid_size,
    ensures
        grid@.len() == grid_size,
        forall|r: int| 0 <= r < grid_size ==> #[trigger] grid@[r]@.len() == grid_size,
        forall|r: int, c: int|
            0 <= r < grid_size && 0 <= c < grid_size ==> #[trigger] grid@[r]@[c] == grid_cell(
                grid_size as int,
                r,
                c,
            ),
{
    let mut grid: Vec<Vec<StyledSymbol>> = Vec::new();
    let mut r: usize = 0;
    while r < grid_size
        invariant
            3 <= grid_size,
            r <= grid_size,
            grid@.len() == r,
            forall|a: int| 0 <= a < r ==> #[trigger] grid@[a]@.len() == grid_size,
            forall|a: int, b: int|
                0 <= a < r && 0 <= b < grid_size ==> #[trigger] grid@[a]@[b] == grid_cell(
                    grid_size as int,
                    a,
                    b,
                ),
        decreases grid_size - r,
    {
        let mut row: Vec<StyledSymbol> = Vec::new();
        let mut c: usize = 0;
        while c < grid_size
            invariant
                3 <= grid_size,
                r < grid_size,
                c <= grid_size,
                row@.len() == c,
                forall|b: int|
                    0 <= b < c ==> #[trigger] row@[b] == grid_cell(grid_size as int, r as int, b),
            decreases grid_size - c,
        {
            row.push(grid_cell_at(grid_size, r, c));
            c = c + 1;
        }
        grid.push(row);
        r = r + 1;
    }
    grid
}

} // verus!
