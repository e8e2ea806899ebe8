use sylt_2d::draw::{
    create_styled_symbol, get_styles, make_grid, ColorStyle, StyledSymbol, TextColor, TextStyle,
};

#[test]
fn test_color_style_to_ansi() {
    let style = ColorStyle {
        text_color: TextColor::Red,
        background_color: Some(TextColor::Blue),
        style: Some(TextStyle::Bold),
    };

    let ansi_code = style.color_style_to_ansi();
    assert_eq!(ansi_code, "\x1b[31;44;1m", "Incorrect ANSI code generated");
}

#[test]
fn ansi_without_background_or_style() {
    let style = ColorStyle { text_color: TextColor::Green, background_color: None, style: None };
    assert_eq!(style.color_style_to_ansi(), "\x1b[32m");
}

#[test]
fn ansi_with_style_only() {
    let style = ColorStyle {
        text_color: TextColor::White,
        background_color: None,
        style: Some(TextStyle::Underline),
    };
    assert_eq!(style.color_style_to_ansi(), "\x1b[37;4m");
}

#[test]
fn ansi_of_default_style() {
    let style = ColorStyle::default();
    assert_eq!(style.color_style_to_ansi(), "\x1b[37;0m");
}

#[test]
fn styles_palette_contents() {
    let styles = get_styles();
    assert_eq!(styles.len(), 8);
    assert_eq!(
        styles[0],
        ColorStyle { text_color: TextColor::Red, background_color: None, style: None }
    );
    assert_eq!(
        styles[4],
        ColorStyle {
            text_color: TextColor::Cyan,
            background_color: Some(TextColor::Red),
            style: Some(TextStyle::Dim),
        }
    );
    assert_eq!(
        styles[6],
        ColorStyle {
            text_color: TextColor::Black,
            background_color: Some(TextColor::Green),
            style: Some(TextStyle::Bold),
        }
    );
    assert_eq!(
        styles[7],
        ColorStyle {
            text_color: TextColor::Yellow,
            background_color: None,
            style: Some(TextStyle::Underline),
        }
    );
}

#[test]
fn styled_symbol_construction() {
    let style = ColorStyle { text_color: TextColor::Cyan, background_color: None, style: None };
    let sym = create_styled_symbol('X', style);
    assert_eq!(sym, StyledSymbol { symbol: 'X', style });
    assert_eq!(
        StyledSymbol::default(),
        StyledSymbol { symbol: ' ', style: ColorStyle::default() }
    );
}

fn tick_style() -> ColorStyle {
    ColorStyle { text_color: TextColor::Cyan, background_color: None, style: Some(TextStyle::Bold) }
}

fn label_style() -> ColorStyle {
    ColorStyle {
        text_color: TextColor::Magenta,
        background_color: None,
        style: Some(TextStyle::Bold),
    }
}

#[test]
fn grid_dimensions() {
    let grid = make_grid(20);
    assert_eq!(grid.len(), 20);
    for row in &grid {
        assert_eq!(row.len(), 20);
    }
}

#[test]
fn grid_axis_arrows() {
    let grid = make_grid(6);
    assert_eq!(grid[3][3], create_styled_symbol('┬', label_style()));
    assert_eq!(grid[3][4], create_styled_symbol('─', label_style()));
    assert_eq!(grid[3][5], create_styled_symbol('─', label_style()));
    assert_eq!(grid[2][3], create_styled_symbol('│', label_style()));
    assert_eq!(grid[0][3], create_styled_symbol('│', label_style()));
}

#[test]
fn grid_ticks_and_labels() {
    let grid = make_grid(6);
    // y-axis tick column wins over the x-axis tick row drawn earlier
    assert_eq!(grid[4][1], create_styled_symbol('│', tick_style()));
    assert_eq!(grid[0][1], create_styled_symbol('│', tick_style()));
    assert_eq!(grid[5][1], create_styled_symbol('│', tick_style()));
    // x-axis tick row where no later write lands
    assert_eq!(grid[4][4], create_styled_symbol('─', tick_style()));
    // x-axis labels below the tick row: " 0", " 2", " 4" written vertically
    assert_eq!(grid[5][0], create_styled_symbol(' ', label_style()));
    assert_eq!(grid[3][0], create_styled_symbol('0', label_style()));
    assert_eq!(grid[3][2], create_styled_symbol('2', label_style()));
    // y-axis labels overwrite the x-axis tick row, drawn at a later index
    assert_eq!(grid[4][0], create_styled_symbol(' ', label_style()));
    assert_eq!(grid[4][2], create_styled_symbol('4', label_style()));
    // y-axis labels on even rows
    assert_eq!(grid[0][0], create_styled_symbol(' ', label_style()));
    assert_eq!(grid[0][2], create_styled_symbol('0', label_style()));
    assert_eq!(grid[2][2], create_styled_symbol('2', label_style()));
    // untouched cells stay blank
    assert_eq!(grid[0][5], StyledSymbol::default());
    assert_eq!(grid[1][4], StyledSymbol::default());
}

#[test]
fn grid_two_digit_labels() {
    let grid = make_grid(20);
    // label "10": first digit on the bottom row, second two rows above
    assert_eq!(grid[19][10], create_styled_symbol('1', label_style()));
    assert_eq!(grid[17][10], create_styled_symbol('0', label_style()));
    assert_eq!(grid[10][0], create_styled_symbol('1', label_style()));
    assert_eq!(grid[10][2], create_styled_symbol('0', label_style()));
}

#[test]
fn grid_labels_truncate_to_two_chars() {
    let grid = make_grid(104);
    // label "102" keeps only its first two characters
    assert_eq!(grid[102][0], create_styled_symbol('1', label_style()));
    assert_eq!(grid[102][2], create_styled_symbol('0', label_style()));
}
