//! ANSI escape sequences for Discord's `ansi` code blocks, and the colour
//! palette that the `ansi_test` command prints.
use vstd::prelude::*;

verus! {

/// Foreground colours that Discord renders in `ansi` code blocks.
#[derive(Debug, Clone, Copy, PartialEq, Eq, Structural)]
pub enum TextColors {
    Grey,
    Red,
    Green,
    Yellow,
    Blue,
    Pink,
    Cyan,
    White,
    /// No foreground colour (printed as `None` by the palette).
    Unset,
}

/// Background colours that Discord renders in `ansi` code blocks.
#[derive(Debug, Clone, Copy, PartialEq, Eq, Structural)]
pub enum BgColors {
    DarkBlue,
    Orange,
    MarbleBlue,
    Turqoise,
    Grey,
    Indigo,
    LightGrey,
    White,
    /// No background colour (printed as `None` by the palette).
    Unset,
}

/// Text styles.
#[derive(Debug, Clone, Copy, PartialEq, Eq, Structural)]
pub enum Style {
    Normal,
    Bold,
    Underline,
    /// No style given; renders as the normal style.
    Unset,
}

/// The SGR parameter that selects the style.
pub open spec fn style_code(s: Style) -> Seq<char> {
    match s {
        Style::Bold => "1"@,
        Style::Underline => "4"@,
        _ => "0"@,
    }
}

/// The SGR parameter (with its separator) that selects the foreground colour.
pub open spec fn text_color_code(c: TextColors) -> Seq<char> {
    match c {
        TextColors::Grey => ";30"@,
        TextColors::Red => ";31"@,
        TextColors::Green => ";32"@,
        TextColors::Yellow => ";33"@,
        TextColors::Blue => ";34"@,
        TextColors::Pink => ";35"@,
        TextColors::Cyan => ";36"@,
        TextColors::White => ";37"@,
        TextColors::Unset => Seq::empty(),
    }
}

/// The SGR parameter (with its separator) that selects the background colour.
pub open spec fn bg_code(b: BgColors) -> Seq<char> {
    match b {
        BgColors::DarkBlue => ";40"@,
        BgColors::Orange => ";41"@,
        BgColors::MarbleBlue => ";42"@,
        BgColors::Turqoise => ";43"@,
        BgColors::Grey => ";44"@,
        BgColors::Indigo => ";45"@,
        BgColors::LightGrey => ";46"@,
        BgColors::White => ";47"@,
        BgColors::Unset => Seq::empty(),
    }
}

/// A reset, then one SGR sequence with the style, foreground and background.
pub open spec fn ansi_seq(color: TextColors, bg: BgColors, style: Style) -> Seq<char> {
    "\x1b[0m\x1b["@ + style_code(style) + text_color_code(color) + bg_code(bg) + "m"@
}

/// The escape sequence that switches to `style` in `color` on `bg`.
pub fn ansi(color: TextColors, bg: BgColors, style: Style) -> (r: String)
    ensures
        r@ == ansi_seq(color, bg, style),
{
    let mut ansi = String::new();
    ansi.append("\x1b[0m\x1b[");
    match style {
        Style::Bold => {
            ansi.append("1");
        },
        Style::Underline => {
            ansi.append("4");
        },
        _ => {
            ansi.append("0");
        },
    }
    match color {
        TextColors::Grey => {
            ansi.append(";30");
        },
        TextColors::Red => {
            ansi.append(";31");
        },
        TextColors::Green => {
            ansi.append(";32");
        },
        TextColors::Yellow => {
            ansi.append(";33");
        },
        TextColors::Blue => {
            ansi.append(";34");
        },
        TextColors::Pink => {
            ansi.append(";35");
        },
        TextColors::Cyan => {
            ansi.append(";36");
        },
        TextColors::White => {
            ansi.append(";37");
        },
        _ => {},
    }
    match bg {
        BgColors::DarkBlue => {
            ansi.append(";40");
        },
        BgColors::Orange => {
            ansi.append(";41");
        },
        BgColors::MarbleBlue => {
            ansi.append(";42");
        },
        BgColors::Turqoise => {
            ansi.append(";43");
        },
        BgColors::Grey => {
            ansi.append(";44");
        },
        BgColors::Indigo => {
            ansi.append(";45");
        },
        BgColors::LightGrey => {
            ansi.append(";46");
        },
        BgColors::White => {
            ansi.append(";47");
        },
        _ => {},
    }
    ansi.append("m");
    proof {
        assert(ansi@ =~= ansi_seq(color, bg, style));
    }
    ansi
}

// ---------------------------------------------------------------------------
// Names, as `{:?}` prints them
// ---------------------------------------------------------------------------

pub open spec fn text_color_name(c: TextColors) -> Seq<char> {
    match c {
        TextColors::Grey => "Grey"@,
        TextColors::Red => "Red"@,
        TextColors::Green => "Green"@,
        TextColors::Yellow => "Yellow"@,
        TextColors::Blue => "Blue"@,
        TextColors::Pink => "Pink"@,
        TextColors::Cyan => "Cyan"@,
        TextColors::White => "White"@,
        TextColors::Unset => "None"@,
    }
}

pub open spec fn bg_color_name(b: BgColors) -> Seq<char> {
    match b {
        BgColors::DarkBlue => "DarkBlue"@,
        BgColors::Orange => "Orange"@,
        BgColors::MarbleBlue => "MarbleBlue"@,
        BgColors::Turqoise => "Turqoise"@,
        BgColors::Grey => "Grey"@,
        BgColors::Indigo => "Indigo"@,
        BgColors::LightGrey => "LightGrey"@,
        BgColors::White => "White"@,
        BgColors::Unset => "None"@,
    }
}

impl TextColors {
    /// The variant's name, as `{:?}` prints it.
    pub fn debug_name(&self) -> (r: &'static str)
        ensures
            r@ == text_color_name(*self),
    {
        match self {
            TextColors::Grey => "Grey",
            TextColors::Red => "Red",
            TextColors::Green => "Green",
            TextColors::Yellow => "Yellow",
            TextColors::Blue => "Blue",
            TextColors::Pink => "Pink",
            TextColors::Cyan => "Cyan",
            TextColors::White => "White",
            TextColors::Unset => "None",
        }
    }
}

impl BgColors {
    /// The variant's name, as `{:?}` prints it.
    pub fn debug_name(&self) -> (r: &'static str)
        ensures
            r@ == bg_color_name(*self),
    {
        match self {
            BgColors::DarkBlue => "DarkBlue",
            BgColors::Orange => "Orange",
            BgColors::MarbleBlue => "MarbleBlue",
            BgColors::Turqoise => "Turqoise",
            BgColors::Grey => "Grey",
            BgColors::Indigo => "Indigo",
            BgColors::LightGrey => "LightGrey",
            BgColors::White => "White",
            BgColors::Unset => "None",
        }
    }
}

// ---------------------------------------------------------------------------
// The palette of the `ansi_test` command
// ---------------------------------------------------------------------------

/// The foreground colours in the order the palette shows them.
pub open spec fn palette_color(i: int) -> TextColors {
    if i == 0 {
        TextColors::Grey
    } else if i == 1 {
        TextColors::Red
    } else if i == 2 {
        TextColors::Green
    } else if i == 3 {
        TextColors::Yellow
    } else if i == 4 {
        TextColors::Blue
    } else if i == 5 {
        TextColors::Pink
    } else if i == 6 {
        TextColors::Cyan
    } else if i == 7 {
        TextColors::White
    } else {
        TextColors::Unset
    }
}

/// The background colours in the order the palette shows them.
pub open spec fn palette_bg(i: int) -> BgColors {
    if i == 0 {
        BgColors::DarkBlue
    } else if i == 1 {
        BgColors::Orange
    } else if i == 2 {
        BgColors::MarbleBlue
    } else if i == 3 {
        BgColors::Turqoise
    } else if i == 4 {
        BgColors::Grey
    } else if i == 5 {
        BgColors::Indigo
    } else if i == 6 {
        BgColors::LightGrey
    } else if i == 7 {
        BgColors::White
    } else {
        BgColors::Unset
    }
}

/// One palette line: a sample of `color` on `bg` in the plain, underlined and
/// bold styles, labelled with the colour names.
pub open spec fn palette_line(color: TextColors, bg: BgColors) -> Seq<char> {
    ansi_seq(color, bg, Style::Unset) + "[color]"@ + text_color_name(color) + " [bg]"@
        + bg_color_name(bg) + "  ||  [normal] "@ + ansi_seq(color, bg, Style::Underline)
        + "[underline] "@ + ansi_seq(color, bg, Style::Bold) + "[bold]\n"@
}

/// The lines for `color` on the first `n` palette backgrounds.
pub open spec fn palette_bg_lines(color: TextColors, n: nat) -> Seq<char>
    decreases n,
{
    if n == 0 {
        Seq::empty()
    } else {
        palette_bg_lines(color, (n - 1) as nat) + palette_line(color, palette_bg((n - 1) as int))
    }
}

/// The block for one foreground colour: the line without background, then
/// one line for each of the nine backgrounds.
pub open spec fn palette_block(color: TextColors) -> Seq<char> {
    palette_line(color, BgColors::Unset) + palette_bg_lines(color, 9)
}

/// One message of the palette: the text inside an `ansi` code block.
pub open spec fn ansi_code_block(body: Seq<char>) -> Seq<char> {
    "```ansi\n"@ + body + "\n```"@
}

/// The messages that `ansi_test` sends: one code block for each of the nine
/// foreground colours, and a last, empty one (the palette is cut into
/// messages after each colour's block, which leaves an empty last piece).
pub open spec fn palette_messages() -> Seq<Seq<char>> {
    Seq::new(
        10,
        |i: int|
            if i < 9 {
                ansi_code_block(palette_block(palette_color(i)))
            } else {
                ansi_code_block(Seq::empty())
            },
    )
}

fn palette_color_at(i: usize) -> (c: TextColors)
    ensures
        c == palette_color(i as int),
{
    if i == 0 {
        TextColors::Grey
    } else if i == 1 {
        TextColors::Red
    } else if i == 2 {
        TextColors::Green
    } else if i == 3 {
        TextColors::Yellow
    } else if i == 4 {
        TextColors::Blue
    } else if i == 5 {
        TextColors::Pink
    } else if i == 6 {
        TextColors::Cyan
    } else if i == 7 {
        TextColors::White
    } else {
        TextColors::Unset
    }
}

fn palette_bg_at(i: usize) -> (b: BgColors)
    ensures
        b == palette_bg(i as int),
{
    if i == 0 {
        BgColors::DarkBlue
    } else if i == 1 {
        BgColors::Orange
    } else if i == 2 {
        BgColors::MarbleBlue
    } else if i == 3 {
        BgColors::Turqoise
    } else if i == 4 {
        BgColors::Grey
    } else if i == 5 {
        BgColors::Indigo
    } else if i == 6 {
        BgColors::LightGrey
    } else if i == 7 {
        BgColors::White
    } else {
        BgColors::Unset
    }
}

/// Appends one palette line to `out`.
fn push_palette_line(out: &mut String, color: TextColors, bg: BgColors)
    ensures
        final(out)@ == old(out)@ + palette_line(color, bg),
{
    let plain = ansi(color, bg, Style::Unset);
    let underline = ansi(color, bg, Style::Underline);
    let bold = ansi(color, bg, Style::Bold);
    out.append(plain.as_str());
    out.append("[color]");
    out.append(color.debug_name());
    out.append(" [bg]");
    out.append(bg.debug_name());
    out.append("  ||  [normal] ");
    out.append(underline.as_str());
    out.append("[underline] ");
    out.append(bold.as_str());
    out.append("[bold]\n");
    proof {
        assert(out@ =~= old(out)@ + palette_line(color, bg));
    }
}

/// The text block for one foreground colour.
fn palette_block_text(color: TextColors) -> (r: String)
    ensures
        r@ == palette_block(color),
{
    let mut out = String::new();
    push_palette_line(&mut out, color, BgColors::Unset);
    let mut k: usize = 0;
    proof {
        assert(out@ =~= palette_line(color, BgColors::Unset) + palette_bg_lines(color, 0));
    }
    while k < 9
        invariant
            k <= 9,
            out@ == palette_line(color, BgColors::Unset) + palette_bg_lines(color, k as nat),
        decreases 9 - k,
    {
        push_palette_line(&mut out, color, palette_bg_at(k));
        proof {
            assert(out@ =~= palette_line(color, BgColors::Unset) + palette_bg_lines(
                color,
                (k + 1) as nat,
            ));
        }
        k = k + 1;
    }
    out
}

/// The text wrapped in an `ansi` code block.
fn code_block_text(body: &str) -> (r: String)
    ensures
        r@ == ansi_code_block(body@),
{
    let mut r = String::new();
    r.append("```ansi\n");
    r.append(body);
    r.append("\n```");
    proof {
        assert(r@ =~= ansi_code_block(body@));
    }
    r
}

/// The messages of the `ansi_test` command, in the order it sends them.
pub fn ansi_test_messages() -> (msgs: Vec<String>)
    ensures
        msgs.deep_view() == palette_messages(),
{
    let mut msgs: Vec<String> = Vec::new();
    let mut i: usize = 0;
    while i < 9
        invariant
            i <= 9,
            msgs.deep_view() == palette_messages().take(i as int),
        decreases 9 - i,
    {
        let block = palette_block_text(palette_color_at(i));
        let m = code_block_text(block.as_str());
        let ghost before = msgs.deep_view();
        msgs.push(m);
        proof {
            assert(msgs.deep_view() =~= before.push(m@));
            assert(palette_messages().take(i + 1) =~= palette_messages().take(i as int).push(
                palette_messages()[i as int],
            ));
        }
        i = i + 1;
    }
    let last = code_block_text("");
    proof {
        assert(""@ =~= Seq::<char>::empty()) by {
            reveal_strlit("");
        }
    }
    let ghost before = msgs.deep_view();
    msgs.push(last);
    proof {
        assert(msgs.deep_view() =~= before.push(last@));
        assert(palette_messages() =~= palette_messages().take(9).push(palette_messages()[9]));
        assert(msgs.deep_view() =~= palette_messages());
    }
    msgs
}

} // verus!
