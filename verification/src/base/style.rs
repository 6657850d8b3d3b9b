//! The visual representation of text on the terminal: formats (bold, italic, ...) and colors.
use vstd::prelude::*;

verus! {

/// Specifies how text is written to the terminal: "bold", "italic", "invert" and "underline"
/// can be combined freely.
#[derive(Clone, Copy, PartialEq, Eq, Debug, Structural)]
#[non_exhaustive]
pub struct TextFormat {
    pub bold: bool,
    pub italic: bool,
    pub invert: bool,
    pub underline: bool,
}

impl TextFormat {
    /// The format with all attributes switched off.
    pub open spec fn spec_plain() -> TextFormat {
        TextFormat { bold: false, italic: false, invert: false, underline: false }
    }
}

impl Default for TextFormat {
    fn default() -> (r: Self)
        ensures
            r == TextFormat::spec_plain(),
    {
        TextFormat { bold: false, italic: false, invert: false, underline: false }
    }
}

/// Specifies how to modify a bool value, i.e., one of the four unary boolean functions.
#[derive(Clone, Copy, Debug, PartialEq, Eq, Structural)]
pub enum BoolModifyMode {
    True,
    False,
    Toggle,
    LeaveUnchanged,
}

impl From<bool> for BoolModifyMode {
    /// `true` sets the value, `false` clears it.
    fn from(on: bool) -> (r: Self) {
        if on {
            BoolModifyMode::True
        } else {
            BoolModifyMode::False
        }
    }
}

impl vstd::std_specs::convert::FromSpecImpl<bool> for BoolModifyMode {
    open spec fn obeys_from_spec() -> bool {
        true
    }

    open spec fn from_spec(on: bool) -> Self {
        if on {
            BoolModifyMode::True
        } else {
            BoolModifyMode::False
        }
    }
}

impl BoolModifyMode {
    /// The value of `b` after it has been modified according to `self`.
    pub open spec fn spec_apply(self, b: bool) -> bool {
        match self {
            BoolModifyMode::True => true,
            BoolModifyMode::False => false,
            BoolModifyMode::Toggle => !b,
            BoolModifyMode::LeaveUnchanged => b,
        }
    }

    /// The combination of `self` on top of `other`.
    pub open spec fn spec_on_top_of(self, other: Self) -> Self {
        match (self, other) {
            (BoolModifyMode::True, _) => BoolModifyMode::True,
            (BoolModifyMode::False, _) => BoolModifyMode::False,
            (BoolModifyMode::Toggle, BoolModifyMode::True) => BoolModifyMode::False,
            (BoolModifyMode::Toggle, BoolModifyMode::False) => BoolModifyMode::True,
            (BoolModifyMode::Toggle, BoolModifyMode::Toggle) => BoolModifyMode::LeaveUnchanged,
            (BoolModifyMode::Toggle, BoolModifyMode::LeaveUnchanged) => BoolModifyMode::Toggle,
            (BoolModifyMode::LeaveUnchanged, m) => m,
        }
    }

    /// Combine `self` with `other` so that applying the result is the same as first applying
    /// `other` and then `self`.
    pub fn on_top_of(self, other: Self) -> (r: Self)
        ensures
            r == self.spec_on_top_of(other),
            forall|b: bool| #[trigger] r.spec_apply(b) == self.spec_apply(other.spec_apply(b)),
    {
        match (self, other) {
            (BoolModifyMode::True, _) => BoolModifyMode::True,
            (BoolModifyMode::False, _) => BoolModifyMode::False,
            (BoolModifyMode::Toggle, BoolModifyMode::True) => BoolModifyMode::False,
            (BoolModifyMode::Toggle, BoolModifyMode::False) => BoolModifyMode::True,
            (BoolModifyMode::Toggle, BoolModifyMode::Toggle) => BoolModifyMode::LeaveUnchanged,
            (BoolModifyMode::Toggle, BoolModifyMode::LeaveUnchanged) => BoolModifyMode::Toggle,
            (BoolModifyMode::LeaveUnchanged, m) => m,
        }
    }

    /// Modify the target bool according to the mode.
    pub fn modify(self, target: &mut bool)
        ensures
            *final(target) == self.spec_apply(*old(target)),
    {
        match self {
            BoolModifyMode::True => *target = true,
            BoolModifyMode::False => *target = false,
            BoolModifyMode::Toggle => *target = !*target,
            BoolModifyMode::LeaveUnchanged => {},
        }
    }

    /// The mode that sets a bool to `on`.
    pub fn from_bool(on: bool) -> (r: Self)
        ensures
            r == (if on { BoolModifyMode::True } else { BoolModifyMode::False }),
    {
        if on {
            BoolModifyMode::True
        } else {
            BoolModifyMode::False
        }
    }
}

/// Combining modes: applying `a.on_top_of(b)` to any bool is the same as applying `b` and then `a`.
pub proof fn law_bool_mode_on_top_of(a: BoolModifyMode, b: BoolModifyMode, x: bool)
    ensures
        a.spec_on_top_of(b).spec_apply(x) == a.spec_apply(b.spec_apply(x)),
{
}

/// Specifies how to modify a text format value.
#[derive(Clone, Copy, PartialEq, Eq, Debug, Structural)]
#[non_exhaustive]
pub struct TextFormatModifier {
    pub bold: BoolModifyMode,
    pub italic: BoolModifyMode,
    pub invert: BoolModifyMode,
    pub underline: BoolModifyMode,
}

impl TextFormatModifier {
    /// The modifier that leaves every attribute unchanged.
    pub open spec fn spec_new() -> Self {
        TextFormatModifier {
            bold: BoolModifyMode::LeaveUnchanged,
            italic: BoolModifyMode::LeaveUnchanged,
            invert: BoolModifyMode::LeaveUnchanged,
            underline: BoolModifyMode::LeaveUnchanged,
        }
    }

    /// The format `f` after it has been modified according to `self`.
    pub open spec fn spec_apply(self, f: TextFormat) -> TextFormat {
        TextFormat {
            bold: self.bold.spec_apply(f.bold),
            italic: self.italic.spec_apply(f.italic),
            invert: self.invert.spec_apply(f.invert),
            underline: self.underline.spec_apply(f.underline),
        }
    }

    /// The combination of `self` on top of `other`, attribute by attribute.
    pub open spec fn spec_on_top_of(self, other: Self) -> Self {
        TextFormatModifier {
            bold: self.bold.spec_on_top_of(other.bold),
            italic: self.italic.spec_on_top_of(other.italic),
            invert: self.invert.spec_on_top_of(other.invert),
            underline: self.underline.spec_on_top_of(other.underline),
        }
    }

    /// Construct a modifier that leaves all properties unchanged.
    pub fn new() -> (r: Self)
        ensures
            r == Self::spec_new(),
    {
        TextFormatModifier {
            bold: BoolModifyMode::LeaveUnchanged,
            italic: BoolModifyMode::LeaveUnchanged,
            invert: BoolModifyMode::LeaveUnchanged,
            underline: BoolModifyMode::LeaveUnchanged,
        }
    }

    /// Set the bold property of the modifier.
    pub fn bold(self, val: BoolModifyMode) -> (r: Self)
        ensures
            r == (TextFormatModifier { bold: val, ..self }),
    {
        TextFormatModifier { bold: val, ..self }
    }

    /// Set the italic property of the modifier.
    pub fn italic(self, val: BoolModifyMode) -> (r: Self)
        ensures
            r == (TextFormatModifier { italic: val, ..self }),
    {
        TextFormatModifier { italic: val, ..self }
    }

    /// Set the invert property of the modifier.
    pub fn invert(self, val: BoolModifyMode) -> (r: Self)
        ensures
            r == (TextFormatModifier { invert: val, ..self }),
    {
        TextFormatModifier { invert: val, ..self }
    }

    /// Set the underline property of the modifier.
    pub fn underline(self, val: BoolModifyMode) -> (r: Self)
        ensures
            r == (TextFormatModifier { underline: val, ..self }),
    {
        TextFormatModifier { underline: val, ..self }
    }

    /// Combine `self` with `other` so that applying the result is the same as first applying
    /// `other` and then `self`.
    pub fn on_top_of(self, other: TextFormatModifier) -> (r: Self)
        ensures
            r == self.spec_on_top_of(other),
    {
        TextFormatModifier {
            bold: self.bold.on_top_of(other.bold),
            italic: self.italic.on_top_of(other.italic),
            invert: self.invert.on_top_of(other.invert),
            underline: self.underline.on_top_of(other.underline),
        }
    }

    /// Modify the given format according to this modifier.
    pub fn modify(self, format: &mut TextFormat)
        ensures
            *final(format) == self.spec_apply(*old(format)),
    {
        self.bold.modify(&mut format.bold);
        self.italic.modify(&mut format.italic);
        self.invert.modify(&mut format.invert);
        self.underline.modify(&mut format.underline);
    }
}

impl Default for TextFormatModifier {
    fn default() -> (r: Self)
        ensures
            r == Self::spec_new(),
    {
        TextFormatModifier::new()
    }
}

/// Combining format modifiers: applying `a.on_top_of(b)` to any format is the same as applying
/// `b` and then `a`.
pub proof fn law_format_modifier_on_top_of(a: TextFormatModifier, b: TextFormatModifier, f: TextFormat)
    ensures
        a.spec_on_top_of(b).spec_apply(f) == a.spec_apply(b.spec_apply(f)),
{
}

/// A color that can be displayed in a terminal: the terminal default, a named color, an 8 bit
/// ANSI value, or RGB.
#[derive(Clone, Copy, PartialEq, Eq, Debug, Structural)]
pub enum Color {
    Default,
    Rgb { r: u8, g: u8, b: u8 },
    Ansi(u8),
    Black,
    Blue,
    Cyan,
    Green,
    Magenta,
    Red,
    White,
    Yellow,
    LightBlack,
    LightBlue,
    LightCyan,
    LightGreen,
    LightMagenta,
    LightRed,
    LightWhite,
    LightYellow,
}

impl Default for Color {
    fn default() -> (r: Self)
        ensures
            r == Color::Default,
    {
        Color::Default
    }
}

/// `termion::color::AnsiValue::rgb`: the 216-color cube entry `16 + 36 r + 6 g + b`.
#[verifier::external_body]
fn ansi_rgb_value(r: u8, g: u8, b: u8) -> (v: u8)
    requires
        r < 6,
        g < 6,
        b < 6,
    ensures
        v == 16 + 36 * r + 6 * g + b,
{
    termion::color::AnsiValue::rgb(r, g, b).0
}

/// `termion::color::AnsiValue::grayscale`: the gray shade `0xE8 + shade`.
#[verifier::external_body]
fn ansi_grayscale_value(shade: u8) -> (v: u8)
    requires
        shade < 24,
    ensures
        v == 0xE8 + shade,
{
    termion::color::AnsiValue::grayscale(shade).0
}

impl Color {
    /// An ANSI color from rgb values, each of which must be below 6.
    pub fn ansi_rgb(r: u8, g: u8, b: u8) -> (c: Self)
        requires
            r < 6,
            g < 6,
            b < 6,
        ensures
            c == Color::Ansi((16 + 36 * r + 6 * g + b) as u8),
    {
        Color::Ansi(ansi_rgb_value(r, g, b))
    }

    /// An ANSI gray value; `v` must be below 24.
    pub fn ansi_grayscale(v: u8) -> (c: Self)
        requires
            v < 24,
        ensures
            c == Color::Ansi((0xE8 + v) as u8),
    {
        Color::Ansi(ansi_grayscale_value(v))
    }
}

/// A style that defines how text is presented on the terminal.
#[derive(Clone, Copy, PartialEq, Eq, Debug, Structural)]
pub struct Style {
    fg_color: Color,
    bg_color: Color,
    format: TextFormat,
}

impl Style {
    /// The foreground color of the style.
    pub closed spec fn spec_fg(self) -> Color {
        self.fg_color
    }

    /// The background color of the style.
    pub closed spec fn spec_bg(self) -> Color {
        self.bg_color
    }

    /// The text format of the style.
    pub closed spec fn spec_format(self) -> TextFormat {
        self.format
    }

    /// The style with default colors and no text attributes.
    pub closed spec fn spec_plain() -> Style {
        Style { fg_color: Color::Default, bg_color: Color::Default, format: TextFormat::spec_plain() }
    }

    /// The style with the bold attribute switched to its opposite.
    pub closed spec fn spec_toggled_bold(self) -> Style {
        Style { format: TextFormat { bold: !self.format.bold, ..self.format }, ..self }
    }

    /// A modifier that only toggles bold turns a style into its `spec_toggled_bold`.
    pub proof fn lemma_toggle_bold(m: StyleModifier, s: Style)
        requires
            m.spec_fg() is None,
            m.spec_bg() is None,
            m.spec_format() == (TextFormatModifier { bold: BoolModifyMode::Toggle, ..TextFormatModifier::spec_new() }),
        ensures
            m.spec_apply(s) == s.spec_toggled_bold(),
            s.spec_toggled_bold().spec_format().bold == !s.spec_format().bold,
    {
    }

    /// A style is determined by its colors and its format.
    pub proof fn lemma_ext(a: Style, b: Style)
        requires
            a.spec_fg() == b.spec_fg(),
            a.spec_bg() == b.spec_bg(),
            a.spec_format() == b.spec_format(),
        ensures
            a == b,
    {
    }

    /// The plain style: default colors, no text attributes.
    pub proof fn lemma_plain()
        ensures
            Style::spec_plain().spec_fg() == Color::Default,
            Style::spec_plain().spec_bg() == Color::Default,
            Style::spec_plain().spec_format() == TextFormat::spec_plain(),
    {
    }

    /// Create a "standard" style, i.e., no colors or text attributes.
    pub fn plain() -> (r: Self)
        ensures
            r == Style::spec_plain(),
    {
        Style::default()
    }

    /// The foreground color.
    pub fn fg_color(&self) -> (c: Color)
        ensures
            c == self.spec_fg(),
    {
        self.fg_color
    }

    /// The background color.
    pub fn bg_color(&self) -> (c: Color)
        ensures
            c == self.spec_bg(),
    {
        self.bg_color
    }

    /// The text format.
    pub fn format(&self) -> (f: TextFormat)
        ensures
            f == self.spec_format(),
    {
        self.format
    }
}

impl Default for Style {
    fn default() -> (r: Self)
        ensures
            r == Style::spec_plain(),
    {
        Style { fg_color: Color::Default, bg_color: Color::Default, format: TextFormat::default() }
    }
}

/// A set of modifications of a style. Modifiers can be combined before they are applied.
#[derive(Clone, Copy, PartialEq, Eq, Debug, Structural)]
pub struct StyleModifier {
    fg_color: Option<Color>,
    bg_color: Option<Color>,
    format: TextFormatModifier,
}

impl StyleModifier {
    /// The foreground color that the modifier sets, if any.
    pub closed spec fn spec_fg(self) -> Option<Color> {
        self.fg_color
    }

    /// The background color that the modifier sets, if any.
    pub closed spec fn spec_bg(self) -> Option<Color> {
        self.bg_color
    }

    /// The modification of the text format.
    pub closed spec fn spec_format(self) -> TextFormatModifier {
        self.format
    }

    /// The modifier that leaves every property unchanged.
    pub closed spec fn spec_new() -> StyleModifier {
        StyleModifier { fg_color: None, bg_color: None, format: TextFormatModifier::spec_new() }
    }

    /// The style `s` after it has been modified according to `self`.
    pub closed spec fn spec_apply(self, s: Style) -> Style {
        Style {
            fg_color: match self.fg_color {
                Some(c) => c,
                None => s.fg_color,
            },
            bg_color: match self.bg_color {
                Some(c) => c,
                None => s.bg_color,
            },
            format: self.format.spec_apply(s.format),
        }
    }

    /// The combination of `self` on top of `other`.
    pub closed spec fn spec_on_top_of(self, other: Self) -> Self {
        StyleModifier {
            fg_color: match self.fg_color {
                Some(c) => Some(c),
                None => other.fg_color,
            },
            bg_color: match self.bg_color {
                Some(c) => Some(c),
                None => other.bg_color,
            },
            format: self.format.spec_on_top_of(other.format),
        }
    }

    /// What applying a modifier does to each property of a style.
    pub proof fn lemma_apply(self, s: Style)
        ensures
            self.spec_apply(s).spec_fg() == (match self.spec_fg() {
                Some(c) => c,
                None => s.spec_fg(),
            }),
            self.spec_apply(s).spec_bg() == (match self.spec_bg() {
                Some(c) => c,
                None => s.spec_bg(),
            }),
            self.spec_apply(s).spec_format() == self.spec_format().spec_apply(s.spec_format()),
    {
    }

    /// Construct a modifier that leaves all style properties unchanged.
    pub fn new() -> (r: Self)
        ensures
            r == Self::spec_new(),
            r.spec_fg() is None,
            r.spec_bg() is None,
            r.spec_format() == TextFormatModifier::spec_new(),
    {
        StyleModifier { fg_color: None, bg_color: None, format: TextFormatModifier::new() }
    }

    /// Make the modifier change the foreground color to the specified value.
    pub fn fg_color(self, fg_color: Color) -> (r: Self)
        ensures
            r.spec_fg() == Some(fg_color),
            r.spec_bg() == self.spec_bg(),
            r.spec_format() == self.spec_format(),
    {
        StyleModifier { fg_color: Some(fg_color), ..self }
    }

    /// Make the modifier change the background color to the specified value.
    pub fn bg_color(self, bg_color: Color) -> (r: Self)
        ensures
            r.spec_fg() == self.spec_fg(),
            r.spec_bg() == Some(bg_color),
            r.spec_format() == self.spec_format(),
    {
        StyleModifier { bg_color: Some(bg_color), ..self }
    }

    /// Make the modifier change the text format according to `format`.
    pub fn format(self, format: TextFormatModifier) -> (r: Self)
        ensures
            r.spec_fg() == self.spec_fg(),
            r.spec_bg() == self.spec_bg(),
            r.spec_format() == format,
    {
        StyleModifier { format: format, ..self }
    }

    /// Make the modifier change the bold property of the text format.
    pub fn bold(self, val: BoolModifyMode) -> (r: Self)
        ensures
            r.spec_fg() == self.spec_fg(),
            r.spec_bg() == self.spec_bg(),
            r.spec_format() == (TextFormatModifier { bold: val, ..self.spec_format() }),
    {
        StyleModifier { format: self.format.bold(val), ..self }
    }

    /// Make the modifier change the italic property of the text format.
    pub fn italic(self, val: BoolModifyMode) -> (r: Self)
        ensures
            r.spec_fg() == self.spec_fg(),
            r.spec_bg() == self.spec_bg(),
            r.spec_format() == (TextFormatModifier { italic: val, ..self.spec_format() }),
    {
        StyleModifier { format: self.format.italic(val), ..self }
    }

    /// Make the modifier change the invert property of the text format.
    pub fn invert(self, val: BoolModifyMode) -> (r: Self)
        ensures
            r.spec_fg() == self.spec_fg(),
            r.spec_bg() == self.spec_bg(),
            r.spec_format() == (TextFormatModifier { invert: val, ..self.spec_format() }),
    {
        StyleModifier { format: self.format.invert(val), ..self }
    }

    /// Make the modifier change the underline property of the text format.
    pub fn underline(self, val: BoolModifyMode) -> (r: Self)
        ensures
            r.spec_fg() == self.spec_fg(),
            r.spec_bg() == self.spec_bg(),
            r.spec_format() == (TextFormatModifier { underline: val, ..self.spec_format() }),
    {
        StyleModifier { format: self.format.underline(val), ..self }
    }

    /// Combine `self` with `other` so that applying the result is the same as first applying
    /// `other` and then `self`.
    pub fn on_top_of(self, other: StyleModifier) -> (r: Self)
        ensures
            r == self.spec_on_top_of(other),
    {
        StyleModifier {
            fg_color: match self.fg_color {
                Some(c) => Some(c),
                None => other.fg_color,
            },
            bg_color: match self.bg_color {
                Some(c) => Some(c),
                None => other.bg_color,
            },
            format: self.format.on_top_of(other.format),
        }
    }

    /// Apply the modifier to the plain style.
    pub fn apply_to_default(self) -> (r: Style)
        ensures
            r == self.spec_apply(Style::spec_plain()),
    {
        let mut style = Style::default();
        self.modify(&mut style);
        style
    }

    /// Apply the modifier to the given style and return the result.
    pub fn apply(self, style: Style) -> (r: Style)
        ensures
            r == self.spec_apply(style),
    {
        let mut style = style;
        self.modify(&mut style);
        style
    }

    /// Modify the given style according to the modifier.
    pub fn modify(self, style: &mut Style)
        ensures
            *final(style) == self.spec_apply(*old(style)),
    {
        if let Some(fg) = self.fg_color {
            style.fg_color = fg;
        }
        if let Some(bg) = self.bg_color {
            style.bg_color = bg;
        }
        self.format.modify(&mut style.format);
    }
}

impl Default for StyleModifier {
    fn default() -> (r: Self)
        ensures
            r == Self::spec_new(),
    {
        StyleModifier::new()
    }
}

/// Combining style modifiers: applying `a.on_top_of(b)` to any style is the same as applying `b`
/// and then `a`.
pub proof fn law_style_modifier_on_top_of(a: StyleModifier, b: StyleModifier, s: Style)
    ensures
        a.spec_on_top_of(b).spec_apply(s) == a.spec_apply(b.spec_apply(s)),
{
}

/// The modifier built by `StyleModifier::new` changes nothing.
pub proof fn law_style_modifier_new_is_identity(s: Style)
    ensures
        StyleModifier::spec_new().spec_apply(s) == s,
{
}

/// The modifier built by `StyleModifier::new` is neutral for `on_top_of` on either side.
pub proof fn law_style_modifier_new_is_neutral(m: StyleModifier)
    ensures
        StyleModifier::spec_new().spec_on_top_of(m) == m,
        m.spec_on_top_of(StyleModifier::spec_new()) == m,
{
}

/// Combining style modifiers is associative.
pub proof fn law_style_modifier_on_top_of_associative(a: StyleModifier, b: StyleModifier, c: StyleModifier)
    ensures
        a.spec_on_top_of(b.spec_on_top_of(c)) == a.spec_on_top_of(b).spec_on_top_of(c),
{
}

} // verus!
