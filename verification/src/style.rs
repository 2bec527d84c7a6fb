//! Styles and the ordered patches that modify them.

use tui::style::Modifier;
use vstd::prelude::*;

verus! {

/// A terminal colour.
#[derive(Clone, Copy, Debug, PartialEq, Eq)]
pub enum Color {
    Reset,
    Black,
    Red,
    Green,
    Yellow,
    Blue,
    Magenta,
    Cyan,
    Gray,
    DarkGray,
    LightRed,
    LightGreen,
    LightYellow,
    LightBlue,
    LightMagenta,
    LightCyan,
    White,
    Rgb(u8, u8, u8),
    Indexed(u8),
}

pub const BOLD: u16 = 0x001;

pub const DIM: u16 = 0x002;

pub const ITALIC: u16 = 0x004;

pub const UNDERLINED: u16 = 0x008;

pub const SLOW_BLINK: u16 = 0x010;

pub const RAPID_BLINK: u16 = 0x020;

pub const REVERSED: u16 = 0x040;

pub const HIDDEN: u16 = 0x080;

pub const CROSSED_OUT: u16 = 0x100;

/// Every attribute bit at once.
pub const ALL_ATTRIBUTES: u16 = 0x1ff;

/// How a piece of text is drawn: two optional colours and, for each attribute, whether it
/// is switched on (`add_modifier`) or switched off (`sub_modifier`).
#[derive(Clone, Copy, Debug, PartialEq, Eq)]
pub struct Style {
    pub fg: Option<Color>,
    pub bg: Option<Color>,
    pub add_modifier: u16,
    pub sub_modifier: u16,
}

/// One step of a style patch list.
#[derive(Clone, Copy, Debug, PartialEq, Eq)]
pub enum AddStyle {
    Fg(Color),
    Bg(Color),
    Bold,
    NoBold,
    Dim,
    NoDim,
    Italic,
    NoItalic,
    Underlined,
    NoUnderlined,
    SlowBlink,
    NoSlowBlink,
    RapidBlink,
    NoRapidBlink,
    Reversed,
    NoReversed,
    Hidden,
    NoHidden,
    CrossedOut,
    NoCrossedOut,
}

impl Style {
    /// The style that changes nothing.
    pub open spec fn plain() -> Style {
        Style { fg: None, bg: None, add_modifier: 0, sub_modifier: 0 }
    }

    /// Is every attribute of `bits` switched on?
    pub open spec fn has(self, bits: u16) -> bool {
        self.add_modifier & bits == bits
    }

    /// `self` with the attributes of `bits` switched on. Bits that stand for no attribute
    /// leave both masks.
    pub open spec fn with(self, bits: u16) -> Style {
        Style {
            fg: self.fg,
            bg: self.bg,
            add_modifier: (self.add_modifier | bits) & ALL_ATTRIBUTES,
            sub_modifier: (self.sub_modifier & !bits) & ALL_ATTRIBUTES,
        }
    }

    /// `self` with the attributes of `bits` switched off. Bits that stand for no attribute
    /// leave both masks.
    pub open spec fn without(self, bits: u16) -> Style {
        Style {
            fg: self.fg,
            bg: self.bg,
            add_modifier: (self.add_modifier & !bits) & ALL_ATTRIBUTES,
            sub_modifier: (self.sub_modifier | bits) & ALL_ATTRIBUTES,
        }
    }

    /// `self` after one patch step.
    pub open spec fn step(self, op: AddStyle) -> Style {
        match op {
            AddStyle::Fg(color) => Style { fg: Some(color), ..self },
            AddStyle::Bg(color) => Style { bg: Some(color), ..self },
            AddStyle::Bold => self.with(BOLD),
            AddStyle::NoBold => self.without(BOLD),
            AddStyle::Dim => self.with(DIM),
            AddStyle::NoDim => self.without(DIM),
            AddStyle::Italic => self.with(ITALIC),
            AddStyle::NoItalic => self.without(ITALIC),
            AddStyle::Underlined => self.with(UNDERLINED),
            AddStyle::NoUnderlined => self.without(UNDERLINED),
            AddStyle::SlowBlink => self.with(SLOW_BLINK),
            AddStyle::NoSlowBlink => self.without(SLOW_BLINK),
            AddStyle::RapidBlink => self.with(RAPID_BLINK),
            AddStyle::NoRapidBlink => self.without(RAPID_BLINK),
            AddStyle::Reversed => self.with(REVERSED),
            AddStyle::NoReversed => self.without(REVERSED),
            AddStyle::Hidden => self.with(HIDDEN),
            AddStyle::NoHidden => self.without(HIDDEN),
            AddStyle::CrossedOut => self.with(CROSSED_OUT),
            AddStyle::NoCrossedOut => self.without(CROSSED_OUT),
        }
    }

    /// `self` after the steps of `patches`, taken from left to right.
    pub open spec fn patched(self, patches: Seq<AddStyle>) -> Style
        decreases patches.len(),
    {
        if patches.len() == 0 {
            self
        } else {
            self.patched(patches.drop_last()).step(patches.last())
        }
    }
}

impl Default for Style {
    fn default() -> (r: Style)
        ensures
            r == Style::plain(),
    {
        Style { fg: None, bg: None, add_modifier: 0, sub_modifier: 0 }
    }
}

/// Calls `tui::style::Style::add_modifier`: the given attributes leave the switched-off
/// mask and enter the switched-on mask. Only the masks travel, and on the way into `tui`
/// each of them loses the bits that stand for no attribute; the colours, which that
/// function leaves alone, are kept as they are.
#[verifier::external_body]
fn add_modifier(style: Style, bits: u16) -> (r: Style)
    ensures
        r == style.with(bits),
{
    let t = tui::style::Style {
        fg: None,
        bg: None,
        add_modifier: Modifier::from_bits_truncate(style.add_modifier),
        sub_modifier: Modifier::from_bits_truncate(style.sub_modifier),
    }.add_modifier(Modifier::from_bits_truncate(bits));
    Style { add_modifier: t.add_modifier.bits(), sub_modifier: t.sub_modifier.bits(), ..style }
}

/// Calls `tui::style::Style::remove_modifier`: the given attributes leave the switched-on
/// mask and enter the switched-off mask. Only the masks travel, and on the way into `tui`
/// each of them loses the bits that stand for no attribute; the colours, which that
/// function leaves alone, are kept as they are.
#[verifier::external_body]
fn remove_modifier(style: Style, bits: u16) -> (r: Style)
    ensures
        r == style.without(bits),
{
    let t = tui::style::Style {
        fg: None,
        bg: None,
        add_modifier: Modifier::from_bits_truncate(style.add_modifier),
        sub_modifier: Modifier::from_bits_truncate(style.sub_modifier),
    }.remove_modifier(Modifier::from_bits_truncate(bits));
    Style { add_modifier: t.add_modifier.bits(), sub_modifier: t.sub_modifier.bits(), ..style }
}

/// Applies one patch step.
pub fn patch_one(style: Style, op: &AddStyle) -> (r: Style)
    ensures
        r == style.step(*op),
{
    match op {
        AddStyle::Fg(color) => Style { fg: Some(*color), ..style },
        AddStyle::Bg(color) => Style { bg: Some(*color), ..style },
        AddStyle::Bold => add_modifier(style, BOLD),
        AddStyle::NoBold => remove_modifier(style, BOLD),
        AddStyle::Dim => add_modifier(style, DIM),
        AddStyle::NoDim => remove_modifier(style, DIM),
        AddStyle::Italic => add_modifier(style, ITALIC),
        AddStyle::NoItalic => remove_modifier(style, ITALIC),
        AddStyle::Underlined => add_modifier(style, UNDERLINED),
        AddStyle::NoUnderlined => remove_modifier(style, UNDERLINED),
        AddStyle::SlowBlink => add_modifier(style, SLOW_BLINK),
        AddStyle::NoSlowBlink => remove_modifier(style, SLOW_BLINK),
        AddStyle::RapidBlink => add_modifier(style, RAPID_BLINK),
        AddStyle::NoRapidBlink => remove_modifier(style, RAPID_BLINK),
        AddStyle::Reversed => add_modifier(style, REVERSED),
        AddStyle::NoReversed => remove_modifier(style, REVERSED),
        AddStyle::Hidden => add_modifier(style, HIDDEN),
        AddStyle::NoHidden => remove_modifier(style, HIDDEN),
        AddStyle::CrossedOut => add_modifier(style, CROSSED_OUT),
        AddStyle::NoCrossedOut => remove_modifier(style, CROSSED_OUT),
    }
}

/// Applies the patches to `style`, strictly in list order.
pub fn patch_style(style: Style, styles: &[AddStyle]) -> (r: Style)
    ensures
        r == style.patched(styles@),
{
    let mut out = style;
    let mut i: usize = 0;
    while i < styles.len()
        invariant
            i <= styles.len(),
            out == style.patched(styles@.take(i as int)),
        decreases styles.len() - i,
    {
        proof {
            assert(styles@.take(i + 1).drop_last() =~= styles@.take(i as int));
        }
        out = patch_one(out, &styles[i]);
        i += 1;
    }
    proof {
        assert(styles@.take(i as int) =~= styles@);
    }
    out
}

/// Applying no patch leaves the style as it is.
pub proof fn lemma_patch_none(base: Style)
    ensures
        base.patched(seq![]) == base,
{
}

/// Patches apply from left to right: a list followed by one more patch is the list, then
/// that patch.
pub proof fn lemma_patch_push(base: Style, patches: Seq<AddStyle>, op: AddStyle)
    ensures
        base.patched(patches.push(op)) == base.patched(patches).step(op),
{
    assert(patches.push(op).drop_last() =~= patches);
}

/// Applying one list after another is applying their concatenation.
pub proof fn lemma_patch_concat(base: Style, first: Seq<AddStyle>, second: Seq<AddStyle>)
    ensures
        base.patched(first + second) == base.patched(first).patched(second),
    decreases second.len(),
{
    if second.len() == 0 {
        assert(first + second =~= first);
    } else {
        lemma_patch_concat(base, first, second.drop_last());
        assert((first + second).drop_last() =~= first + second.drop_last());
    }
}

/// A patch step applied twice does what it does when applied once: switching an attribute
/// on or off never toggles it, and a colour is simply set again.
pub proof fn lemma_step_idempotent(style: Style, op: AddStyle)
    ensures
        style.step(op).step(op) == style.step(op),
{
    let a = style.add_modifier;
    let s = style.sub_modifier;
    assert forall|bits: u16|
        (#[trigger] style.with(bits)).with(bits) == style.with(bits) && (#[trigger] style.without(
            bits,
        )).without(bits) == style.without(bits) by {
        assert((((a | bits) & 0x1ff) | bits) & 0x1ff == (a | bits) & 0x1ff) by (bit_vector);
        assert((((a & !bits) & 0x1ff) & !bits) & 0x1ff == (a & !bits) & 0x1ff) by (bit_vector);
        assert((((s | bits) & 0x1ff) | bits) & 0x1ff == (s | bits) & 0x1ff) by (bit_vector);
        assert((((s & !bits) & 0x1ff) & !bits) & 0x1ff == (s & !bits) & 0x1ff) by (bit_vector);
    }
}

/// The same patch twice at the end of a list is as good as once.
pub proof fn lemma_patch_twice(base: Style, patches: Seq<AddStyle>, op: AddStyle)
    ensures
        base.patched(patches.push(op).push(op)) == base.patched(patches.push(op)),
{
    lemma_patch_push(base, patches.push(op), op);
    lemma_patch_push(base, patches, op);
    lemma_step_idempotent(base.patched(patches), op);
}

/// The order of the patches matters: of two colours set one after the other, the later
/// one stays.
pub proof fn lemma_later_colour_stays(base: Style, first: Color, second: Color)
    ensures
        base.patched(seq![AddStyle::Fg(first), AddStyle::Fg(second)]).fg == Some(second),
        base.patched(seq![AddStyle::Bg(first), AddStyle::Bg(second)]).bg == Some(second),
{
    let fg = seq![AddStyle::Fg(first), AddStyle::Fg(second)];
    let bg = seq![AddStyle::Bg(first), AddStyle::Bg(second)];
    assert(fg =~= seq![AddStyle::Fg(first)].push(AddStyle::Fg(second)));
    assert(bg =~= seq![AddStyle::Bg(first)].push(AddStyle::Bg(second)));
    lemma_patch_push(base, seq![AddStyle::Fg(first)], AddStyle::Fg(second));
    lemma_patch_push(base, seq![AddStyle::Bg(first)], AddStyle::Bg(second));
}

/// After an attribute is switched on it is on, and after it is switched off it is off,
/// whatever it was before.
pub proof fn lemma_switch(style: Style, bits: u16)
    requires
        0 < bits <= ALL_ATTRIBUTES,
    ensures
        style.with(bits).has(bits),
        !style.without(bits).has(bits),
{
    let a = style.add_modifier;
    assert(bits <= 0x1ff ==> ((a | bits) & 0x1ff) & bits == bits) by (bit_vector);
    assert(bits != 0 ==> ((a & !bits) & 0x1ff) & bits != bits) by (bit_vector);
}

} // verus!
