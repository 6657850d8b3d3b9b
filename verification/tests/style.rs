use unsegen::base::{
    BoolModifyMode, Color, Style, StyleModifier, TextFormat, TextFormatModifier,
};

#[test]
fn test_bool_modify_mode_on_top_of() {
    assert_eq!(
        BoolModifyMode::LeaveUnchanged.on_top_of(BoolModifyMode::False),
        BoolModifyMode::False
    );
    assert_eq!(
        BoolModifyMode::True.on_top_of(BoolModifyMode::Toggle),
        BoolModifyMode::True
    );
    assert_eq!(
        BoolModifyMode::Toggle.on_top_of(BoolModifyMode::Toggle),
        BoolModifyMode::LeaveUnchanged
    );
    assert_eq!(
        BoolModifyMode::Toggle.on_top_of(BoolModifyMode::True),
        BoolModifyMode::False
    );
}

#[test]
fn test_bool_modify_mode_modify() {
    let mut b = true;
    BoolModifyMode::False.modify(&mut b);
    assert_eq!(b, false);

    let mut b = false;
    BoolModifyMode::LeaveUnchanged.modify(&mut b);
    assert_eq!(b, false);

    let mut b = false;
    BoolModifyMode::Toggle.modify(&mut b);
    assert_eq!(b, true);

    assert_eq!(BoolModifyMode::from_bool(true), BoolModifyMode::True);
    assert_eq!(BoolModifyMode::from_bool(false), BoolModifyMode::False);
}

#[test]
fn test_text_format_modifier_builders() {
    assert_eq!(
        TextFormatModifier::new().bold(BoolModifyMode::Toggle).bold,
        BoolModifyMode::Toggle
    );
    assert_eq!(
        TextFormatModifier::new().italic(BoolModifyMode::True).italic,
        BoolModifyMode::True
    );
    assert_eq!(
        TextFormatModifier::new().invert(BoolModifyMode::False).invert,
        BoolModifyMode::False
    );
    assert_eq!(
        TextFormatModifier::new()
            .underline(BoolModifyMode::LeaveUnchanged)
            .underline,
        BoolModifyMode::LeaveUnchanged
    );
}

#[test]
fn test_text_format_modifier_on_top_of() {
    let mut f1 = TextFormat::default();
    let mut f2 = f1;

    let m1 = TextFormatModifier::new()
        .italic(BoolModifyMode::Toggle)
        .bold(BoolModifyMode::True)
        .underline(BoolModifyMode::False);
    let m2 = TextFormatModifier::new()
        .italic(BoolModifyMode::True)
        .bold(BoolModifyMode::False);

    m1.on_top_of(m2).modify(&mut f1);

    m2.modify(&mut f2);
    m1.modify(&mut f2);

    assert_eq!(f1, f2);
    assert_eq!(f1.bold, true);
    assert_eq!(f1.italic, false);
    assert_eq!(f1.underline, false);
}

#[test]
fn test_style_modifier_format_shortcuts() {
    assert_eq!(
        StyleModifier::new().bold(BoolModifyMode::True),
        StyleModifier::new().format(TextFormatModifier::new().bold(BoolModifyMode::True))
    );
    assert_eq!(
        StyleModifier::new().italic(BoolModifyMode::True),
        StyleModifier::new().format(TextFormatModifier::new().italic(BoolModifyMode::True))
    );
    assert_eq!(
        StyleModifier::new().invert(BoolModifyMode::True),
        StyleModifier::new().format(TextFormatModifier::new().invert(BoolModifyMode::True))
    );
    assert_eq!(
        StyleModifier::new().underline(BoolModifyMode::True),
        StyleModifier::new().format(TextFormatModifier::new().underline(BoolModifyMode::True))
    );
}

#[test]
fn test_style_modifier_on_top_of() {
    let mut s1 = Style::default();
    let mut s2 = s1;

    let m1 = StyleModifier::new()
        .fg_color(Color::Red)
        .italic(BoolModifyMode::Toggle)
        .bold(BoolModifyMode::True)
        .underline(BoolModifyMode::False);
    let m2 = StyleModifier::new()
        .bg_color(Color::Blue)
        .italic(BoolModifyMode::True)
        .bold(BoolModifyMode::False);

    m1.on_top_of(m2).modify(&mut s1);

    m2.modify(&mut s2);
    m1.modify(&mut s2);

    assert_eq!(s1, s2);
    assert_eq!(s1.fg_color(), Color::Red);
    assert_eq!(s1.bg_color(), Color::Blue);
}

#[test]
fn test_style_modifier_apply() {
    let m = StyleModifier::new()
        .fg_color(Color::Red)
        .italic(BoolModifyMode::True);
    let style = Style::default();
    assert_eq!(m.apply(style), m.apply_to_default());

    let m = StyleModifier::new()
        .fg_color(Color::Red)
        .italic(BoolModifyMode::Toggle);
    let mut style = Style::default();
    let style2 = m.apply(style);
    m.modify(&mut style);
    assert_eq!(style, style2);
    assert_eq!(style.format().italic, true);
}

#[test]
fn test_style_modifier_new_changes_nothing() {
    let style = StyleModifier::new()
        .fg_color(Color::Green)
        .bold(BoolModifyMode::True)
        .apply_to_default();
    assert_eq!(StyleModifier::new().apply(style), style);
    assert_eq!(Style::plain(), Style::default());
    assert_eq!(Style::plain().fg_color(), Color::Default);
}

#[test]
fn test_color_ansi() {
    assert_eq!(Color::ansi_rgb(1, 2, 3), Color::Ansi(16 + 36 + 12 + 3));
    assert_eq!(Color::ansi_rgb(0, 0, 0), Color::Ansi(16));
    assert_eq!(Color::ansi_rgb(5, 5, 5), Color::Ansi(231));
    assert_eq!(Color::ansi_grayscale(0), Color::Ansi(232));
    assert_eq!(Color::ansi_grayscale(23), Color::Ansi(255));
}

#[test]
fn bool_modify_mode_from_bool() {
    assert_eq!(BoolModifyMode::from(true), BoolModifyMode::True);
    let m: BoolModifyMode = false.into();
    assert_eq!(m, BoolModifyMode::False);
    assert_eq!(
        StyleModifier::new().bold(true.into()).apply(Style::plain()).format().bold,
        true
    );
}
