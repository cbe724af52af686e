use rustbot::ansi::{ansi, ansi_test_messages, BgColors, Style, TextColors};

#[test]
fn ansi_bold_red_on_nothing() {
    assert_eq!(ansi(TextColors::Red, BgColors::Unset, Style::Bold), "\x1b[0m\x1b[1;31m");
}

#[test]
fn ansi_every_part() {
    assert_eq!(
        ansi(TextColors::White, BgColors::Indigo, Style::Underline),
        "\x1b[0m\x1b[4;37;45m"
    );
    assert_eq!(ansi(TextColors::Grey, BgColors::DarkBlue, Style::Normal), "\x1b[0m\x1b[0;30;40m");
}

#[test]
fn ansi_nothing_set() {
    assert_eq!(ansi(TextColors::Unset, BgColors::Unset, Style::Unset), "\x1b[0m\x1b[0m");
}

#[test]
fn ansi_unset_style_equals_normal() {
    for c in [TextColors::Pink, TextColors::Unset, TextColors::Cyan] {
        for b in [BgColors::Orange, BgColors::Unset, BgColors::LightGrey] {
            assert_eq!(ansi(c, b, Style::Unset), ansi(c, b, Style::Normal));
        }
    }
}

#[test]
fn ansi_all_background_codes() {
    let bgs = [
        (BgColors::DarkBlue, "40"),
        (BgColors::Orange, "41"),
        (BgColors::MarbleBlue, "42"),
        (BgColors::Turqoise, "43"),
        (BgColors::Grey, "44"),
        (BgColors::Indigo, "45"),
        (BgColors::LightGrey, "46"),
        (BgColors::White, "47"),
    ];
    for (b, code) in bgs {
        assert_eq!(
            ansi(TextColors::Unset, b, Style::Bold),
            format!("\x1b[0m\x1b[1;{}m", code)
        );
    }
}

#[test]
fn palette_has_ten_messages() {
    let msgs = ansi_test_messages();
    assert_eq!(msgs.len(), 10);
    assert_eq!(msgs[9], "```ansi\n\n```");
    for m in &msgs[..9] {
        assert!(m.starts_with("```ansi\n"));
        assert!(m.ends_with("\n```"));
        assert_eq!(m.matches("[bold]\n").count(), 10);
    }
}

#[test]
fn palette_first_line() {
    let msgs = ansi_test_messages();
    let expected_first = format!(
        "```ansi\n{}[color]Grey [bg]None  ||  [normal] {}[underline] {}[bold]\n",
        "\x1b[0m\x1b[0;30m", "\x1b[0m\x1b[4;30m", "\x1b[0m\x1b[1;30m"
    );
    assert!(msgs[0].starts_with(&expected_first));
    assert!(msgs[8].contains("[color]None [bg]White"));
}

#[test]
fn debug_names_match_variants() {
    assert_eq!(TextColors::Yellow.debug_name(), format!("{:?}", TextColors::Yellow));
    assert_eq!(BgColors::Turqoise.debug_name(), format!("{:?}", BgColors::Turqoise));
    assert_eq!(TextColors::Unset.debug_name(), "None");
}
