use paperd::ansi::{AnsiCode, MessageElement, StyledMessage, TextAttr};
use paperd::render::DrawOp;
use paperd::carry::{carry_line, expand_line_tabs, split_styled};

fn text(s: &str) -> MessageElement {
    MessageElement::Text(s.to_string())
}

fn code(c: AnsiCode) -> MessageElement {
    MessageElement::Code(c)
}

/// Switches attributes on and off as a terminal would, returning what is left on.
fn enabled_after(ops: &[DrawOp]) -> Vec<AnsiCode> {
    let mut on = Vec::new();
    for op in ops {
        match op {
            DrawOp::Enable(c) => on.push(*c),
            DrawOp::Disable(c) => {
                if on.last() == Some(c) {
                    on.pop();
                }
            }
            _ => {}
        }
    }
    on
}

#[test]
fn parse_plain_text_is_one_token() {
    let m = StyledMessage::parse("hello world");
    assert_eq!(m.messages, vec![text("hello world")]);
}

#[test]
fn parse_empty_text_has_no_tokens() {
    assert!(StyledMessage::parse("").messages.is_empty());
}

#[test]
fn parse_minecraft_codes() {
    let m = StyledMessage::parse("§cRed§r plain");
    assert_eq!(m.messages, vec![code(AnsiCode::Red), text("Red"), code(AnsiCode::Reset), text(" plain")]);
}

#[test]
fn parse_ansi_codes() {
    let m = StyledMessage::parse("\u{1b}[0;31;1mX\u{1b}[m");
    assert_eq!(m.messages, vec![code(AnsiCode::Red), text("X"), code(AnsiCode::Reset)]);
}

#[test]
fn parse_severity_codes() {
    let m = StyledMessage::parse("\u{1b}[31;1mw\u{1b}[33;1me");
    assert_eq!(m.messages, vec![code(AnsiCode::Warn), text("w"), code(AnsiCode::Error), text("e")]);
}

#[test]
fn parse_takes_the_earliest_marker() {
    let m = StyledMessage::parse("a§lb\u{1b}[4mc");
    assert_eq!(
        m.messages,
        vec![text("a"), code(AnsiCode::Bold), text("b"), code(AnsiCode::Underline), text("c")]
    );
}

#[test]
fn parse_drops_unknown_codes() {
    let m = StyledMessage::parse("x§zy\u{1b}[99mz");
    assert_eq!(m.messages, vec![text("x"), text("y"), text("z")]);
}

#[test]
fn parse_keeps_ansi_prefix_without_terminator_as_text() {
    let m = StyledMessage::parse("ab\u{1b}[cd");
    assert_eq!(m.messages, vec![text("ab\u{1b}[cd")]);
    let m = StyledMessage::parse("abc\u{1b}[x");
    assert_eq!(m.messages, vec![text("abc\u{1b}[x")]);
    let m = StyledMessage::parse("\u{1b}[§ax");
    assert_eq!(m.messages, vec![text("\u{1b}["), code(AnsiCode::Green), text("x")]);
}

#[test]
fn unterminated_prefix_at_the_end_survives_a_round_trip() {
    let once = StyledMessage::parse("§cx§r\u{1b}[");
    assert_eq!(once.messages, vec![code(AnsiCode::Red), text("x"), code(AnsiCode::Reset), text("\u{1b}[")]);
    assert_eq!(StyledMessage::parse(once.get_string().as_str()), once);
}

#[test]
fn parse_marker_at_the_end_is_dropped() {
    let m = StyledMessage::parse("end§");
    assert_eq!(m.messages, vec![text("end")]);
}

#[test]
fn parse_multibyte_text_and_code() {
    let m = StyledMessage::parse("é§aü");
    assert_eq!(m.messages, vec![text("é"), code(AnsiCode::Green), text("ü")]);
}

#[test]
fn ansi_and_minecraft_forms() {
    assert_eq!(AnsiCode::Black.ansi_code(), "\u{1b}[0;30m");
    assert_eq!(AnsiCode::White.ansi_code(), "\u{1b}[0;37;1m");
    assert_eq!(AnsiCode::Bold.ansi_code(), "\u{1b}[21m");
    assert_eq!(AnsiCode::Reset.ansi_code(), "\u{1b}[m");
    assert_eq!(AnsiCode::Warn.ansi_code(), "\u{1b}[31;1m");
    assert_eq!(AnsiCode::Gold.mc_code(), "§6");
    assert_eq!(AnsiCode::Italic.mc_code(), "§o");
    assert_eq!(AnsiCode::Error.mc_code(), "");
    assert_eq!(AnsiCode::iter().len(), 24);
    assert_eq!(AnsiCode::prefix(), "\u{1b}[");
    assert_eq!(AnsiCode::suffix(), "m");
    assert_eq!(AnsiCode::mc_prefix(), '§');
}

#[test]
fn every_code_reparses_from_both_forms() {
    for c in AnsiCode::iter() {
        assert_eq!(StyledMessage::parse(c.ansi_code()).messages, vec![code(c)]);
        if !c.mc_code().is_empty() {
            assert_eq!(StyledMessage::parse(c.mc_code()).messages, vec![code(c)]);
        }
    }
}

#[test]
fn get_string_closes_with_reset() {
    let m = StyledMessage::parse("§cRed");
    assert_eq!(m.get_string(), "\u{1b}[0;31;1mRed\u{1b}[m");
}

#[test]
fn get_string_keeps_a_final_reset_single() {
    let m = StyledMessage::parse("§cRed§r");
    assert_eq!(m.get_string(), "\u{1b}[0;31;1mRed\u{1b}[m");
}

#[test]
fn get_string_of_plain_text_adds_nothing() {
    assert_eq!(StyledMessage::parse("plain").get_string(), "plain");
}

#[test]
fn reparse_of_serialized_message_is_unchanged() {
    for s in ["§cRed§r and §lbold\u{1b}[4m under\u{1b}[m", "plain", "§a§lx§r", "\u{1b}[0;34mblue§r"] {
        let once = StyledMessage::parse(s);
        let again = StyledMessage::parse(once.get_string().as_str());
        assert_eq!(again, once);
    }
}

#[test]
fn output_text_clips_and_resets() {
    let m = StyledMessage::parse("§cHello§lWorld");
    let ops = m.output_text(3, 0, 8);
    assert_eq!(
        ops,
        vec![
            DrawOp::Enable(AnsiCode::Red),
            DrawOp::Text { y: 3, x: 0, text: "Hello".to_string() },
            DrawOp::Enable(AnsiCode::Bold),
            DrawOp::Text { y: 3, x: 5, text: "Wor".to_string() },
            DrawOp::Disable(AnsiCode::Bold),
            DrawOp::Disable(AnsiCode::Red),
            DrawOp::Clear { y: 3, x: 8, count: 0 },
        ]
    );
    assert!(enabled_after(&ops).is_empty());
}

#[test]
fn output_text_reset_disables_in_reverse() {
    let m = StyledMessage::parse("§a§nab§rc");
    let ops = m.output_text(0, 2, 20);
    assert_eq!(
        ops,
        vec![
            DrawOp::Enable(AnsiCode::Green),
            DrawOp::Enable(AnsiCode::Underline),
            DrawOp::Text { y: 0, x: 2, text: "ab".to_string() },
            DrawOp::Disable(AnsiCode::Underline),
            DrawOp::Disable(AnsiCode::Green),
            DrawOp::Text { y: 0, x: 4, text: "c".to_string() },
            DrawOp::Clear { y: 0, x: 5, count: 15 },
        ]
    );
    assert!(enabled_after(&ops).is_empty());
}

#[test]
fn output_text_clips_outside_the_row() {
    let m = StyledMessage::parse("§lab");
    assert_eq!(
        m.output_text(0, 10, 4),
        vec![DrawOp::Enable(AnsiCode::Bold), DrawOp::Disable(AnsiCode::Bold), DrawOp::Clear { y: 0, x: 10, count: 0 }]
    );
    assert_eq!(
        m.output_text(0, -1, 4),
        vec![
            DrawOp::Enable(AnsiCode::Bold),
            DrawOp::Text { y: 0, x: -1, text: "ab".to_string() },
            DrawOp::Disable(AnsiCode::Bold),
            DrawOp::Clear { y: 0, x: 1, count: 3 },
        ]
    );
}

#[test]
fn rendering_never_leaves_attributes_on() {
    for s in ["§c§l§nx", "\u{1b}[5ma§r§9b", "", "§kx§ry§6"] {
        let ops = StyledMessage::parse(s).output_text(1, 0, 3);
        assert!(enabled_after(&ops).is_empty());
    }
}

#[test]
fn attribute_table() {
    assert_eq!(AnsiCode::Red.attr_pair(), (Some((13, 9, -1)), None));
    assert_eq!(AnsiCode::Bold.attr_pair(), (None, Some(TextAttr::Bold)));
    assert_eq!(AnsiCode::Strikethrough.attr_pair(), (None, None));
    assert_eq!(AnsiCode::Reset.attr_pair(), (None, None));
    assert_eq!(AnsiCode::Warn.attr_pair(), (Some((15, 3, -1)), Some(TextAttr::Bold)));
}

#[test]
fn multi_line_color_carries_over() {
    let mut carry = Vec::new();
    let lines = split_styled(&mut carry, "§cRed line1\nline2");
    assert_eq!(lines.len(), 2);
    assert_eq!(
        lines[0].messages,
        vec![code(AnsiCode::Red), text("Red line1"), code(AnsiCode::Reset)]
    );
    assert_eq!(
        lines[1].messages,
        vec![code(AnsiCode::Red), text("line2"), code(AnsiCode::Reset)]
    );
    for l in &lines {
        let ops = l.output_text(0, 0, 80);
        assert!(ops.contains(&DrawOp::Enable(AnsiCode::Red)));
        assert!(enabled_after(&ops).is_empty());
    }
    assert_eq!(carry, vec![AnsiCode::Red]);
    let mut fresh = Vec::new();
    let third = split_styled(&mut fresh, "unrelated");
    assert_eq!(third[0].messages, vec![text("unrelated"), code(AnsiCode::Reset)]);
    let ops = third[0].output_text(0, 0, 80);
    assert!(!ops.contains(&DrawOp::Enable(AnsiCode::Red)));
}

#[test]
fn reset_stops_the_carry() {
    let mut carry = vec![AnsiCode::Gold];
    let (line, next) = carry_line(&carry, "a§rb§lc");
    assert_eq!(
        line.messages,
        vec![
            code(AnsiCode::Gold),
            text("a"),
            code(AnsiCode::Reset),
            text("b"),
            code(AnsiCode::Bold),
            text("c"),
            code(AnsiCode::Reset)
        ]
    );
    assert_eq!(next, vec![AnsiCode::Bold]);
    carry = next;
    let lines = split_styled(&mut carry, "§r\nplain\n");
    assert_eq!(lines.len(), 1);
    assert_eq!(lines[0].messages, vec![text("plain"), code(AnsiCode::Reset)]);
    assert!(carry.is_empty());
}

#[test]
fn code_only_lines_are_left_out() {
    let mut carry = Vec::new();
    let lines = split_styled(&mut carry, "§a\n\nx");
    assert_eq!(lines.len(), 1);
    assert_eq!(lines[0].messages, vec![code(AnsiCode::Green), text("x"), code(AnsiCode::Reset)]);
}

#[test]
fn tabs_become_four_spaces() {
    assert_eq!(expand_line_tabs("a\tb"), "a    b");
    let mut carry = Vec::new();
    let lines = split_styled(&mut carry, "\tx");
    assert_eq!(lines[0].messages, vec![text("    x"), code(AnsiCode::Reset)]);
}
