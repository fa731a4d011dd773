use tabline::tab_display::{format_tab, parse_tab_layout, FormatIdent, TabDisplayError};

#[test]
fn parse_index_only() {
    let segs = parse_tab_layout("{index}").unwrap();
    assert_eq!(segs, vec![FormatIdent::Index]);
}

#[test]
fn parse_index_name() {
    let segs = parse_tab_layout("{index}: {name}").unwrap();
    assert_eq!(segs, vec![
        FormatIdent::Index,
        FormatIdent::Literal(": ".to_string()),
        FormatIdent::Name,
    ]);
}

#[test]
fn format_unnamed_tab() {
    let segs = parse_tab_layout("{index}: {name}").unwrap();
    assert_eq!(format_tab(&segs, 3, None), "3");
    assert_eq!(format_tab(&segs, 3, Some("foo")), "3: foo");
}

#[test]
fn empty_layout_defaults_to_index() {
    let segs = parse_tab_layout("").unwrap();
    assert_eq!(segs, vec![FormatIdent::Index]);
    assert_eq!(format_tab(&segs, 1, Some("test")), "1");
}

#[test]
fn parse_literal_only() {
    let segs = parse_tab_layout("tab").unwrap();
    assert_eq!(segs, vec![FormatIdent::Literal("tab".to_string())]);
    assert_eq!(format_tab(&segs, 7, None), "tab");
}

#[test]
fn parse_adjacent_placeholders_and_tail() {
    let segs = parse_tab_layout("[{index}{name}]").unwrap();
    assert_eq!(segs, vec![
        FormatIdent::Literal("[".to_string()),
        FormatIdent::Index,
        FormatIdent::Name,
        FormatIdent::Literal("]".to_string()),
    ]);
    assert_eq!(format_tab(&segs, 12, Some("vim")), "[12vim]");
    assert_eq!(format_tab(&segs, 12, None), "12");
}

#[test]
fn parse_unknown_ident() {
    assert_eq!(
        parse_tab_layout("{index} {title}"),
        Err(TabDisplayError::UnknownIdent("title".to_string()))
    );
    assert_eq!(
        parse_tab_layout("{}"),
        Err(TabDisplayError::UnknownIdent(String::new()))
    );
    // A `{` inside a placeholder is part of its identifier.
    assert_eq!(
        parse_tab_layout("{a{name}"),
        Err(TabDisplayError::UnknownIdent("a{name".to_string()))
    );
}

#[test]
fn parse_unclosed_brace() {
    assert_eq!(parse_tab_layout("{index"), Err(TabDisplayError::UnclosedBrace));
    // The first problem from the left is reported.
    assert_eq!(parse_tab_layout("{index} {"), Err(TabDisplayError::UnclosedBrace));
    assert_eq!(
        parse_tab_layout("{bad} {"),
        Err(TabDisplayError::UnknownIdent("bad".to_string()))
    );
}

#[test]
fn stray_closing_brace_is_literal() {
    let segs = parse_tab_layout("}{index}").unwrap();
    assert_eq!(segs, vec![FormatIdent::Literal("}".to_string()), FormatIdent::Index]);
}

#[test]
fn multibyte_literals() {
    let segs = parse_tab_layout("→{index}·{name}").unwrap();
    assert_eq!(format_tab(&segs, 2, Some("é")), "→2·é");
}

#[test]
fn unparse_roundtrip_on_concrete_layout() {
    let layout = "<{index}> {name}!";
    let segs = parse_tab_layout(layout).unwrap();
    let mut text = String::new();
    for seg in &segs {
        match seg {
            FormatIdent::Index => text.push_str("{index}"),
            FormatIdent::Name => text.push_str("{name}"),
            FormatIdent::Literal(s) => text.push_str(s),
        }
    }
    assert_eq!(text, layout);
}

#[test]
fn format_large_index() {
    assert_eq!(format_tab(&[FormatIdent::Index], 0, None), "0");
    assert_eq!(format_tab(&[FormatIdent::Index], 1234567890, None), "1234567890");
}

#[test]
fn error_messages() {
    assert_eq!(
        TabDisplayError::UnknownIdent("x".to_string()).message(),
        "unknown format identifier: x"
    );
    assert_eq!(
        TabDisplayError::UnclosedBrace.message(),
        "unclosed brace in tab display layout"
    );
}
