use ical::ParserError;
use ical::content_line::parse_content_line;
use ical::content_line::parse_content_param;
use ical::content_line::resolve_value_text;

#[test]
fn plain_name_and_value() {
    let cl = parse_content_line("NAME:VALUE").unwrap();
    assert_eq!(cl.name, "NAME");
    assert_eq!(cl.parameters.len(), 0);
    assert_eq!(cl.value, "VALUE");
}

#[test]
fn value_may_contain_further_colons() {
    let cl = parse_content_line("URL:http://example.com/a:b").unwrap();
    assert_eq!(cl.name, "URL");
    assert_eq!(cl.value, "http://example.com/a:b");
}

#[test]
fn empty_value_is_accepted() {
    let cl = parse_content_line("X-EMPTY:").unwrap();
    assert_eq!(cl.name, "X-EMPTY");
    assert_eq!(cl.value, "");
}

#[test]
fn line_without_separator_is_rejected() {
    let r = parse_content_line("GARBAGE");
    match r {
        Err(ParserError::InvalidContentLine(m)) => {
            assert_eq!(m, "no value separator found")
        },
        _ => panic!("expected an invalid content line error"),
    }
}

#[test]
fn empty_property_name_is_rejected() {
    let r = parse_content_line(":VALUE");
    match r {
        Err(ParserError::InvalidContentLine(m)) => assert_eq!(m, "invalid property name"),
        _ => panic!("expected an invalid content line error"),
    }
}

#[test]
fn property_name_with_bad_character_is_rejected() {
    let r = parse_content_line("BAD NAME:VALUE");
    match r {
        Err(ParserError::InvalidContentLine(m)) => assert_eq!(m, "invalid property name"),
        _ => panic!("expected an invalid content line error"),
    }
}

#[test]
fn single_parameter_with_one_value() {
    let cl = parse_content_line("DTSTART;TZID=Europe/Berlin:19970714T133000").unwrap();
    assert_eq!(cl.name, "DTSTART");
    assert_eq!(cl.parameters.len(), 1);
    assert_eq!(cl.parameters[0].name, "TZID");
    assert_eq!(cl.parameters[0].values, vec!["Europe/Berlin"]);
    assert_eq!(cl.value, "19970714T133000");
}

#[test]
fn parameters_keep_encounter_order() {
    let cl = parse_content_line("ATTENDEE;ROLE=CHAIR;RSVP=TRUE:mailto:x@example.com")
        .unwrap();
    assert_eq!(cl.parameters.len(), 2);
    assert_eq!(cl.parameters[0].name, "ROLE");
    assert_eq!(cl.parameters[1].name, "RSVP");
    assert_eq!(cl.value, "mailto:x@example.com");
}

#[test]
fn quoted_parameter_value_keeps_comma() {
    let p = parse_content_param("CN=\"Doe, John\"").unwrap();
    assert_eq!(p.name, "CN");
    assert_eq!(p.values, vec!["Doe, John"]);
}

#[test]
fn quoted_parameter_value_keeps_semicolon_within_line() {
    let cl = parse_content_line("ORGANIZER;CN=\"a;b\":mailto:c").unwrap();
    assert_eq!(cl.parameters.len(), 1);
    assert_eq!(cl.parameters[0].values, vec!["a;b"]);
}

#[test]
fn comma_separated_parameter_values() {
    let p = parse_content_param("MEMBER=a,b,c").unwrap();
    assert_eq!(p.values, vec!["a", "b", "c"]);
}

#[test]
fn mixed_quoted_and_unquoted_values() {
    let p = parse_content_param("MEMBER=\"x,y\",plain").unwrap();
    assert_eq!(p.values, vec!["x,y", "plain"]);
}

#[test]
fn parameter_without_equals_is_rejected() {
    let r = parse_content_param("NOEQUALS");
    match r {
        Err(ParserError::InvalidContentLine(m)) => assert_eq!(m, "malformed parameter"),
        _ => panic!("expected an invalid content line error"),
    }
}

#[test]
fn parameter_with_bad_name_is_rejected() {
    let r = parse_content_param("=v");
    match r {
        Err(ParserError::InvalidContentLine(m)) => assert_eq!(m, "malformed parameter"),
        _ => panic!("expected an invalid content line error"),
    }
}

#[test]
fn unterminated_quoted_value_is_rejected() {
    let r = parse_content_param("CN=\"never closed");
    match r {
        Err(ParserError::InvalidContentLine(m)) => {
            assert_eq!(m, "unterminated quoted value")
        },
        _ => panic!("expected an invalid content line error"),
    }
}

#[test]
fn text_after_closing_quote_is_rejected() {
    let r = parse_content_param("CN=\"done\"junk");
    match r {
        Err(ParserError::InvalidContentLine(m)) => assert_eq!(m, "malformed parameter"),
        _ => panic!("expected an invalid content line error"),
    }
}

#[test]
fn empty_parameter_value_list() {
    let p = parse_content_param("X=").unwrap();
    assert_eq!(p.values, vec![""]);
}

#[test]
fn escape_resolution() {
    let t = resolve_value_text("a\\,b\\;c\\nd").unwrap();
    assert_eq!(t, "a,b;c\nd");
}

#[test]
fn escape_resolution_upper_n_and_backslash() {
    let t = resolve_value_text("x\\Ny\\\\z").unwrap();
    assert_eq!(t, "x\ny\\z");
}

#[test]
fn invalid_escape_is_rejected() {
    let r = resolve_value_text("a\\x");
    match r {
        Err(ParserError::InvalidContentLine(m)) => {
            assert_eq!(m, "invalid escape sequence")
        },
        _ => panic!("expected an invalid content line error"),
    }
}

#[test]
fn trailing_lone_backslash_is_rejected() {
    let r = resolve_value_text("abc\\");
    match r {
        Err(ParserError::InvalidContentLine(m)) => {
            assert_eq!(m, "invalid escape sequence")
        },
        _ => panic!("expected an invalid content line error"),
    }
}

#[test]
fn invalid_escape_in_line_value_is_rejected() {
    let r = parse_content_line("NOTE:bad\\qescape");
    match r {
        Err(ParserError::InvalidContentLine(m)) => {
            assert_eq!(m, "invalid escape sequence")
        },
        _ => panic!("expected an invalid content line error"),
    }
}

#[test]
fn colon_inside_quoted_parameter_is_not_a_separator() {
    let cl = parse_content_line("X-A;B=\"p:q\":v").unwrap();
    assert_eq!(cl.name, "X-A");
    assert_eq!(cl.parameters[0].values, vec!["p:q"]);
    assert_eq!(cl.value, "v");
}
