use ical::ParserError;
use ical::from_string;

fn chars_of(s: &str) -> Vec<char> {
    s.chars().collect()
}

#[test]
fn minimal_calendar() {
    let cal = from_string("BEGIN:VCALENDAR\r\nEND:VCALENDAR\r\n").unwrap();
    assert_eq!(cal.root.name, "VCALENDAR");
    assert_eq!(cal.root.properties.len(), 0);
    assert_eq!(cal.root.children.len(), 0);
}

#[test]
fn mismatched_nested_end() {
    let r = from_string("BEGIN:VCALENDAR\r\nBEGIN:VEVENT\r\nEND:VCALENDAR\r\n");
    match r {
        Err(ParserError::MismatchedComponent(expected, found)) => {
            assert_eq!(expected, "VEVENT");
            assert_eq!(found, "VCALENDAR");
        },
        _ => panic!("expected a mismatched component error"),
    }
}

#[test]
fn unterminated_component_is_end_of_stream() {
    let r = from_string("BEGIN:VCALENDAR\r\n");
    assert!(matches!(r, Err(ParserError::EndOfStream)));
}

#[test]
fn end_without_open_component() {
    let r = from_string("END:VCALENDAR\r\n");
    match r {
        Err(ParserError::MismatchedComponent(expected, found)) => {
            assert_eq!(expected, "");
            assert_eq!(found, "VCALENDAR");
        },
        _ => panic!("expected a mismatched component error"),
    }
}

#[test]
fn empty_document() {
    let r = from_string("");
    match r {
        Err(ParserError::InvalidContentLine(m)) => assert_eq!(m, "empty document"),
        _ => panic!("expected an invalid content line error"),
    }
}

#[test]
fn root_must_be_vcalendar() {
    let r = from_string("BEGIN:VEVENT\r\nEND:VEVENT\r\n");
    match r {
        Err(ParserError::InvalidContentLine(m)) => {
            assert_eq!(m, "root component is not VCALENDAR")
        },
        _ => panic!("expected an invalid content line error"),
    }
}

#[test]
fn two_top_level_components_are_rejected() {
    let text = "BEGIN:VCALENDAR\r\nEND:VCALENDAR\r\nBEGIN:VCALENDAR\r\nEND:VCALENDAR\r\n";
    let r = from_string(text);
    match r {
        Err(ParserError::InvalidContentLine(m)) => {
            assert_eq!(m, "root component is not VCALENDAR")
        },
        _ => panic!("expected an invalid content line error"),
    }
}

#[test]
fn property_before_any_component() {
    let r = from_string("VERSION:2.0\r\nBEGIN:VCALENDAR\r\nEND:VCALENDAR\r\n");
    match r {
        Err(ParserError::InvalidContentLine(m)) => {
            assert_eq!(m, "property outside any component")
        },
        _ => panic!("expected an invalid content line error"),
    }
}

#[test]
fn nested_components_and_properties() {
    let text = "BEGIN:VCALENDAR\r\nVERSION:2.0\r\nBEGIN:VEVENT\r\nSUMMARY:Lunch\r\nBEGIN:VALARM\r\nACTION:DISPLAY\r\nEND:VALARM\r\nEND:VEVENT\r\nEND:VCALENDAR\r\n";
    let cal = from_string(text).unwrap();
    assert_eq!(cal.root.name, "VCALENDAR");
    assert_eq!(cal.root.properties.len(), 1);
    assert_eq!(cal.root.properties[0].name, "VERSION");
    assert_eq!(cal.root.properties[0].value, "2.0");
    assert_eq!(cal.root.children.len(), 1);
    let event = &cal.root.children[0];
    assert_eq!(event.name, "VEVENT");
    assert_eq!(event.properties.len(), 1);
    assert_eq!(event.properties[0].value, "Lunch");
    assert_eq!(event.children.len(), 1);
    let alarm = &event.children[0];
    assert_eq!(alarm.name, "VALARM");
    assert_eq!(alarm.properties[0].name, "ACTION");
    assert_eq!(alarm.properties[0].value, "DISPLAY");
}

#[test]
fn bare_lf_and_missing_final_terminator() {
    let cal = from_string("BEGIN:VCALENDAR\nEND:VCALENDAR").unwrap();
    assert_eq!(cal.root.name, "VCALENDAR");
}

#[test]
fn folded_property_inside_calendar() {
    let text = "BEGIN:VCALENDAR\r\nDESCRIPTION:abc\r\n def\r\nEND:VCALENDAR\r\n";
    let cal = from_string(text).unwrap();
    assert_eq!(cal.root.properties.len(), 1);
    assert_eq!(cal.root.properties[0].value, "abcdef");
}

#[test]
fn value_escapes_are_resolved_in_tree() {
    let text = "BEGIN:VCALENDAR\r\nX-NOTE:a\\,b\\;c\\nd\r\nEND:VCALENDAR\r\n";
    let cal = from_string(text).unwrap();
    assert_eq!(cal.root.properties[0].value, "a,b;c\nd");
}

#[test]
fn component_type_matching_is_case_sensitive() {
    let r = from_string("BEGIN:VCALENDAR\r\nEND:vcalendar\r\n");
    match r {
        Err(ParserError::MismatchedComponent(expected, found)) => {
            assert_eq!(expected, "VCALENDAR");
            assert_eq!(found, "vcalendar");
        },
        _ => panic!("expected a mismatched component error"),
    }
}

#[test]
fn first_error_in_document_order_wins() {
    // the END mismatch on the second line comes before the garbage line
    let r = from_string("BEGIN:VCALENDAR\r\nEND:VEVENT\r\nGARBAGE\r\n");
    match r {
        Err(ParserError::MismatchedComponent(expected, found)) => {
            assert_eq!(expected, "VCALENDAR");
            assert_eq!(found, "VEVENT");
        },
        _ => panic!("expected a mismatched component error"),
    }
}

#[test]
fn error_descriptions() {
    assert_eq!(
        ParserError::EndOfStream.description(),
        "unexpected end of stream"
    );
    assert_eq!(
        ParserError::InvalidContentLine("empty document").description(),
        "empty document"
    );
    assert_eq!(
        ParserError::MismatchedComponent(String::from("A"), String::from("B")).description(),
        "mismatched component: expected A, found B"
    );
    assert_eq!(ParserError::Generic("boom").description(), "boom");
}

#[test]
fn unfolding_leaves_plain_lines_unchanged() {
    let text = chars_of("A:1\r\nB:2\r\nC:3\r\n");
    let lines = ical::unfold::split_into_lines(&text);
    let mut pos: usize = 0;
    let mut logical: Vec<String> = Vec::new();
    while let Some(l) = ical::unfold::fetch_next_unfolded_line(&lines, &mut pos) {
        logical.push(l.iter().collect());
    }
    assert_eq!(logical, vec!["A:1", "B:2", "C:3"]);
}

#[test]
fn unfolding_merges_space_and_tab_continuations() {
    let text = chars_of("DESCRIPTION:abc\r\n def\r\n\tghi\r\nNEXT:1\r\n");
    let lines = ical::unfold::split_into_lines(&text);
    let mut pos: usize = 0;
    let first = ical::unfold::fetch_next_unfolded_line(&lines, &mut pos).unwrap();
    let first: String = first.iter().collect();
    assert_eq!(first, "DESCRIPTION:abcdefghi");
    let second = ical::unfold::fetch_next_unfolded_line(&lines, &mut pos).unwrap();
    let second: String = second.iter().collect();
    assert_eq!(second, "NEXT:1");
    assert!(ical::unfold::fetch_next_unfolded_line(&lines, &mut pos).is_none());
}

#[test]
fn unfolding_strips_only_one_leading_whitespace() {
    let text = chars_of("A:x\r\n  y\r\n");
    let lines = ical::unfold::split_into_lines(&text);
    let mut pos: usize = 0;
    let first = ical::unfold::fetch_next_unfolded_line(&lines, &mut pos).unwrap();
    let first: String = first.iter().collect();
    assert_eq!(first, "A:x y");
}
