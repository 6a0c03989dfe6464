use delta::error::PaintError;
use delta::line_numbers::{
    format_line_number, get_line_number_components, has_line_numbers, parse_line_number_format,
};

#[test]
fn numbers_are_centered_in_a_four_column_cell() {
    assert_eq!(format_line_number(Some(1)), " 1  ");
    assert_eq!(format_line_number(Some(12)), " 12 ");
    assert_eq!(format_line_number(Some(123)), "123 ");
    assert_eq!(format_line_number(Some(1234)), "1234");
    assert_eq!(format_line_number(Some(12345)), "12345");
    assert_eq!(format_line_number(Some(0)), " 0  ");
}

#[test]
fn a_missing_number_renders_a_blank_cell() {
    assert_eq!(format_line_number(None), "    ");
}

#[test]
fn template_splits_around_the_placeholder() {
    assert_eq!(
        parse_line_number_format("%ln\u{22ee}"),
        Ok(("".to_string(), "\u{22ee}".to_string()))
    );
    assert_eq!(
        parse_line_number_format("[%ln]"),
        Ok(("[".to_string(), "]".to_string()))
    );
}

#[test]
fn template_without_placeholder_is_rejected() {
    assert_eq!(
        parse_line_number_format("nothing here"),
        Err(PaintError::InvalidLineNumberFormat {
            format: "nothing here".to_string()
        })
    );
}

#[test]
fn template_with_two_placeholders_is_rejected() {
    assert_eq!(
        parse_line_number_format("%ln %ln"),
        Err(PaintError::InvalidLineNumberFormat {
            format: "%ln %ln".to_string()
        })
    );
}

#[test]
fn components_carry_template_literals_and_number_cell() {
    assert_eq!(
        get_line_number_components(Some(7), "{%ln}"),
        Ok(("{".to_string(), " 7  ".to_string(), "}".to_string()))
    );
    assert_eq!(
        get_line_number_components(None, "{%ln}"),
        Ok(("{".to_string(), "    ".to_string(), "}".to_string()))
    );
}

// The gutter round trip on concrete values: render the three pieces into
// one string and cut it back apart at the positions the template dictates;
// the literals and the number cell come back unchanged.
#[test]
fn gutter_pieces_survive_a_round_trip() {
    let template = "=>%ln<=";
    let (before, number, after) = get_line_number_components(Some(42), template).unwrap();
    let rendered = format!("{}{}{}", before, number, after);
    assert_eq!(&rendered[..before.len()], before);
    assert_eq!(
        &rendered[before.len()..before.len() + number.len()],
        number
    );
    assert_eq!(&rendered[before.len() + number.len()..], after);
    assert_eq!(before, "=>");
    assert_eq!(number, " 42 ");
    assert_eq!(after, "<=");
}

#[test]
fn a_line_with_a_number_on_either_side_has_line_numbers() {
    assert!(has_line_numbers(&(Some(3), None)));
    assert!(has_line_numbers(&(None, Some(4))));
    assert!(has_line_numbers(&(Some(3), Some(4))));
    assert!(!has_line_numbers(&(None, None)));
}
