use severum::descriptor::{parse_descriptor, DescriptorField, ParseError};

fn full_descriptor_text() -> String {
    String::from(
        "{\"id\":\"x1\",\"challenge\":{\"title\":\"Buffer Overflow 101\",\
         \"category\":\"Memory Safety\",\"difficulty\":\"easy\",\
         \"description\":\"smash the stack\",\"hint\":\"check the stack\"}}",
    )
}

#[test]
fn parses_a_full_descriptor() {
    let descriptor = parse_descriptor(&full_descriptor_text()).unwrap();
    assert_eq!(descriptor.external_id, "x1");
    assert_eq!(descriptor.title, "Buffer Overflow 101");
    assert_eq!(descriptor.category_name, "Memory Safety");
    assert_eq!(descriptor.difficulty, "easy");
    assert_eq!(descriptor.description, "smash the stack");
    assert_eq!(descriptor.hint, Some(String::from("check the stack")));
}

#[test]
fn hint_may_be_absent() {
    let text = String::from(
        "{\"id\":\"a\",\"challenge\":{\"title\":\"T\",\"category\":\"C\",\
         \"difficulty\":\"d\",\"description\":\"x\"}}",
    );
    let descriptor = parse_descriptor(&text).unwrap();
    assert_eq!(descriptor.hint, None);
}

#[test]
fn hint_may_be_null() {
    let text = String::from(
        "{\"id\":\"a\",\"challenge\":{\"title\":\"T\",\"category\":\"C\",\
         \"difficulty\":\"d\",\"description\":\"x\",\"hint\":null}}",
    );
    let descriptor = parse_descriptor(&text).unwrap();
    assert_eq!(descriptor.hint, None);
}

#[test]
fn malformed_json_is_a_syntax_error() {
    let text = String::from("{\"id\": \"x1\", ");
    assert_eq!(parse_descriptor(&text).unwrap_err(), ParseError::Syntax);
}

#[test]
fn missing_id_is_reported() {
    let text = String::from(
        "{\"challenge\":{\"title\":\"T\",\"category\":\"C\",\
         \"difficulty\":\"d\",\"description\":\"x\"}}",
    );
    assert_eq!(parse_descriptor(&text).unwrap_err(), ParseError::MissingField(DescriptorField::ExternalId));
}

#[test]
fn missing_challenge_object_is_reported() {
    let text = String::from("{\"id\":\"a\"}");
    assert_eq!(parse_descriptor(&text).unwrap_err(), ParseError::MissingField(DescriptorField::Challenge));
}

#[test]
fn challenge_of_wrong_type_is_reported() {
    let text = String::from("{\"id\":\"a\",\"challenge\":17}");
    assert_eq!(parse_descriptor(&text).unwrap_err(), ParseError::WrongType(DescriptorField::Challenge));
}

#[test]
fn missing_title_is_reported() {
    let text = String::from(
        "{\"id\":\"a\",\"challenge\":{\"category\":\"C\",\
         \"difficulty\":\"d\",\"description\":\"x\"}}",
    );
    assert_eq!(parse_descriptor(&text).unwrap_err(), ParseError::MissingField(DescriptorField::Title));
}

#[test]
fn numeric_difficulty_is_a_type_error() {
    let text = String::from(
        "{\"id\":\"a\",\"challenge\":{\"title\":\"T\",\"category\":\"C\",\
         \"difficulty\":3,\"description\":\"x\"}}",
    );
    assert_eq!(parse_descriptor(&text).unwrap_err(), ParseError::WrongType(DescriptorField::Difficulty));
}

#[test]
fn null_id_is_a_type_error() {
    let text = String::from(
        "{\"id\":null,\"challenge\":{\"title\":\"T\",\"category\":\"C\",\
         \"difficulty\":\"d\",\"description\":\"x\"}}",
    );
    assert_eq!(parse_descriptor(&text).unwrap_err(), ParseError::WrongType(DescriptorField::ExternalId));
}

#[test]
fn hint_of_wrong_type_is_reported() {
    let text = String::from(
        "{\"id\":\"a\",\"challenge\":{\"title\":\"T\",\"category\":\"C\",\
         \"difficulty\":\"d\",\"description\":\"x\",\"hint\":[1]}}",
    );
    assert_eq!(parse_descriptor(&text).unwrap_err(), ParseError::WrongType(DescriptorField::Hint));
}

#[test]
fn non_object_document_misses_its_id() {
    let text = String::from("[1,2,3]");
    assert_eq!(parse_descriptor(&text).unwrap_err(), ParseError::MissingField(DescriptorField::ExternalId));
}
