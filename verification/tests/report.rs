use nasko::report::{error_description, grace_description};

#[test]
fn graceful_stops_have_names() {
    assert_eq!(grace_description(0), "Graceful Halt");
    assert_eq!(grace_description(1), "End of Program");
    assert_eq!(grace_description(2), "Unknown Stop Code");
    assert_eq!(grace_description(u32::MAX), "Unknown Stop Code");
}

#[test]
fn crashes_have_names() {
    assert_eq!(error_description(1), "Invalid Header");
    assert_eq!(error_description(2), "Incomplete Bytecode");
    assert_eq!(error_description(3), "Unknown Opcode");
    assert_eq!(error_description(0), "Unknown Error");
    assert_eq!(error_description(4), "Unknown Error");
}
