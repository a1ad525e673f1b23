use authentication_background::Error;

#[test]
fn description_of_each_error() {
    assert_eq!(
        Error::ProcessingError("disk full".to_owned()).description(),
        "Error processing job"
    );
    assert_eq!(
        Error::DuplicateHandler("mail".to_owned()).description(),
        "Handler with that name already exists"
    );
    assert_eq!(
        Error::ExitHandler.description(),
        "Cannot register handler with reserved anme 'exit'"
    );
    assert_eq!(Error::SendError.description(), "Could not send data");
    assert_eq!(Error::JoinError.description(), "Could not join thread");
}

#[test]
fn text_of_each_error() {
    assert_eq!(
        Error::ProcessingError("disk full".to_owned()).to_string(),
        "Error processing data: 'disk full'"
    );
    assert_eq!(
        Error::DuplicateHandler("mail".to_owned()).to_string(),
        "Handler already exists for 'mail'"
    );
    assert_eq!(
        Error::ExitHandler.to_string(),
        "Cannot register handler with reserved name 'exit'"
    );
    assert_eq!(Error::SendError.to_string(), "Could not send data to thread");
    assert_eq!(Error::JoinError.to_string(), "Could not join thread");
}

#[test]
fn text_keeps_an_empty_detail() {
    assert_eq!(
        Error::ProcessingError(String::new()).to_string(),
        "Error processing data: ''"
    );
    assert_eq!(
        Error::DuplicateHandler(String::new()).to_string(),
        "Handler already exists for ''"
    );
}

#[test]
fn text_keeps_quotes_and_other_scripts_in_the_detail() {
    assert_eq!(
        Error::ProcessingError("can't reach 'grüße'".to_owned()).to_string(),
        "Error processing data: 'can't reach 'grüße''"
    );
}

#[test]
fn errors_can_be_printed_for_debugging() {
    assert_eq!(format!("{:?}", Error::SendError), "SendError");
    assert_eq!(
        format!("{:?}", Error::DuplicateHandler("mail".to_owned())),
        "DuplicateHandler(\"mail\")"
    );
}
