use jloc::errors::MyError;

#[test]
fn command_line_args_message() {
    let err = MyError::CommandLineArgs;
    assert_eq!(
        err.message(),
        "Please provide a file name as a command-line argument."
    );
}

#[test]
fn file_read_error_message_names_path_and_cause() {
    let err = MyError::FileReadError {
        path: "notes.txt".to_string(),
        error: "not found".to_string(),
    };
    assert_eq!(err.message(), "Error reading the file 'notes.txt': not found");
}

#[test]
fn parsing_error_message_carries_the_detail() {
    let err = MyError::ParsingError("unexpected character '#'".to_string());
    assert_eq!(err.message(), "Parsing error: unexpected character '#'");
}
