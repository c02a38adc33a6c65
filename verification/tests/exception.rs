use bombadil::exception::{format_exception_details, ExceptionDetails, StackFrame};

fn details() -> ExceptionDetails {
    ExceptionDetails {
        text: "Uncaught".to_string(),
        line_number: 12,
        column_number: -3,
        url: None,
        exception_description: None,
        stack_trace: None,
    }
}

#[test]
fn description_wins() {
    let d = ExceptionDetails { exception_description: Some("TypeError: x is undefined".to_string()), ..details() };
    assert_eq!(format_exception_details(&d), "TypeError: x is undefined");
}

#[test]
fn without_trace_the_position_is_given() {
    assert_eq!(format_exception_details(&details()), "Uncaught: line 12, column -3");
}

#[test]
fn stack_frames_are_listed() {
    let frames = vec![
        StackFrame { function_name: "handler".to_string(), line_number: 4, column_number: 10 },
        StackFrame { function_name: "".to_string(), line_number: 0, column_number: 0 },
    ];
    let d = ExceptionDetails { stack_trace: Some(frames.clone()), url: Some("https://example.com/app.js".to_string()), ..details() };
    assert_eq!(
        format_exception_details(&d),
        "Uncaught\n    at handler (https://example.com/app.js:4:10)\n    at https://example.com/app.js:0:0"
    );
    let d = ExceptionDetails { stack_trace: Some(frames), url: Some("".to_string()), ..details() };
    assert_eq!(
        format_exception_details(&d),
        "Uncaught\n    at handler (<anonymous>:4:10)\n    at <anonymous>:0:0"
    );
}

#[test]
fn extreme_line_numbers() {
    let d = ExceptionDetails { line_number: i64::MIN, column_number: i64::MAX, ..details() };
    assert_eq!(
        format_exception_details(&d),
        format!("Uncaught: line {}, column {}", i64::MIN, i64::MAX)
    );
}
