//! The message of an exception that a page threw, as the debugger
//! describes it.
use vstd::prelude::*;

use vstd::string::StringExecFns;

use crate::duration::{decimal_text, push_char, push_decimal};

verus! {

/// One frame of an exception's stack trace.
#[derive(Debug, Clone)]
pub struct StackFrame {
    pub function_name: String,
    pub line_number: i64,
    pub column_number: i64,
}

/// What the debugger reports of an exception.
#[derive(Debug, Clone)]
pub struct ExceptionDetails {
    /// The text of the exception.
    pub text: String,
    pub line_number: i64,
    pub column_number: i64,
    /// The URL of the script, if known.
    pub url: Option<String>,
    /// The description of the thrown value, if it has one.
    pub exception_description: Option<String>,
    /// The stack trace, if there is one.
    pub stack_trace: Option<Vec<StackFrame>>,
}

/// An integer in decimal, with a minus sign when negative.
pub open spec fn int_text(n: int) -> Seq<char> {
    if n < 0 {
        seq!['-'] + decimal_text((-n) as nat)
    } else {
        decimal_text(n as nat)
    }
}

/// Where a frame is: the script's URL, or `<anonymous>` when it has none,
/// then the line and column.
pub open spec fn location(url: Option<String>, frame: StackFrame) -> Seq<char> {
    let source = match url {
        Some(u) => if u@.len() > 0 { u@ } else { "<anonymous>"@ },
        None => "<anonymous>"@,
    };
    source + seq![':'] + int_text(frame.line_number as int) + seq![':'] + int_text(frame.column_number as int)
}

/// The line of a frame in a stack trace.
pub open spec fn frame_line(url: Option<String>, frame: StackFrame) -> Seq<char> {
    if frame.function_name@.len() == 0 {
        "\n    at "@ + location(url, frame)
    } else {
        "\n    at "@ + frame.function_name@ + " ("@ + location(url, frame) + ")"@
    }
}

/// The lines of the frames of a stack trace.
pub open spec fn frames_text(url: Option<String>, frames: Seq<StackFrame>) -> Seq<char>
    decreases frames.len(),
{
    if frames.len() == 0 {
        Seq::empty()
    } else {
        frames_text(url, frames.drop_last()) + frame_line(url, frames.last())
    }
}

/// The message of an exception: the description of the thrown value when
/// there is one; otherwise its text, followed by the frames of its stack
/// trace when there is one, or by its line and column.
pub open spec fn exception_message(d: ExceptionDetails) -> Seq<char> {
    match d.exception_description {
        Some(description) => description@,
        None => match d.stack_trace {
            Some(frames) => d.text@ + frames_text(d.url, frames@),
            None => d.text@ + ": line "@ + int_text(d.line_number as int) + ", column "@ + int_text(
                d.column_number as int,
            ),
        },
    }
}

/// Appends an integer in decimal to `s`.
fn push_int(s: &mut String, n: i64)
    ensures
        final(s)@ == old(s)@ + int_text(n as int),
{
    if n < 0 {
        push_char(s, '-');
        let magnitude: u64 = (-(n + 1)) as u64 + 1;
        push_decimal(s, magnitude);
        assert(final(s)@ =~= old(s)@ + int_text(n as int));
    } else {
        push_decimal(s, n as u64);
    }
}

/// Appends the line of `frame` to `s`.
fn push_frame(s: &mut String, url: &Option<String>, frame: &StackFrame)
    ensures
        final(s)@ == old(s)@ + frame_line(*url, *frame),
{
    let ghost start = s@;
    s.append("\n    at ");
    let named = !frame.function_name.as_str().is_empty();
    if named {
        s.append(frame.function_name.as_str());
        s.append(" (");
    }
    let ghost before_location = s@;
    match url {
        Some(u) if !u.as_str().is_empty() => {
            s.append(u.as_str());
        },
        _ => {
            s.append("<anonymous>");
        },
    }
    push_char(s, ':');
    push_int(s, frame.line_number);
    push_char(s, ':');
    push_int(s, frame.column_number);
    if named {
        s.append(")");
    }
    assert(s@ =~= start + frame_line(*url, *frame));
}

/// The message of an exception.
pub fn format_exception_details(details: &ExceptionDetails) -> (r: String)
    ensures
        r@ == exception_message(*details),
{
    if let Some(description) = &details.exception_description {
        return description.clone();
    }
    match &details.stack_trace {
        Some(frames) => {
            let mut message = details.text.clone();
            let mut i: usize = 0;
            while i < frames.len()
                invariant
                    i <= frames@.len(),
                    message@ == details.text@ + frames_text(details.url, frames@.take(i as int)),
                decreases frames@.len() - i,
            {
                proof {
                    assert(frames@.take(i + 1).drop_last() =~= frames@.take(i as int));
                    assert(frames@.take(i + 1).last() == frames@[i as int]);
                }
                push_frame(&mut message, &details.url, &frames[i]);
                assert(message@ =~= details.text@ + frames_text(details.url, frames@.take(i + 1)));
                i = i + 1;
            }
            assert(frames@.take(frames@.len() as int) =~= frames@);
            message
        },
        None => {
            let mut message = details.text.clone();
            message.append(": line ");
            push_int(&mut message, details.line_number);
            message.append(", column ");
            push_int(&mut message, details.column_number);
            assert(message@ =~= exception_message(*details));
            message
        },
    }
}

} // verus!
