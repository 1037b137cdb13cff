//! Bounded text and the action arguments that a module returns.

use vstd::prelude::*;
use vstd::string::StrSliceExecFns;
use vstd::string::StringExecFns;

verus! {

/// Whether `c` is a control character, as `char::is_control` defines it: the Unicode
/// general category `Cc`, which is U+0000..=U+001F and U+007F..=U+009F.
pub open spec fn is_control_char(c: char) -> bool {
    (c as u32) <= 0x1f || (0x7f <= (c as u32) && (c as u32) <= 0x9f)
}

/// Whether `s` holds no control character.
pub open spec fn has_no_control(s: Seq<char>) -> bool {
    forall|i: int| 0 <= i < s.len() ==> !is_control_char(#[trigger] s[i])
}

/// Whether a text of `s` chars lies within `minimum..=maximum` characters and holds no
/// control character.
pub open spec fn text_is_valid(s: Seq<char>, minimum: int, maximum: int) -> bool {
    &&& minimum <= s.len() <= maximum
    &&& has_no_control(s)
}

/// The refusal, if any, of a text field named `label` that must have between `minimum` and
/// `maximum` characters and no control character.
pub open spec fn text_error(label: Seq<char>, s: Seq<char>, minimum: int, maximum: int) -> Option<
    ResultErrorView,
> {
    if text_is_valid(s, minimum, maximum) {
        None
    } else {
        Some(ResultErrorView::InvalidText(label))
    }
}

/// Exec form of `is_control_char`.
pub fn char_is_control(c: char) -> (r: bool)
    ensures
        r == is_control_char(c),
{
    let code: u32 = c as u32;
    code <= 0x1f || (0x7f <= code && code <= 0x9f)
}

/// Counts the characters of `value` and tells whether one of them is a control character.
fn scan_text(value: &str) -> (r: (usize, bool))
    ensures
        r.0 == value@.len(),
        r.1 == !has_no_control(value@),
{
    let total: usize = value.unicode_len();
    let mut count: usize = 0;
    let mut control = false;
    for c in it: value.chars()
        invariant
            total == value@.len(),
            count == it.index(),
            it.seq() == value@,
            control == exists|j: int| 0 <= j < it.index() && is_control_char(#[trigger] value@[j]),
    {
        if char_is_control(c) {
            control = true;
        }
        count = count + 1;
    }
    (count, control)
}

/// The longest delay, in seconds, that a scheduled action may carry: one year.
pub const MAX_SCHEDULE_DELAY: u64 = 31_536_000;

/// The most arguments that a command action may carry.
pub const MAX_COMMAND_ARGUMENTS: usize = 32;

/// The most characters of one command argument.
pub const MAX_COMMAND_ARGUMENT_CHARS: usize = 4096;

/// Why a result that a module returned is refused.
#[derive(Debug)]
pub enum ResultError {
    /// A text field is too short, too long, or holds a control character; `label` names it.
    InvalidText { label: String },
    /// A command action has no argument or more than 32.
    InvalidCommand,
    /// A scheduled action is due more than a year ahead.
    DelayTooLong,
    /// A package icon path is not a relative path of plain components.
    InvalidIconPath,
    /// An open-URL action is too long or not an absolute HTTPS URL.
    InvalidOpenUrl,
}

/// What a `ResultError` says, with its label taken by its characters.
pub enum ResultErrorView {
    InvalidText(Seq<char>),
    InvalidCommand,
    DelayTooLong,
    InvalidIconPath,
    InvalidOpenUrl,
}

impl View for ResultError {
    type V = ResultErrorView;

    open spec fn view(&self) -> ResultErrorView {
        match self {
            ResultError::InvalidText { label } => ResultErrorView::InvalidText(label@),
            ResultError::InvalidCommand => ResultErrorView::InvalidCommand,
            ResultError::DelayTooLong => ResultErrorView::DelayTooLong,
            ResultError::InvalidIconPath => ResultErrorView::InvalidIconPath,
            ResultError::InvalidOpenUrl => ResultErrorView::InvalidOpenUrl,
        }
    }
}

/// The message that the host reports for a refused result.
pub open spec fn result_error_message(e: ResultErrorView) -> Seq<char> {
    match e {
        ResultErrorView::InvalidText(label) => "invalid "@ + label,
        ResultErrorView::InvalidCommand => "invalid command action"@,
        ResultErrorView::DelayTooLong => "scheduled action delay exceeds one year"@,
        ResultErrorView::InvalidIconPath => "invalid package icon path"@,
        ResultErrorView::InvalidOpenUrl => "invalid open URL action"@,
    }
}

impl ResultError {
    /// The message that the host reports for this refusal.
    pub fn message(&self) -> (r: String)
        ensures
            r@ == result_error_message(self@),
    {
        match self {
            ResultError::InvalidText { label } => {
                let mut m = String::from_str("invalid ");
                m.append(label.as_str());
                m
            },
            ResultError::InvalidCommand => String::from_str("invalid command action"),
            ResultError::DelayTooLong => String::from_str("scheduled action delay exceeds one year"),
            ResultError::InvalidIconPath => String::from_str("invalid package icon path"),
            ResultError::InvalidOpenUrl => String::from_str("invalid open URL action"),
        }
    }
}

/// Checks that `value` has between `minimum` and `maximum` characters (inclusive) and no
/// control character; the error names `label`.
pub fn valid_text(label: &str, value: &str, minimum: usize, maximum: usize) -> (r: Result<(), ResultError>)
    ensures
        r is Ok <==> text_is_valid(value@, minimum as int, maximum as int),
        r matches Err(e) ==> e@ == ResultErrorView::InvalidText(label@),
{
    let (length, control) = scan_text(value);
    if length < minimum || length > maximum || control {
        return Err(ResultError::InvalidText { label: String::from_str(label) });
    }
    Ok(())
}

/// The fewest characters that argument `index` of a command may have: the program
/// name (the first argument) may not be empty, the others may.
pub open spec fn command_argument_minimum(index: int) -> int {
    if index == 0 { 1 } else { 0 }
}

/// Whether `command` is an acceptable command line: one to 32 arguments, each a valid
/// text of at most 4096 characters, the first of them non-empty.
pub open spec fn command_is_valid(command: Seq<Seq<char>>) -> bool {
    &&& 1 <= command.len() <= MAX_COMMAND_ARGUMENTS
    &&& forall|i: int|
        0 <= i < command.len() ==> text_is_valid(
            #[trigger] command[i],
            command_argument_minimum(i),
            MAX_COMMAND_ARGUMENT_CHARS as int,
        )
}

/// The error that `validate_command` reports for an invalid command line.
pub open spec fn command_error(command: Seq<Seq<char>>) -> ResultErrorView {
    if 1 <= command.len() <= MAX_COMMAND_ARGUMENTS {
        ResultErrorView::InvalidText("command argument"@)
    } else {
        ResultErrorView::InvalidCommand
    }
}

/// The characters of each string of `v`.
pub open spec fn strings_view(v: Seq<String>) -> Seq<Seq<char>> {
    v.map_values(|s: String| s@)
}

/// Checks a command line that a module asks the launcher to run.
pub fn validate_command(command: &[String]) -> (r: Result<(), ResultError>)
    ensures
        r is Ok <==> command_is_valid(strings_view(command@)),
        r matches Err(e) ==> e@ == command_error(strings_view(command@)),
{
    let ghost args = strings_view(command@);
    if command.len() == 0 || command.len() > MAX_COMMAND_ARGUMENTS {
        return Err(ResultError::InvalidCommand);
    }
    let mut index: usize = 0;
    while index < command.len()
        invariant
            args == strings_view(command@),
            1 <= command.len() <= MAX_COMMAND_ARGUMENTS,
            index <= command.len(),
            forall|i: int|
                0 <= i < index ==> text_is_valid(
                    #[trigger] args[i],
                    command_argument_minimum(i),
                    MAX_COMMAND_ARGUMENT_CHARS as int,
                ),
        decreases command.len() - index,
    {
        let minimum: usize = if index == 0 { 1 } else { 0 };
        let checked = valid_text("command argument", command[index].as_str(), minimum, MAX_COMMAND_ARGUMENT_CHARS);
        assert(args[index as int] == command@[index as int]@);
        if checked.is_err() {
            return checked;
        }
        index = index + 1;
    }
    Ok(())
}

/// Checks that a scheduled action is due at most a year ahead.
pub fn validate_delay(delay: u64) -> (r: Result<(), ResultError>)
    ensures
        r is Ok <==> delay <= MAX_SCHEDULE_DELAY,
        r matches Err(e) ==> e@ == ResultErrorView::DelayTooLong,
{
    if delay > MAX_SCHEDULE_DELAY {
        return Err(ResultError::DelayTooLong);
    }
    Ok(())
}

} // verus!
