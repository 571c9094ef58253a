//! When reading or writing CBOR goes wrong.

use vstd::prelude::*;

verus! {

/// `std::io::Error`: the failure of a byte transport, carried through as it
/// was reported.
#[verifier::external_type_specification]
#[verifier::external_body]
pub struct ExIoError(std::io::Error);

/// An uninhabited type: the failure of a transport that cannot fail. No
/// value of it can be made, since there is none of what its one variant
/// holds.
pub enum Uninhabited {
    Never(core::convert::Infallible),
}

/// Categorizes the cause of an [`Error`].
#[derive(Clone, Copy, Debug, PartialEq, Eq, Structural)]
pub enum Category {
    /// The error was caused by a failure to read or write bytes on an IO stream.
    Io,
    /// The error was caused by input that was not syntactically valid CBOR.
    Syntax,
    /// The error was caused by input data that was semantically incorrect.
    Data,
    /// The error was caused by prematurely reaching the end of the input data.
    Eof,
}

/// The `Display` of `std::io::Error`: the transport's own words for its
/// failure. Nothing is claimed of them.
#[verifier::external_body]
fn transport_words(error: &std::io::Error) -> (words: String) {
    format!("{}", error)
}

/// The decimal digit for `digit`, which is below ten.
pub open spec fn digit_char(digit: nat) -> char {
    if digit == 0 {
        '0'
    } else if digit == 1 {
        '1'
    } else if digit == 2 {
        '2'
    } else if digit == 3 {
        '3'
    } else if digit == 4 {
        '4'
    } else if digit == 5 {
        '5'
    } else if digit == 6 {
        '6'
    } else if digit == 7 {
        '7'
    } else if digit == 8 {
        '8'
    } else {
        '9'
    }
}

/// `number` in decimal digits, without leading zeros.
pub open spec fn decimal(number: nat) -> Seq<char>
    decreases number,
{
    if number < 10 {
        seq![digit_char(number)]
    } else {
        decimal(number / 10).push(digit_char(number % 10))
    }
}

/// What an error with these words for its reason, at this offset, reads as:
/// the words, and behind them the offset where one is known.
pub open spec fn rendered(words: Seq<char>, offset: u64) -> Seq<char> {
    if offset == 0 {
        words
    } else {
        words + " at offset "@ + decimal(offset as nat)
    }
}

/// The decimal digit for `digit`.
fn digit_text(digit: u64) -> (text: &'static str)
    requires
        digit < 10,
    ensures
        text@ == seq![digit_char(digit as nat)],
{
    proof {
        reveal_strlit("0");
        reveal_strlit("1");
        reveal_strlit("2");
        reveal_strlit("3");
        reveal_strlit("4");
        reveal_strlit("5");
        reveal_strlit("6");
        reveal_strlit("7");
        reveal_strlit("8");
        reveal_strlit("9");
    }
    let text = if digit == 0 {
        "0"
    } else if digit == 1 {
        "1"
    } else if digit == 2 {
        "2"
    } else if digit == 3 {
        "3"
    } else if digit == 4 {
        "4"
    } else if digit == 5 {
        "5"
    } else if digit == 6 {
        "6"
    } else if digit == 7 {
        "7"
    } else if digit == 8 {
        "8"
    } else {
        "9"
    };
    text
}

/// `number` in decimal digits.
pub fn decimal_text(number: u64) -> (text: String)
    ensures
        text@ == decimal(number as nat),
    decreases number,
{
    if number < 10 {
        String::from_str(digit_text(number))
    } else {
        let mut text = decimal_text(number / 10);
        text.append(digit_text(number % 10));
        text
    }
}

/// Puts the offset, where one is known, behind the words for a reason.
pub fn render(words: String, offset: u64) -> (text: String)
    ensures
        text@ == rendered(words@, offset),
{
    if offset == 0 {
        words
    } else {
        let mut text = words;
        text.append(" at offset ");
        text.append(decimal_text(offset).as_str());
        text
    }
}

/// The message of the error for a value of another type than the expected
/// one.
pub open spec fn mismatch(unexpected: Option<&str>, expected: &str) -> Seq<char> {
    "invalid type: "@ + match unexpected {
        Some(found) => found@,
        None => "null"@,
    } + ", expected "@ + expected@
}

/// Why an operation failed.
#[derive(Debug)]
pub enum ErrorCode {
    /// A free-form message.
    Message(String),
    /// A failure of the underlying transport.
    Io(std::io::Error),
    /// A message whose text was not kept.
    AnyMessage,
    /// A transport failure whose detail was not kept.
    AnyIo,
    EofWhileParsingValue,
    EofWhileParsingArray,
    EofWhileParsingMap,
    NumberOutOfRange,
    LengthOutOfRange,
    InvalidUtf8,
    UnassignedCode,
    UnexpectedCode,
    TrailingData,
    ArrayTooShort,
    ArrayTooLong,
    RecursionLimitExceeded,
    IndefiniteOutOfMemory,
}

impl ErrorCode {
    /// The words for this reason; `None` for a failure of the transport,
    /// which is told in the transport's own words.
    pub open spec fn text(self) -> Option<Seq<char>> {
        match self {
            ErrorCode::Message(message) => Some(message@),
            ErrorCode::Io(_) => None,
            ErrorCode::AnyMessage => Some("other error"@),
            ErrorCode::AnyIo => Some("IO error"@),
            ErrorCode::EofWhileParsingValue => Some("EOF while parsing a value"@),
            ErrorCode::EofWhileParsingArray => Some("EOF while parsing an array"@),
            ErrorCode::EofWhileParsingMap => Some("EOF while parsing a map"@),
            ErrorCode::NumberOutOfRange => Some("number out of range"@),
            ErrorCode::LengthOutOfRange => Some("length out of range"@),
            ErrorCode::InvalidUtf8 => Some("invalid UTF-8"@),
            ErrorCode::UnassignedCode => Some("unassigned type"@),
            ErrorCode::UnexpectedCode => Some("unexpected code"@),
            ErrorCode::TrailingData => Some("trailing data"@),
            ErrorCode::ArrayTooShort => Some("array too short"@),
            ErrorCode::ArrayTooLong => Some("array too long"@),
            ErrorCode::RecursionLimitExceeded => Some("recursion limit exceeded"@),
            ErrorCode::IndefiniteOutOfMemory => Some(
                "indefinite strings exceed available memory"@,
            ),
        }
    }

    /// The words for this reason.
    pub fn to_string(&self) -> (text: String)
        ensures
            self.text() matches Some(words) ==> text@ == words,
    {
        match self {
            ErrorCode::Message(message) => message.clone(),
            ErrorCode::Io(error) => transport_words(error),
            ErrorCode::AnyMessage => String::from_str("other error"),
            ErrorCode::AnyIo => String::from_str("IO error"),
            ErrorCode::EofWhileParsingValue => String::from_str("EOF while parsing a value"),
            ErrorCode::EofWhileParsingArray => String::from_str("EOF while parsing an array"),
            ErrorCode::EofWhileParsingMap => String::from_str("EOF while parsing a map"),
            ErrorCode::NumberOutOfRange => String::from_str("number out of range"),
            ErrorCode::LengthOutOfRange => String::from_str("length out of range"),
            ErrorCode::InvalidUtf8 => String::from_str("invalid UTF-8"),
            ErrorCode::UnassignedCode => String::from_str("unassigned type"),
            ErrorCode::UnexpectedCode => String::from_str("unexpected code"),
            ErrorCode::TrailingData => String::from_str("trailing data"),
            ErrorCode::ArrayTooShort => String::from_str("array too short"),
            ErrorCode::ArrayTooLong => String::from_str("array too long"),
            ErrorCode::RecursionLimitExceeded => String::from_str("recursion limit exceeded"),
            ErrorCode::IndefiniteOutOfMemory => String::from_str(
                "indefinite strings exceed available memory",
            ),
        }
    }

    /// The category that this reason belongs to.
    pub open spec fn category(self) -> Category {
        match self {
            ErrorCode::Message(_) | ErrorCode::AnyMessage => Category::Data,
            ErrorCode::Io(_) | ErrorCode::AnyIo => Category::Io,
            ErrorCode::EofWhileParsingValue
            | ErrorCode::EofWhileParsingArray
            | ErrorCode::EofWhileParsingMap => Category::Eof,
            _ => Category::Syntax,
        }
    }
}

/// All possible errors that can occur when reading or writing CBOR data.
#[derive(Debug)]
pub struct Error {
    code: ErrorCode,
    offset: u64,
}

impl Error {
    /// The error with the given reason and offset.
    pub closed spec fn at(code: ErrorCode, offset: u64) -> Error {
        Error { code, offset }
    }

    /// The reason of this error.
    pub closed spec fn reason(self) -> ErrorCode {
        self.code
    }

    /// The byte offset that this error carries; 0 when none is known.
    pub closed spec fn position(self) -> u64 {
        self.offset
    }

    /// An error is its reason and its offset, and nothing else.
    pub broadcast proof fn lemma_at(code: ErrorCode, offset: u64)
        ensures
            (#[trigger] Error::at(code, offset)).reason() == code,
            Error::at(code, offset).position() == offset,
    {
    }

    /// Errors with the same reason and the same offset are the same.
    pub proof fn lemma_same(self, other: Error)
        requires
            self.reason() == other.reason(),
            self.position() == other.position(),
        ensures
            self == other,
    {
    }

    /// Why the operation failed.
    pub fn code(&self) -> (code: &ErrorCode)
        ensures
            *code == self.reason(),
    {
        &self.code
    }

    /// The byte offset at which the error occurred.
    pub fn offset(&self) -> (offset: u64)
        ensures
            offset == self.position(),
    {
        self.offset
    }

    /// An error with the given reason, detected at the given offset.
    pub fn syntax(code: ErrorCode, offset: u64) -> (error: Error)
        ensures
            error == Error::at(code, offset),
    {
        Error { code, offset }
    }

    /// A transport failure, at an unknown offset.
    pub fn io(error: std::io::Error) -> (e: Error)
        ensures
            e == Error::at(ErrorCode::Io(error), 0),
    {
        Error { code: ErrorCode::Io(error), offset: 0 }
    }

    /// An error that carries a free-form message, at an unknown offset.
    pub fn custom(message: String) -> (error: Error)
        ensures
            error == Error::at(ErrorCode::Message(message), 0),
    {
        Error { code: ErrorCode::Message(message), offset: 0 }
    }

    /// The error for a value of another type than the expected one. Without
    /// `unexpected`, what was found is the null value.
    pub fn invalid_type(unexpected: Option<&str>, expected: &str) -> (error: Error)
        ensures
            error.position() == 0,
            error.reason() matches ErrorCode::Message(message) && message@ == mismatch(
                unexpected,
                expected,
            ),
    {
        let mut message = String::from_str("invalid type: ");
        match unexpected {
            Some(found) => message.append(found),
            None => message.append("null"),
        }
        message.append(", expected ");
        message.append(expected);
        Error::custom(message)
    }

    /// What this error reads as: the words for its reason, followed by
    /// `" at offset N"` where the offset is known.
    pub fn to_string(&self) -> (text: String)
        ensures
            self.reason().text() matches Some(words) ==> text@ == rendered(
                words,
                self.position(),
            ),
            exists|words: Seq<char>| text@ == rendered(words, self.position()),
    {
        let words = self.code.to_string();
        let ghost said = words@;
        let text = render(words, self.offset);
        assert(text@ == rendered(said, self.position()));
        text
    }

    /// Categorizes the cause of this error.
    pub fn classify(&self) -> (category: Category)
        ensures
            category == self.reason().category(),
    {
        match self.code {
            ErrorCode::Message(_) => Category::Data,
            ErrorCode::Io(_) => Category::Io,
            ErrorCode::AnyMessage => Category::Data,
            ErrorCode::AnyIo => Category::Io,
            ErrorCode::EofWhileParsingValue
            | ErrorCode::EofWhileParsingArray
            | ErrorCode::EofWhileParsingMap => Category::Eof,
            ErrorCode::NumberOutOfRange
            | ErrorCode::LengthOutOfRange
            | ErrorCode::InvalidUtf8
            | ErrorCode::UnassignedCode
            | ErrorCode::UnexpectedCode
            | ErrorCode::TrailingData
            | ErrorCode::ArrayTooShort
            | ErrorCode::ArrayTooLong
            | ErrorCode::RecursionLimitExceeded
            | ErrorCode::IndefiniteOutOfMemory => Category::Syntax,
        }
    }

    /// Returns true if this error was caused by a failure to read or write
    /// bytes on an IO stream.
    pub fn is_io(&self) -> (yes: bool)
        ensures
            yes == (self.reason().category() is Io),
    {
        match self.classify() {
            Category::Io => true,
            _ => false,
        }
    }

    /// Returns true if this error was caused by input that was not
    /// syntactically valid CBOR.
    pub fn is_syntax(&self) -> (yes: bool)
        ensures
            yes == (self.reason().category() is Syntax),
    {
        match self.classify() {
            Category::Syntax => true,
            _ => false,
        }
    }

    /// Returns true if this error was caused by data that was semantically
    /// incorrect.
    pub fn is_data(&self) -> (yes: bool)
        ensures
            yes == (self.reason().category() is Data),
    {
        match self.classify() {
            Category::Data => true,
            _ => false,
        }
    }

    /// Returns true if this error was caused by prematurely reaching the end
    /// of the input data.
    pub fn is_eof(&self) -> (yes: bool)
        ensures
            yes == (self.reason().category() is Eof),
    {
        match self.classify() {
            Category::Eof => true,
            _ => false,
        }
    }

    /// Every error falls under exactly one category: of the four tests
    /// `is_io`, `is_syntax`, `is_data` and `is_eof`, one holds and the other
    /// three do not.
    pub proof fn lemma_one_category(self)
        ensures
            (if self.reason().category() is Io {
                1int
            } else {
                0int
            }) + (if self.reason().category() is Syntax {
                1int
            } else {
                0int
            }) + (if self.reason().category() is Data {
                1int
            } else {
                0int
            }) + (if self.reason().category() is Eof {
                1int
            } else {
                0int
            }) == 1,
    {
    }
}

impl From<std::io::Error> for Error {
    fn from(error: std::io::Error) -> (e: Error) {
        Error::io(error)
    }
}

impl vstd::std_specs::convert::FromSpecImpl<std::io::Error> for Error {
    open spec fn obeys_from_spec() -> bool {
        true
    }

    open spec fn from_spec(error: std::io::Error) -> Error {
        Error::at(ErrorCode::Io(error), 0)
    }
}

impl From<()> for Error {
    fn from(error: ()) -> (e: Error) {
        Error::syntax(ErrorCode::AnyIo, 0)
    }
}

impl vstd::std_specs::convert::FromSpecImpl<()> for Error {
    open spec fn obeys_from_spec() -> bool {
        true
    }

    open spec fn from_spec(error: ()) -> Error {
        Error::at(ErrorCode::AnyIo, 0)
    }
}

} // verus!
