use vstd::prelude::*;

verus! {

/// A failure reported to the user: the line it belongs to and what went wrong.
#[derive(Debug, PartialEq, Eq)]
pub struct Error {
    pub line: u32,
    pub msg: String,
}

/// The mathematical value of an [`Error`].
pub struct ErrorView {
    pub line: u32,
    pub msg: Seq<char>,
}

impl View for Error {
    type V = ErrorView;

    open spec fn view(&self) -> ErrorView {
        ErrorView { line: self.line, msg: self.msg@ }
    }
}

impl Clone for Error {
    fn clone(&self) -> (copy: Self)
        ensures
            copy@ == self@,
    {
        Error { line: self.line, msg: self.msg.clone() }
    }
}

impl ErrorView {
    /// The line printed for an error: the line number in brackets, then the message.
    pub open spec fn report(self) -> Seq<char> {
        "[line "@ + crate::text::decimal_text(self.line as nat) + "] Error: "@ + self.msg
    }
}

impl Error {
    /// Renders the error as the line that is shown to the user.
    pub fn report(&self) -> (shown: String)
        ensures
            shown@ == self@.report(),
    {
        let mut shown = String::from_str("[line ");
        let line = crate::text::decimal(self.line);
        shown.append(line.as_str());
        shown.append("] Error: ");
        shown.append(self.msg.as_str());
        shown
    }
}

} // verus!
