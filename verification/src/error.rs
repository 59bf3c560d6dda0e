use vstd::prelude::*;

verus! {

/// The error of every memory and patching operation: a message.
#[derive(Debug)]
pub struct ProcessError {
    msg: String,
}

impl ProcessError {
    /// The message of this error.
    pub closed spec fn message(&self) -> Seq<char> {
        self.msg@
    }

    /// An error with the message `msg`.
    pub fn new(msg: &str) -> (e: ProcessError)
        ensures
            e.message() == msg@,
    {
        ProcessError { msg: String::from_str(msg) }
    }

    /// The error of a method that is not implemented yet:
    /// "Not Yet Implemented: <method>.".
    #[allow(non_snake_case)]
    pub fn NotYetImplemented(method: &str) -> (e: ProcessError)
        ensures
            e.message() == "Not Yet Implemented: "@ + method@ + "."@,
    {
        let mut msg = String::from_str("Not Yet Implemented: ");
        msg.append(method);
        msg.append(".");
        ProcessError { msg }
    }

    /// The message, as `description` gives it.
    pub fn description(&self) -> (s: &str)
        ensures
            s@ == self.message(),
    {
        self.msg.as_str()
    }

    /// The message, as the error's `Display` writes it.
    pub fn to_string(&self) -> (s: String)
        ensures
            s@ == self.message(),
    {
        self.msg.clone()
    }
}

impl From<String> for ProcessError {
    /// The error with the message `msg`.
    fn from(msg: String) -> (e: ProcessError) {
        ProcessError { msg }
    }
}

impl vstd::std_specs::convert::FromSpecImpl<String> for ProcessError {
    open spec fn obeys_from_spec() -> bool {
        true
    }

    closed spec fn from_spec(msg: String) -> ProcessError {
        ProcessError { msg }
    }
}

/// The error made from a message carries that message.
pub proof fn law_from_keeps_message(msg: String)
    ensures
        <ProcessError as vstd::std_specs::convert::FromSpec<String>>::from_spec(msg).message() == msg@,
{
}

} // verus!
