use vstd::prelude::*;

verus! {

/// The text carried by the error that a request for a pool without workers gets.
pub open spec fn zero_size_text() -> Seq<char> {
    "size must be greater than zero"@
}

/// The text that precedes the message when the error is rendered.
pub open spec fn rendering_prefix() -> Seq<char> {
    "PoolCreationError: "@
}

/// Why a pool could not be created. It carries a human-readable message;
/// the view of the error is that message.
#[derive(Debug)]
pub struct PoolCreationError {
    message: String,
}

impl View for PoolCreationError {
    type V = Seq<char>;

    closed spec fn view(&self) -> Seq<char> {
        self.message@
    }
}

impl PoolCreationError {
    /// An error carrying `message`.
    pub fn new(message: String) -> (e: Self)
        ensures
            e@ == message@,
    {
        PoolCreationError { message }
    }

    /// The error for a requested size of zero.
    pub fn zero_size() -> (e: Self)
        ensures
            e@ == zero_size_text(),
            e@.len() > 0,
    {
        proof {
            reveal_strlit("size must be greater than zero");
        }
        PoolCreationError { message: String::from_str("size must be greater than zero") }
    }

    /// The message, without any decoration.
    pub fn message(&self) -> (m: &str)
        ensures
            m@ == self@,
    {
        self.message.as_str()
    }

    /// The error as it is shown to a reader: the type's name, a colon and the message.
    pub fn to_string(&self) -> (s: String)
        ensures
            s@ == rendering_prefix() + self@,
    {
        let mut s = String::from_str("PoolCreationError: ");
        s.append(self.message.as_str());
        s
    }
}

} // verus!
