//! The library's error: a message.

use vstd::prelude::*;

verus! {

/// An error carrying a human-readable message.
#[derive(Debug)]
pub struct Error(pub String);

/// Values that can become an error message.
pub trait IntoMessage: Sized {
    /// The characters of the message this value becomes.
    spec fn message_view(&self) -> Seq<char>;

    /// Converts the value into an owned message.
    fn into_message(self) -> (r: String)
        ensures
            r@ == self.message_view(),
    ;
}

impl<'a> IntoMessage for &'a str {
    open spec fn message_view(&self) -> Seq<char> {
        (*self)@
    }

    fn into_message(self) -> (r: String) {
        self.to_owned()
    }
}

impl IntoMessage for String {
    open spec fn message_view(&self) -> Seq<char> {
        self@
    }

    fn into_message(self) -> (r: String) {
        self
    }
}

impl Error {
    /// An error with the given message.
    pub fn new<M: IntoMessage>(msg: M) -> (e: Error)
        ensures
            e.0@ == msg.message_view(),
    {
        Error(msg.into_message())
    }

    /// The message, as `Display` would print it.
    pub fn message(&self) -> (r: String)
        ensures
            r@ == self.0@,
    {
        self.0.clone()
    }
}

/// Results of the library's fallible operations.
pub type Result<T> = std::result::Result<T, Error>;

} // verus!
