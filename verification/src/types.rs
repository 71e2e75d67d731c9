use vstd::prelude::*;

verus! {

/// An error reported by the storage engine. It is identified by its message.
#[derive(Debug)]
pub struct CrabDBError {
    message: String,
}

impl View for CrabDBError {
    type V = Seq<char>;

    /// The characters of the error's message.
    closed spec fn view(&self) -> Seq<char> {
        self.message@
    }
}

impl CrabDBError {
    pub fn new(message: String) -> (error: Self)
        ensures
            error@ == message@,
    {
        CrabDBError { message }
    }

    pub fn message(&self) -> (message: &String)
        ensures
            message@ == self@,
    {
        &self.message
    }
}

pub type CrabDbResult<T> = Result<T, CrabDBError>;

} // verus!
