//! Errors reported by a camera capture.
use vstd::prelude::*;

verus! {

/// An error of the capture backend: a numeric code and a message.
#[derive(Debug)]
pub struct CvError {
    pub code: i32,
    pub message: String,
}

impl CvError {
    /// An error with the given code and message.
    pub fn new(code: i32, message: String) -> (r: CvError)
        ensures
            r.code == code,
            r.message@ == message@,
    {
        CvError { code, message }
    }

    /// A copy of this error: same code, same message.
    pub fn duplicate(&self) -> (r: CvError)
        ensures
            r.code == self.code,
            r.message@ == self.message@,
    {
        CvError::new(self.code, self.message.clone())
    }
}

} // verus!
