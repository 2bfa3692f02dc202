//! The body of a close frame: a close code and a reason.

use vstd::prelude::*;
use vstd::utf8::valid_utf8;

use crate::close_code::CloseCode;

verus! {

/// A close frame body: a close code and a textual reason.
#[derive(Debug, PartialEq, Eq)]
pub struct CloseFrame {
    /// The reason as a code.
    pub code: CloseCode,
    /// The reason as text, UTF-8 encoded.
    pub reason: Vec<u8>,
}

impl CloseFrame {
    /// Well-formed close frames carry a valid UTF-8 reason.
    pub open spec fn wf(&self) -> bool {
        valid_utf8(self.reason@)
    }

    /// The close code of a frame.
    pub open spec fn spec_code(&self) -> CloseCode {
        self.code
    }

    /// The reason bytes of a frame.
    pub open spec fn spec_reason(&self) -> Seq<u8> {
        self.reason@
    }

    /// Creates a new [`CloseFrame`].
    pub fn new(code: CloseCode, reason: Vec<u8>) -> (r: Self)
        ensures
            r.spec_code() == code,
            r.spec_reason() == reason@,
    {
        Self { code, reason }
    }

    /// Creates a new [`CloseFrame`] with an empty reason.
    pub fn no_reason(code: CloseCode) -> (r: Self)
        ensures
            r.spec_code() == code,
            r.spec_reason() == Seq::<u8>::empty(),
            r.wf(),
    {
        let r = Self::new(code, Vec::new());
        proof {
            assert(r.spec_reason() =~= Seq::<u8>::empty());
        }
        r
    }

    /// Returns the close code.
    pub fn code(&self) -> (r: CloseCode)
        ensures
            r == self.spec_code(),
    {
        self.code
    }

    /// Returns the reason bytes.
    pub fn reason(&self) -> (r: &Vec<u8>)
        ensures
            r@ == self.spec_reason(),
    {
        &self.reason
    }
}

} // verus!
