//! The version-stamped parameter envelope: a payload together with the
//! protocol revision it was written under.

use vstd::prelude::*;

verus! {

/// A parameter payload carrying the protocol revision.
pub struct Payload<T> {
    protocol_version: String,
    raw: T,
}

impl<T> Payload<T> {
    /// The payload's revision tag.
    pub closed spec fn spec_version(&self) -> Seq<char> {
        self.protocol_version@
    }

    /// The payload itself.
    pub closed spec fn spec_raw(&self) -> T {
        self.raw
    }

    /// Wraps a payload under the supported protocol revision.
    pub fn new(raw: T) -> (r: Payload<T>)
        ensures
            r.spec_version() == "2025-06-18"@,
            r.spec_raw() == raw,
    {
        Payload { protocol_version: "2025-06-18".to_owned(), raw }
    }

    /// Unwraps the payload, dropping the revision tag.
    pub fn into_raw(self) -> (r: T)
        ensures
            r == self.spec_raw(),
    {
        self.raw
    }
}

} // verus!
