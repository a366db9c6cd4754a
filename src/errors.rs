use vstd::prelude::*;

verus! {

#[derive(Debug, Clone, Copy, PartialEq, Eq, Structural)]
pub enum JarvisErrorReason {
    NoMicrophone,
}

/// A fatal error of the assistant.
#[derive(Debug, Clone, Copy, PartialEq, Eq, Structural)]
pub struct JarvisError {
    reason: JarvisErrorReason,
}

impl JarvisError {
    pub closed spec fn spec_reason(&self) -> JarvisErrorReason {
        self.reason
    }

    pub fn no_mic() -> (r: JarvisError)
        ensures
            r.spec_reason() == JarvisErrorReason::NoMicrophone,
    {
        JarvisError { reason: JarvisErrorReason::NoMicrophone }
    }

    pub fn reason(&self) -> (r: JarvisErrorReason)
        ensures
            r == self.spec_reason(),
    {
        self.reason
    }

    /// The diagnostic shown when the error ends the process.
    pub fn message(&self) -> (r: String)
        ensures
            self.spec_reason() == JarvisErrorReason::NoMicrophone ==> r@ == "No microphone found."@,
    {
        match self.reason {
            JarvisErrorReason::NoMicrophone => "No microphone found.".to_owned(),
        }
    }
}

} // verus!
