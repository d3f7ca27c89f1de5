//! Answers of the file system about paths. An answer can only be obtained by
//! asking, and it records the path it was asked about.
use vstd::prelude::*;

verus! {

/// What the file system answered when asked whether something exists at a
/// path, together with that path.
pub struct ProbeAnswer {
    path: String,
    found: bool,
}

impl ProbeAnswer {
    /// The path that was asked about.
    pub closed spec fn asked(self) -> Seq<char> {
        self.path@
    }

    /// Whether something was found at the path.
    pub closed spec fn was_found(self) -> bool {
        self.found
    }

    /// Whether something was found at the path.
    pub fn found(&self) -> (b: bool)
        ensures
            b == self.was_found(),
    {
        self.found
    }
}

/// Asks whether something exists at `path`, as `std::path::Path::exists`
/// reports it, and records the path with the answer. Of the answer itself
/// nothing is stated: it depends on the file system at the moment of the
/// call.
#[verifier::external_body]
pub(crate) fn probe_path(path: &str) -> (a: ProbeAnswer)
    ensures
        a.asked() == path@,
{
    ProbeAnswer { path: path.to_owned(), found: std::path::Path::new(path).exists() }
}

} // verus!
