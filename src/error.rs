use vstd::prelude::*;

verus! {

/// What can go wrong in the upload pipeline. Each variant carries the text
/// that names the offending value.
#[derive(Debug)]
pub enum Error {
    /// The transport failed before an answer came back.
    HttpClient(String),
    /// A local path could not be read, or lies outside the working directory.
    FileTraverse(String),
    /// A path or URL is malformed.
    Parse(String),
    /// A precondition of the operation does not hold.
    Operations(String),
    /// The remote side answered with an error status and this message.
    HttpResponse(u16, String),
    /// A payload of the remote side could not be decoded.
    Serialization(String),
    /// Local reading or writing failed.
    IO(String),
}

} // verus!
