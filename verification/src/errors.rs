use vstd::prelude::*;

verus! {

/// Everything that can go wrong in one run of the tool.
///
/// `Api` carries the HTTP status that the endpoint answered with.
#[derive(Clone, Copy, Debug, PartialEq, Eq, Structural)]
pub enum NerfError {
    /// The required bearer-token environment variable is absent.
    ConfigMissing,
    /// The prompt template file could not be read.
    FileRead,
    /// The request could not be sent at all.
    Network,
    /// The endpoint answered with a status outside the 2xx range.
    Api(u16),
    /// The response was not JSON, or lacked the first choice's content.
    Parse,
    /// The clipboard process could not be spawned, or exited with a failure.
    Clipboard,
}

} // verus!
