use vstd::prelude::*;

verus! {

/// The ways a tail session can fail.
#[derive(Debug, Clone, Copy, PartialEq, Eq, Structural)]
pub enum TailError {
    /// The file could not be opened.
    Open,
    /// An I/O failure while reading the file.
    Read,
    /// The bytes read are not valid UTF-8 text.
    Decode,
    /// The change subscription could not be set up.
    WatchSetup,
    /// The file could not be re-opened after repeated attempts.
    WatchFatal,
    /// The client channel broke while sending.
    SendFailure,
}

} // verus!
