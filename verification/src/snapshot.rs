//! Pictures of the window, for debugging.

use vstd::prelude::*;

use crate::platform::Platform;
use crate::text;

verus! {

/// How long a picture may take, in seconds.
pub const SNAPSHOT_TIMEOUT_SECONDS: u64 = 10;

/// Whether pictures are taken: in debug builds, or when startup is logged.
pub fn enabled(debug: bool, startup_logging: bool) -> (r: bool)
    ensures
        r == (debug || startup_logging),
{
    debug || startup_logging
}

/// Whether a picture may be taken on a platform.
pub fn dev_snapshot(platform: Platform, enabled: bool) -> (r: Result<(), String>)
    ensures
        text::outcome(r) == if !(platform is MacOs) {
            Err("dev_snapshot is only implemented on macOS"@)
        } else if !enabled {
            Err("dev_snapshot is only available in debug builds"@)
        } else {
            Ok(())
        },
{
    match platform {
        Platform::MacOs => if enabled {
            Ok(())
        } else {
            Err("dev_snapshot is only available in debug builds".to_owned())
        },
        _ => Err("dev_snapshot is only implemented on macOS".to_owned()),
    }
}

/// What came of taking a picture.
pub enum Capture {
    /// There is no image, and maybe a description of the error.
    NoImage(Option<String>),
    /// The image cannot be decoded.
    Undecoded,
    /// The image cannot be encoded.
    Unencoded,
    Png(Vec<u8>),
    TimedOut,
}

/// The bytes of a picture, or why there are none.
pub fn captured(capture: Capture) -> (r: Result<Vec<u8>, String>)
    ensures
        text::outcome(r) == match capture {
            Capture::NoImage(Some(message)) => Err(message@),
            Capture::NoImage(None) => Err("snapshot failed"@),
            Capture::Undecoded => Err("cannot decode snapshot"@),
            Capture::Unencoded => Err("PNG encoding failed"@),
            Capture::Png(bytes) => Ok(bytes),
            Capture::TimedOut => Err("snapshot timed out"@),
        },
{
    match capture {
        Capture::NoImage(Some(message)) => Err(message),
        Capture::NoImage(None) => Err("snapshot failed".to_owned()),
        Capture::Undecoded => Err("cannot decode snapshot".to_owned()),
        Capture::Unencoded => Err("PNG encoding failed".to_owned()),
        Capture::Png(bytes) => Ok(bytes),
        Capture::TimedOut => Err("snapshot timed out".to_owned()),
    }
}

// ---------------------------------------------------------------------------
// Laws
// ---------------------------------------------------------------------------

/// A picture is allowed on macOS alone, in debug builds or while startup is logged.
pub proof fn law_pictures(
    platform: Platform,
    debug: bool,
    startup_logging: bool,
    on: bool,
    r: Result<(), String>,
)
    requires
        call_ensures(enabled, (debug, startup_logging), on),
        call_ensures(dev_snapshot, (platform, on), r),
    ensures
        r is Ok <==> platform is MacOs && (debug || startup_logging),
{
}

/// A picture is handed on byte by byte; whatever else came of it is a failure, told in the
/// words of the system where it has any.
pub proof fn law_captured(capture: Capture, r: Result<Vec<u8>, String>)
    requires
        call_ensures(captured, (capture,), r),
    ensures
        r is Ok <==> capture is Png,
        r matches Ok(bytes) ==> bytes@ == (capture->Png_0)@,
        capture matches Capture::NoImage(Some(message)) ==> (r->Err_0)@ == message@,
        capture matches Capture::NoImage(None) ==> (r->Err_0)@ == "snapshot failed"@,
        capture is Undecoded ==> (r->Err_0)@ == "cannot decode snapshot"@,
        capture is Unencoded ==> (r->Err_0)@ == "PNG encoding failed"@,
        capture is TimedOut ==> (r->Err_0)@ == "snapshot timed out"@,
{
}

} // verus!
