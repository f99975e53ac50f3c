//! Extension version negotiation.
//!
//! At session setup the display server reports, for each extension, the
//! version it speaks; the client accepts it exactly when the major
//! versions agree.  The decision is pure; the surrounding request and
//! reply traffic belongs to the windowing collaborator.

use vstd::prelude::*;

verus! {

/// The versions that failed to agree; the caller attaches the extension
/// name when reporting it.
#[derive(Clone, Copy, PartialEq, Eq, Structural, Debug)]
pub struct VersionMismatchError {
    pub client_major_version: u32,
    pub client_minor_version: u32,
    pub server_major_version: u32,
    pub server_minor_version: u32,
}

/// Accepts the server's extension version exactly when the major
/// versions agree; the minor versions are only carried along for the
/// report.
pub fn check_versions(
    client_major: u32, client_minor: u32, server_major: u32, server_minor: u32,
) -> (r: Result<(), VersionMismatchError>)
    ensures
        (r is Ok) <==> client_major == server_major,
        (match r {
            Ok(u) => u == (),
            Err(e) => e == (VersionMismatchError {
                client_major_version: client_major,
                client_minor_version: client_minor,
                server_major_version: server_major,
                server_minor_version: server_minor,
            }),
        }),
{
    if server_major != client_major {
        Err(VersionMismatchError {
            client_major_version: client_major,
            client_minor_version: client_minor,
            server_major_version: server_major,
            server_minor_version: server_minor,
        })
    } else {
        Ok(())
    }
}

} // verus!
