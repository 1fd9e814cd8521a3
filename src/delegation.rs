use vstd::prelude::*;
use crate::error::Error;
use crate::names::{has_infix, has_prefix, str_contains, str_eq, str_starts_with, utf8};

verus! {

/// Right to read through a capability.
pub const RIGHT_READ: u64 = 1;
/// Right to write through a capability.
pub const RIGHT_WRITE: u64 = 2;
/// Right to delegate a capability further.
pub const RIGHT_GRANT: u64 = 4;
/// Right to map the object into an address space.
pub const RIGHT_MAP: u64 = 8;

/// Slots of the master capabilities in the service's own capability table.
pub const SYSTEM_CAMERA_CAP: usize = 10;
pub const SYSTEM_NET_OUTBOUND_CAP: usize = 11;
pub const SYSTEM_NET_LOCAL_CAP: usize = 12;
pub const SYSTEM_FS_HOME_CAP: usize = 20;
pub const SYSTEM_FS_SYSTEM_CAP: usize = 21;
pub const SYSTEM_PROCESS_SPAWN_CAP: usize = 30;
pub const SYSTEM_PROCESS_SIGNAL_CAP: usize = 31;
pub const SYSTEM_AUDIO_OUT_CAP: usize = 40;
pub const SYSTEM_AUDIO_IN_CAP: usize = 41;
pub const SYSTEM_GPU_RENDER_CAP: usize = 50;

/// Slot of an application's capability table that receives delegations.
pub const APP_DELEGATION_SLOT: usize = 5;

/// A set of capability rights, as a bit mask.
#[derive(Debug, Clone, Copy, PartialEq, Eq, Structural)]
pub struct Rights(pub u64);

impl Rights {
    /// The bit mask.
    pub fn bits(&self) -> (r: u64)
        ensures
            r == self.0,
    {
        self.0
    }
}

/// Master slot for a clear name, or why the service will not hand it out.
pub open spec fn resolve_spec(n: Seq<u8>) -> Result<usize, Error> {
    if is_forbidden(n) {
        Err(Error::AccessDenied)
    } else if n == utf8("camera.use") || n == utf8("camera.record") {
        Ok(SYSTEM_CAMERA_CAP)
    } else if n == utf8("network.outbound") {
        Ok(SYSTEM_NET_OUTBOUND_CAP)
    } else if n == utf8("network.local") {
        Ok(SYSTEM_NET_LOCAL_CAP)
    } else if n == utf8("files.home.read") || n == utf8("files.home.write") {
        Ok(SYSTEM_FS_HOME_CAP)
    } else if n == utf8("files.system.read") {
        Ok(SYSTEM_FS_SYSTEM_CAP)
    } else if n == utf8("process.spawn") {
        Ok(SYSTEM_PROCESS_SPAWN_CAP)
    } else if n == utf8("process.signal") {
        Ok(SYSTEM_PROCESS_SIGNAL_CAP)
    } else if n == utf8("audio.out") {
        Ok(SYSTEM_AUDIO_OUT_CAP)
    } else if n == utf8("audio.in") {
        Ok(SYSTEM_AUDIO_IN_CAP)
    } else if n == utf8("graphics.render") || n == utf8("gpu.compute") {
        Ok(SYSTEM_GPU_RENDER_CAP)
    } else {
        Err(Error::Invalid)
    }
}

/// The names the service refuses to hold a master capability for.
pub open spec fn is_forbidden(n: Seq<u8>) -> bool {
    n == utf8("network.inbound") || n == utf8("files.system.write")
}

/// Map a clear name to the master slot it is delegated from.
pub fn resolve_system_capability(cap_name: &str) -> (r: Result<usize, Error>)
    ensures
        r == resolve_spec(utf8(cap_name)),
{
    // Policy in code: no master capability is held for these.
    if str_eq(cap_name, "network.inbound") || str_eq(cap_name, "files.system.write") {
        Err(Error::AccessDenied)
    } else if str_eq(cap_name, "camera.use") || str_eq(cap_name, "camera.record") {
        Ok(SYSTEM_CAMERA_CAP)
    } else if str_eq(cap_name, "network.outbound") {
        Ok(SYSTEM_NET_OUTBOUND_CAP)
    } else if str_eq(cap_name, "network.local") {
        Ok(SYSTEM_NET_LOCAL_CAP)
    } else if str_eq(cap_name, "files.home.read") || str_eq(cap_name, "files.home.write") {
        Ok(SYSTEM_FS_HOME_CAP)
    } else if str_eq(cap_name, "files.system.read") {
        Ok(SYSTEM_FS_SYSTEM_CAP)
    } else if str_eq(cap_name, "process.spawn") {
        Ok(SYSTEM_PROCESS_SPAWN_CAP)
    } else if str_eq(cap_name, "process.signal") {
        Ok(SYSTEM_PROCESS_SIGNAL_CAP)
    } else if str_eq(cap_name, "audio.out") {
        Ok(SYSTEM_AUDIO_OUT_CAP)
    } else if str_eq(cap_name, "audio.in") {
        Ok(SYSTEM_AUDIO_IN_CAP)
    } else if str_eq(cap_name, "graphics.render") || str_eq(cap_name, "gpu.compute") {
        Ok(SYSTEM_GPU_RENDER_CAP)
    } else {
        Err(Error::Invalid)
    }
}

/// Forbidden names are refused with `AccessDenied` whatever else holds.
pub proof fn forbidden_names_are_denied(n: Seq<u8>)
    requires
        is_forbidden(n),
    ensures
        resolve_spec(n) == Err::<usize, Error>(Error::AccessDenied),
{
}

/// Rights handed out for a clear name: least privilege by its wording.
pub open spec fn rights_spec(n: Seq<u8>) -> u64 {
    if has_infix(n, utf8(".write")) || has_infix(n, utf8(".use")) {
        RIGHT_READ | RIGHT_WRITE
    } else if has_infix(n, utf8(".grant")) {
        RIGHT_READ | RIGHT_WRITE | RIGHT_GRANT
    } else if has_infix(n, utf8(".map")) {
        RIGHT_READ | RIGHT_MAP
    } else {
        RIGHT_READ
    }
}

/// Attenuated rights for a delegation of `cap_name`.
pub fn calculate_attenuated_rights(cap_name: &str) -> (r: Rights)
    ensures
        r.0 == rights_spec(utf8(cap_name)),
{
    if str_contains(cap_name, ".write") || str_contains(cap_name, ".use") {
        Rights(RIGHT_READ | RIGHT_WRITE)
    } else if str_contains(cap_name, ".grant") {
        Rights(RIGHT_READ | RIGHT_WRITE | RIGHT_GRANT)
    } else if str_contains(cap_name, ".map") {
        Rights(RIGHT_READ | RIGHT_MAP)
    } else {
        Rights(RIGHT_READ)
    }
}

/// Whether delegations of `n` are confined to a path prefix.
pub open spec fn path_scoped_spec(n: Seq<u8>) -> bool {
    has_prefix(n, utf8("files."))
}

/// Whether delegating `cap_name` goes through a path-restricted child.
pub fn is_path_scoped(cap_name: &str) -> (r: bool)
    ensures
        r == path_scoped_spec(utf8(cap_name)),
{
    str_starts_with(cap_name, "files.")
}

/// Path prefix that a filesystem delegation is confined to.
pub fn extract_path(cap_name: &str) -> (r: &'static str)
    ensures
        has_infix(utf8(cap_name), utf8("home")) ==> r@ == "/home/user"@,
        !has_infix(utf8(cap_name), utf8("home")) && has_infix(utf8(cap_name), utf8("system"))
            ==> r@ == "/etc"@,
        !has_infix(utf8(cap_name), utf8("home")) && !has_infix(utf8(cap_name), utf8("system"))
            && has_infix(utf8(cap_name), utf8("temp")) ==> r@ == "/tmp"@,
        !has_infix(utf8(cap_name), utf8("home")) && !has_infix(utf8(cap_name), utf8("system"))
            && !has_infix(utf8(cap_name), utf8("temp")) ==> r@ == "/"@,
{
    if str_contains(cap_name, "home") {
        "/home/user"
    } else if str_contains(cap_name, "system") {
        "/etc"
    } else if str_contains(cap_name, "temp") {
        "/tmp"
    } else {
        "/"
    }
}

} // verus!
