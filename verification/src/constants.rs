use vstd::prelude::*;

verus! {

/// The file system socket on which the overlay listens for the dashboard.
pub const IPC_SOCKET_ADDRESS: &'static str = "/tmp/memeblink.sock";

/// The longest request line, in bytes, that the overlay reads.
pub const MAX_IPC_PAYLOAD_BYTES: usize = 65536;

/// The Wayland namespace of the overlay surface.
pub const WAYLAND_NAMESPACE: &'static str = "memeblink";

} // verus!
