//! The persisted user configuration: its shape, its default values when no
//! file exists yet, and the location of the file relative to the user's
//! configuration directory. Serialization and file access happen outside
//! this crate; the values themselves are plain.

use vstd::prelude::*;
use vstd::string::StringSliceAdditionalSpecFns;

verus! {

/// The user's persisted node configuration.
pub struct UserConfig {
    /// The node's 32-byte identifier.
    pub node_id: [u8; 32],
    /// The daemon's TCP listening port; 0 when unset.
    pub tcp_port: u16,
    /// The daemon's local HTTP API port; 0 when unset.
    pub http_port: u16,
    /// An optional relay address.
    pub relay: Option<String>,
    /// Filesystem path of the block store.
    pub blockstore_path: String,
}

impl Default for UserConfig {
    /// The configuration assumed when no file exists: zero identifier,
    /// unset ports, no relay, empty path.
    fn default() -> (r: Self)
        ensures
            r.node_id@ =~= Seq::new(32, |i: int| 0u8),
            r.tcp_port == 0,
            r.http_port == 0,
            r.relay is None,
            r.blockstore_path@.len() == 0,
    {
        UserConfig {
            node_id: [0u8; 32],
            tcp_port: 0,
            http_port: 0,
            relay: None,
            blockstore_path: String::new(),
        }
    }
}

/// Path of the configuration file relative to the user's configuration
/// directory.
pub open spec fn config_relpath_spec() -> Seq<u8> {
    "peerdrive/config.json".spec_bytes()
}

/// The configuration file's relative path as bytes.
pub fn config_relpath() -> (r: Vec<u8>)
    ensures
        r@ == config_relpath_spec(),
{
    vstd::slice::slice_to_vec("peerdrive/config.json".as_bytes())
}

} // verus!
