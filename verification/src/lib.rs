//! Finding peers on the local network and connecting a Zenoh mesh to them.
//!
//! Everything that is decided or computed for this is here, and nothing that
//! touches a socket, a clock or the environment: the modules take what came in
//! and say what has to be done.
//!
//! - [`wire`] and [`discovery`]: packets and rules of the discovery protocol. What
//!   holds of them is in [`discovery_exchange`], datagram by datagram, in
//!   [`discovery_laws`], and in [`discovery_runs`], over many calls and datagrams.
//! - [`settings`]: how a session and a scout are configured.
//! - [`watchers`]: which interfaces are to be scouted as they come and go.
//! - [`scout`] and [`locators`]: what a scout does with the peers that it hears, and
//!   where to reach them.
//! - [`addr`], [`text`] and [`zid`]: what the others are made of.

pub mod addr;
pub mod discovery;
pub mod discovery_exchange;
pub mod discovery_laws;
pub mod discovery_runs;
pub mod locators;
pub mod scout;
pub mod settings;
pub mod text;
pub mod watchers;
pub mod wire;
pub mod zid;

pub use zid::ZenohId;
