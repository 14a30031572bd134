//! Resolution and reconciliation core for publishing a local track list as a
//! playlist on the ListenBrainz service.
//!
//! The library holds the verified logic: the token-bucket rate limiter and
//! retry policy shared by every outbound call, the memoized artist resolver,
//! the track resolver staging, the concurrent fan-out accounting, the playlist
//! reconciliation rules, pagination, and the JSON bodies and responses of the
//! remote API. Network transport, file reading and the command line live
//! outside the library and exchange plain values with it.

pub mod artist;
pub mod client;
pub mod error;
pub mod fanout;
pub mod feedback;
pub mod ids;
pub mod json;
pub mod numbers;
pub mod paginator;
pub mod playlist;
pub mod reconcile;
pub mod text;
pub mod track;
pub mod urls;

pub use error::LbError;
