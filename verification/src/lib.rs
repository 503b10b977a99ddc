//! A stream-selection node for a media pipeline: any number of inputs feed
//! buffers in, exactly one "active" input is forwarded to the single output.
//!
//! The crate verifies the switching engine itself: tracking the active input,
//! timing a buffer against its segment's running-time mapping, replaying
//! sticky metadata after a switch, marking discontinuities, cancelling
//! in-flight waits on flush, and answering latency queries for the active
//! input.  The surrounding task runtime, the endpoints that perform the
//! actual pushes, and the pipeline clock are collaborators: the library
//! takes their readings as arguments and hands back the decisions.

pub mod error;
pub mod handler;
pub mod laws;
pub mod model;
pub mod selector;
pub mod stream;
pub mod timing;
