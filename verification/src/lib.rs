//! Text-to-splat generation core: the point-cloud model and its binary
//! codec, the job client's request/status vocabulary and decisions, and the
//! background worker's command/response protocol as a verified state
//! machine. Transport, threads and file handling live with the embedding
//! application; everything that decides or computes is here, with contracts.
pub mod cloud;
pub mod codec;
pub mod error;
pub mod floatbits;
pub mod job;
pub mod pipeline;
pub mod progress;
pub mod text;
pub mod worker;
