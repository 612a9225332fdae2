//! Verified UDS (ISO 14229) diagnostic and firmware-update engine for CAN
//! ECUs: request/response frame codec, negative-response classification,
//! erase/download state machines with chunked transfer and checksums, a
//! FIFO transaction queue model, and the batch deployment reporter.

pub mod arguments;
pub mod canbridge;
pub mod config;
pub mod crc8;
pub mod frames;
pub mod logproc;
pub mod netdetec;
pub mod nrc;
pub mod orchestrator;
pub mod queue;
pub mod report;
pub mod session;
pub mod strutil;
pub mod transfer;
pub mod transport;
