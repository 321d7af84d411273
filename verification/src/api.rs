//! What the transport layer asks of the pipeline and gets back.

pub mod playground;
