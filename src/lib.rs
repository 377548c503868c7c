//! A multi-source log tail engine: incremental line extraction, change
//! detection, per-source tailer state machines and the presentation sink.
pub mod line_reader;
pub mod detector;
pub mod tailer;
pub mod sink;
