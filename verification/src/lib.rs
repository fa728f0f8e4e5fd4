//! Decision and encoding logic of the sherpa-onnx speech sidecar: the stdio
//! JSON-lines protocol, the PCM and WAV byte layouts, command-line parsing and
//! the choice of model files in a model directory.

pub mod args;
pub mod backend;
pub mod base64;
pub mod engine;
pub mod files;
pub mod protocol;
pub mod text;
pub mod wav;
