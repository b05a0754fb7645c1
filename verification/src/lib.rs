//! Egress-side byte transforms of an event stream: an ordered chain of
//! postprocessors turns one encoded payload into the frames handed to the
//! transport.

pub mod chain;
pub mod clock;
pub mod codecs;
pub mod compress;
pub mod config;
pub mod error;
pub mod gelf;
pub mod join;
pub mod postprocessor;
pub mod prefix;
pub mod registry;
pub mod wire;

pub use chain::{finish, postprocess, postprocess_at};
pub use config::{ConfigEntry, ConfigValue, PostprocessorConfig};
pub use error::Error;
pub use postprocessor::Postprocessor;
pub use registry::{lookup, lookup_with_config, make_postprocessors, Postprocessors, Stage};
