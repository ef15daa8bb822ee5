//! Training a compressor of token spans: its configuration, the course of its runs, the steps
//! that train and validate it, and the block that its stacks are made of.
//!
//! A run is a [`CompressTrainConfig`]: the compressor to build beside the run that trains it.
//! [`CompressTrainConfig::validate`] says what is wrong with one. [`Run`] takes it from there,
//! one action at a time. [`train_step`] and [`valid_step`] score a reconstruction, and [`Block`]
//! is one layer of the stacks. Files, tensors and layers are supplied by the caller.

pub mod text;
pub mod scalar;
pub mod settings;
pub mod config;
pub mod train;
pub mod run;
pub mod block;
pub mod step;
pub mod file;

pub use block::{
    Attend, Block, GroupedQueryAttentionConfig, Layers, RmsNormConfig, SwiGluFeedForwardConfig,
};
pub use config::{CompressConfig, ModelConfig, NormPlacement, TrainConfig};
pub use file::{failure_context, FileStep};
pub use run::{adopt_start_token, Action, Event, Run, Stage};
pub use scalar::Scalar;
pub use settings::{Setting, Settings, Value};
pub use step::{
    reconstruction_step, train_step, valid_step, LmOutput, Reconstructor, TokenBatch, TrainOutput,
};
pub use text::{decimal, join};
pub use train::{CompressTrainConfig, InvalidConfig};
