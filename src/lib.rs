//! Orchestration core of a voice-driven assistant: voice-activity segmentation,
//! pattern-based intent matching, a plugin runtime, a multi-turn dialogue manager
//! and the session pipeline state machine.
pub mod text;
pub mod engine;
pub mod pattern;
pub mod nlu;
pub mod vad;
pub mod plugin;
pub mod weather;
pub mod plugin_executor;
pub mod dialogue;
pub mod session;
pub mod enhanced;
pub mod voice;
