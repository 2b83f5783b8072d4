//! The slash commands the bridge answers.

pub mod gpt4;
