//! Storyforge: a terminal RPG engine for story-driven campaigns with
//! deterministic rules and validated content packs.
//!
//! The engine turns player commands into events and applies them to the
//! game state; campaigns are validated before play; and the terminal
//! interface's state, key bindings, layout and texts are computed here,
//! leaving the drawing and the terminal itself to the program around it.

pub mod action;
pub mod app;
pub mod command;
pub mod diagnostic;
pub mod engine;
pub mod id;
pub mod layout;
pub mod loader;
pub mod model;
pub mod permutation;
pub mod state;
pub mod text;
pub mod theme;
pub mod ui;
pub mod validation;

pub use command::GameCommand;
pub use diagnostic::{Diagnostic, Severity};
pub use engine::{apply_events, handle_command, GameEngine};
pub use id::{ContentId, IdError};
pub use model::{schema_version, CampaignManifest, ChoiceDefinition, LoadedCampaign, SceneDefinition};
pub use state::{GameEvent, GameState};
pub use validation::validate_campaign;
