//! An interactive, configuration-driven command launcher core.
//!
//! A configuration describes a tree of selectable actions.  Walking the tree
//! asks an external fuzzy selector, a text prompt, and the shell for input;
//! the answers are threaded into command templates by positional placeholder
//! substitution, and one final command is executed.
//!
//! The walk itself is modelled as an explicit state machine: each step emits
//! an [`engine::Effect`] describing the one external request to perform, and
//! consumes an [`engine::Event`] carrying the answer.  The machine, the
//! substitution scheme and their laws are verified; performing the effects
//! (spawning processes, drawing the selector) is left to the embedding
//! program.

pub mod engine;
pub mod laws;
pub mod template;
pub mod widget;
