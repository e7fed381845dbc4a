//! Core model of an AAC (augmentative and alternative communication) board:
//! folders of selectable buttons, a hotbar, related-word and variant
//! substitution tables, a phrase buffer, and a parser for the textual
//! system-definition language.

pub mod board;
pub mod button;
pub mod panel;
pub mod parser;
pub mod system;
pub mod text;
