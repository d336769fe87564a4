//! Core of a retained-mode UI toolkit: size negotiation, layout strategies,
//! hit-testing and event dispatch, and the interaction state machines shared
//! by the clickable and focusable widgets.

pub mod constraint;
pub mod custom;
pub mod editor;
pub mod event;
pub mod field;
pub mod fsm;
pub mod ids;
pub mod linear;
pub mod navigator;
pub mod overlay;
pub mod pages;
pub mod scroll;
pub mod select;
pub mod style;
pub mod tree;
pub mod wrap;
