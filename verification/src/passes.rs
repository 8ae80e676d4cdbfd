//! The passes that transform a document.

pub mod lower_menus;
pub mod lower_menus_proofs;
