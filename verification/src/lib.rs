//! Lowering of declarative menus in a UI element tree, together with the
//! element-tree model, named references, diagnostics and type registry the
//! lowering is built on.

pub mod diagnostics;
pub mod expression_tree;
pub mod langtype;
pub mod object_tree;
pub mod passes;
pub mod slintdocs;
pub mod traversal;
pub mod typeloader;
pub mod util;
