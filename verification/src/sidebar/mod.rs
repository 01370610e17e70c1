pub mod types;
pub mod lemmas;
pub mod ops;
pub mod maintain;
pub mod laws;
pub mod edit;
pub mod dedup;
pub mod drag_drop;
pub mod walk;
pub mod walk_props;
pub mod walk_laws;
pub mod hover;
pub mod edit_laws;
pub mod drag_laws;
