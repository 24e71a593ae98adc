//! A documentation model for trees of shader modules: conditional
//! declarations merged into items, references resolved to versioned paths.
pub mod text;
pub mod conditional;
pub mod feature_set;
pub mod name_index;
pub mod ast;
pub mod syntax;
pub mod context;
pub mod build_conditional;
pub mod extract_comments;
pub mod calculate_span;
pub mod collect_features;
pub mod views;
pub mod build_items;
pub mod name_order;
pub mod post_process;
pub mod build_doc_comment;
pub mod compile;
pub mod locality;
pub mod wesl_toml;
pub mod display;
pub mod intra_doc_link;
pub mod link_round_trip;
pub mod doc_events;
pub mod page_path;
pub mod versions;
