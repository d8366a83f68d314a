//! The decision logic of the Ghostex desktop host, verified.

pub mod floating_panel;
pub mod revision_ranges;
pub mod text;
pub mod keyed;
pub mod refusals;
pub mod records;
pub mod chat_storage;
pub mod chat_identity;
pub mod chat_store;
pub mod transfers;
pub mod local_focus;
pub mod burst;
pub mod remote_clients;
pub mod runtime_trace;
pub mod gx_diagnostics;
pub mod docs_feedback;
pub mod sidebar;
pub mod retained;
pub mod app_model;
pub mod client_document;
pub mod effects;
pub mod chat_host;
pub mod chat_book;
pub mod chat_events;
pub mod shadow;
pub mod delayed_send;
pub mod boot;
pub mod remote_focus;
pub mod json_fields;
pub mod json_text;
pub mod sidebar_inputs;
pub mod sidebar_menus;
pub mod sidebar_commands;
pub mod store_host;
pub mod export_transcript;
pub mod layout_persist;
pub mod sidebar_actions;
pub mod remote_docs;
pub mod added_project;
