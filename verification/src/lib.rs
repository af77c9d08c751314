pub mod answer_laws;
pub mod authoring;
pub mod block_contents;
pub mod block_copy;
pub mod block_edit;
pub mod block_equality;
pub mod block_parts;
pub mod block_place;
pub mod bodies;
pub mod builders;
pub mod canvas;
pub mod canvas_laws;
pub mod canvas_layout;
pub mod canvas_model;
pub mod choice_laws;
pub mod command_view;
pub mod commands;
pub mod connection_laws;
pub mod container;
pub mod content;
pub mod context_laws;
pub mod conversion;
pub mod copy_laws;
pub mod double;
pub mod draft;
pub mod draft_laws;
pub mod duplicate;
pub mod editor_types;
pub mod edge_laws;
pub mod edit_laws;
pub mod edits;
pub mod fingerprint;
pub mod gesture_laws;
pub mod group_laws;
pub mod history;
pub mod id_set;
pub mod identities;
pub mod insert_laws;
pub mod inspector;
pub mod inspector_laws;
pub mod intents;
pub mod layout_laws;
pub mod library;
pub mod library_laws;
pub mod list_laws;
pub mod macro_engine;
pub mod monitor;
pub mod monitor_laws;
pub mod page;
pub mod page_authoring;
pub mod page_edit;
pub mod page_laws;
pub mod page_status;
pub mod page_wizard;
pub mod palette;
pub mod palette_laws;
pub mod parts;
pub mod place_laws;
pub mod places;
pub mod port_laws;
pub mod presentation;
pub mod presentation_laws;
pub mod problem_laws;
pub mod reference_laws;
pub mod rule_edits;
pub mod rule_laws;
pub mod run_events;
pub mod run_laws;
pub mod sample_table;
pub mod single;
pub mod sources;
pub mod status_laws;
pub mod step_list;
pub mod step_list_laws;
pub mod text;
pub mod text_table;
pub mod timeline;
pub mod timeline_laws;
pub mod toolbar;
pub mod toolbar_laws;
pub mod tree;
pub mod tree_laws;
pub mod watch_laws;
pub mod wizard;
pub mod wizard_laws;
