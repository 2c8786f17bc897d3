pub mod commands;
pub mod complete;
pub mod crypto;
pub mod attach;
pub mod keys;
pub mod headers;
pub mod drafts;
pub mod drafts_laws;
pub mod identity;
pub mod app;
pub mod account_form;
pub mod account_form_save;
pub mod account_form_conn;
pub mod account_form_identity;
pub mod compose_assembly;
pub mod folders;
pub mod bulk;
pub mod mailops;
pub mod compose;
pub mod cells;
pub mod editor;
pub mod account_form_draw;
pub mod account_form_discover;
pub mod account_form_identity_draw;
pub mod folder_alias;
pub mod drawer;
pub mod export;
pub mod folder_picker;
pub mod help;
