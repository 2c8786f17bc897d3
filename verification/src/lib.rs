pub mod configedit;
pub mod configedit_laws;
pub mod text;
pub mod tui;
pub mod export;
pub mod exportcmd;
pub mod doctor;
pub mod sendmail;
pub mod config;
pub mod account_wizard;
pub mod account_file;
pub mod setup;
pub mod oauthgrants;
pub mod autostart;
