//! Verified core of a desktop file explorer: path handling, listing order,
//! selection and tab navigation, clipboard payload encoding and keybindings.
pub mod text;
pub mod paths;
pub mod format;
pub mod entries;
pub mod view;
pub mod clipboard;
pub mod settings;
pub mod tab;
pub mod transfer;
pub mod tree;
pub mod media;
pub mod listing;
pub mod nav;
pub mod selection;
pub mod shortcuts;
pub mod preferences;
pub mod thumbs;
pub mod delete;
pub mod properties;
pub mod explorer;
pub mod roundtrip;
pub mod status;
pub mod launch;
pub mod completion;
pub mod theme;
pub mod drives;
pub mod pathbar;
