use vstd::prelude::*;

pub mod aip_doc;
pub mod airac;
pub mod atis;
pub mod calendar;
pub mod doc_inline;
pub mod html;
pub mod i18n;
pub mod models;
pub mod navigation;
pub mod notes;
pub mod notices;
pub mod order;
pub mod pattern;
pub mod pdf_cache;
pub mod popouts;
pub mod providers;
pub mod search;
pub mod sia;
pub mod sia_names;
pub mod state;
pub mod switcher;
pub mod tabs;
pub mod uk;
pub mod viewer;
pub mod workspace_edit;
pub mod workspace_panel;
pub mod workspace_view;
pub mod workspace_windows;
pub mod text;

verus! {
} // verus!
