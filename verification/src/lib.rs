//! Storyboards described as data, checked against a closed schema before a
//! frame is drawn, and the frame bookkeeping of the film timeline they become.

pub mod binary32;
pub mod text;
pub mod vocabulary;
pub mod palette;
pub mod storyboard;
pub mod scene;
pub mod timeline;
pub mod contact_sheet;
pub mod export;
