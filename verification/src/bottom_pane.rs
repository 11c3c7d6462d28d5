//! The pane at the bottom of the screen: the draft of the next message and what
//! is shown around it.

pub mod approval_overlay;
pub mod chat_composer;
pub mod completion;
pub mod completion_popup;
pub mod composer_view;
pub mod draft;
pub mod history_search;
pub mod paste_burst;
pub mod pending_input_preview;
pub mod popup_state;
pub mod rendering;
pub mod request_user_input_overlay;
pub mod status_indicator_widget;
pub mod visual_lines;
