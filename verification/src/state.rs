//! The state that lives as long as the process: the document, its history
//! and the render cache, each constructed empty.

use vstd::prelude::*;
use crate::cache::{CacheEntryView, RenderCache};
use crate::edit::EditorState;
use crate::history::{EditorHistory, HistoryView};

verus! {

/// The checkpoint history of the process.
pub struct HistoryState {
    pub history: EditorHistory,
}

impl HistoryState {
    pub fn new() -> (r: Self)
        ensures
            r.history.wf(),
            r.history@ == HistoryView::empty(),
    {
        HistoryState { history: EditorHistory::new() }
    }
}

impl Default for HistoryState {
    fn default() -> (r: Self)
        ensures
            r.history.wf(),
            r.history@ == HistoryView::empty(),
    {
        HistoryState::new()
    }
}

/// The render cache of the process.
pub struct AppState {
    pub render_cache: RenderCache,
}

impl AppState {
    pub fn new() -> (r: Self)
        ensures
            r.render_cache.wf(),
            r.render_cache@ == Map::<Seq<char>, CacheEntryView>::empty(),
    {
        AppState { render_cache: RenderCache::new() }
    }
}

/// The render cache together with the document.
pub struct AppStates {
    pub app_state: AppState,
    pub editor_state: EditorState,
}

} // verus!
