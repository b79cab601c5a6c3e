use vstd::prelude::*;
use crate::error::InvocationError;

verus! {

/// One match produced by a provider for one query.
pub trait SearchResult {
    /// Handle of what the user interface shows for this result.
    type Widget;

    /// Relevance on the provider's own scale; higher is more relevant and 0
    /// means irrelevant.
    fn get_score(&self) -> usize;

    /// Tells the result whether it stands first in the list, where the user
    /// interface gives it different focus behaviour.
    fn set_first(&self, first: bool);

    /// Performs the result's primary action.
    fn activate(&self);

    /// The compact entry for the result list.
    fn get_result_widget(&self) -> Self::Widget;

    /// The detail view for the preview pane.
    fn get_preview_widget(&self) -> Self::Widget;
}

/// A search capability registered by a plugin.
pub trait Plugin {
    /// The kind of result this provider produces.
    type Output: SearchResult;

    /// The provider's matches for a normalised query, in its own order.
    fn get_results(&self, query: &str) -> Result<Vec<Self::Output>, InvocationError>;

    /// The provider's stylesheet, for providers that hand it out on demand.
    fn get_styles(&self) -> Result<String, InvocationError>;
}

} // verus!
