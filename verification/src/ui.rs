//! The modal flow of the application shell: which modal is on screen, and
//! the choice the create-or-join modal offers.

use vstd::prelude::*;

verus! {

/// Which modal dialog is currently shown.
#[derive(Clone, Copy)]
pub enum CurrentModal {
    /// The choice between creating and joining a guild.
    CreateOrJoinModal,
    /// The create-a-guild form.
    CreateModal,
    /// The join-a-guild form.
    JoinModal,
}

/// The choice made in the create-or-join modal.
pub enum CreateOrJoin {
    /// Create a new guild.
    Create,
    /// Join an existing guild.
    Join,
}

} // verus!
