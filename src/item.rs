use vstd::prelude::*;

verus! {

/// One record of the store.
pub struct Item {
    pub id: String,
    pub title: String,
    pub description: String,
}

/// What an item holds, as character sequences.
pub struct ItemView {
    pub id: Seq<char>,
    pub title: Seq<char>,
    pub description: Seq<char>,
}

impl View for Item {
    type V = ItemView;

    open spec fn view(&self) -> ItemView {
        ItemView { id: self.id@, title: self.title@, description: self.description@ }
    }
}

impl Clone for Item {
    fn clone(&self) -> (r: Self)
        ensures
            r == *self,
    {
        Item {
            id: self.id.clone(),
            title: self.title.clone(),
            description: self.description.clone(),
        }
    }
}

/// Why an operation of the store failed.
pub enum StoreError {
    /// The shared store could not be locked safely (a holder of the lock
    /// panicked while holding it).
    LockFailure,
    /// No stored item has this id.
    NotFound { id: String },
}

} // verus!
