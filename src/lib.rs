//! An in-memory store of items (id, title, description) with the five
//! operations a user interface drives: create, list, get, update and delete.
//!
//! Ids are minted from a counter that starts at 1 and only grows, rendered in
//! base ten; they are never reused, so the ids of the stored items are unique.

mod ids;
mod item;
mod laws;
mod store;

pub use ids::{decimal, digits_value, minted_ids_distinct_and_ordered};
pub use item::{Item, ItemView, StoreError};
pub use store::{
    ItemStore, StoreView, contains_id, has_id, index_of, lookup, opt_view, record, unique_ids,
    well_formed_ids_unique,
};
pub use laws::{
    creates_listed_in_order, delete_removes_only, delete_twice_not_found, update_visible,
};
