//! An in-memory catalog of crate records with create, read, update, delete and
//! list operations, and the HTTP replies that a JSON API gives for each of them.
pub mod laws;
pub mod model;
pub mod routes;
pub mod table;

pub use laws::Op;
pub use model::{Attrs, Crate, CrateView, NewCrate};
pub use routes::{
    create_crate, delete_crate, get_crates, update_crate, view_crate, Body, Reply, LIST_LIMIT,
    STATUS_CREATED, STATUS_INTERNAL_SERVER_ERROR, STATUS_NO_CONTENT, STATUS_OK,
};
pub use table::{CrateTable, StoreError, TableView};
