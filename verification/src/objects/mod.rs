use vstd::prelude::*;

pub mod building;
pub mod characters;
pub mod claims;
pub mod environment_object;
pub mod object_id;
pub mod protocol;
pub mod registry;
pub mod sync;

pub use object_id::{ObjectId, ObjectProperties};
pub use registry::{Object, Objects};
pub use sync::{ObjectSync, SyncState};
