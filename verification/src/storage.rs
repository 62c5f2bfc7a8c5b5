//! The storage layer: owned buffers, reference-counted shared buffers with
//! clone-on-write, and borrowed views, all behind one capability hierarchy.

pub mod owned_storage;
pub mod traits;
pub mod view_storage;

pub use owned_storage::{OwnedStorage, OwnedArcStorage};
pub use traits::{
    RawStorage,
    RawStorageClone,
    RawStorageMut,
    Storage,
    StorageMut,
    StorageOwned,
    StorageShared,
};
pub use view_storage::ViewStorage;
