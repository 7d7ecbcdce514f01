//! The storage interface of the peer-address crawler: versioned persistence
//! of discovered addresses, implemented by the embedding application.

use vstd::prelude::*;

verus! {

/// A failure of the backing storage, distinct from logic errors.
#[derive(Clone, Copy, Debug, PartialEq, Eq, Structural, Hash)]
pub enum StorageError {
    ReadFailed,
    WriteFailed,
}

/// Read access to the crawler's store.
pub trait DnsServerStorageRead {
    fn get_version(&self) -> Result<Option<u32>, StorageError>;

    fn get_addresses(&self) -> Result<Vec<String>, StorageError>;
}

/// Write access to the crawler's store.
pub trait DnsServerStorageWrite {
    fn set_version(&mut self, version: u32) -> Result<(), StorageError>;

    fn add_address(&mut self, address: &str) -> Result<(), StorageError>;

    fn del_address(&mut self, address: &str) -> Result<(), StorageError>;
}

} // verus!
