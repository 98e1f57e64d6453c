use vstd::prelude::*;

verus! {

/// Error codes of every fallible operation of the store.
#[derive(Debug, Clone, Copy, PartialEq, Eq, Structural)]
pub enum ErrorCode {
    /// Error that was not yet mapped
    UnmappedError,
    /// File not found
    FileNotFound,
    /// KVS file read error
    KvsFileReadError,
    /// KVS hash file read error
    KvsHashFileReadError,
    /// JSON parser error
    JsonParserError,
    /// JSON generator error
    JsonGeneratorError,
    /// Physical storage failure
    PhysicalStorageFailure,
    /// Integrity corrupted
    IntegrityCorrupted,
    /// Validation failed: checksum mismatch or malformed checksum file
    ValidationFailed,
    /// Encryption failed
    EncryptionFailed,
    /// Resource is busy
    ResourceBusy,
    /// Out of storage space
    OutOfStorageSpace,
    /// Quota exceeded
    QuotaExceeded,
    /// Authentication failed
    AuthenticationFailed,
    /// Key not found
    KeyNotFound,
    /// Key has no default value
    KeyDefaultNotFound,
    /// Serialization failed
    SerializationFailed,
    /// Invalid snapshot ID
    InvalidSnapshotId,
    /// Conversion failed
    ConversionFailed,
    /// Mutex failed
    MutexLockFailed,
    /// Instance ID out of range
    InvalidInstanceId,
    /// Instance was not initialized yet
    InstanceNotInitialized,
    /// Instance was already initialized
    InstanceAlreadyInitialized,
}

} // verus!
