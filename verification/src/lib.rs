//! A heterogeneous-memory coherence layer: one logical byte buffer kept
//! as zero-or-more physical copies on different compute devices, with
//! per-device freshness tracking, explicit transfer routes between device
//! kinds, and read/write accessors that allocate and transfer on demand.

pub mod device;
pub mod error;
pub mod memory;
pub mod tensor;

pub use device::{CudaDevice, Device, DeviceKind, NativeDevice, OpenclDevice};
pub use error::Error;
pub use memory::{CudaMemory, Memory, NativeMemory, OpenclMemory};
pub use tensor::{CopyState, SharedTensor};
