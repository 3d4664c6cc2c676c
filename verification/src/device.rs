use vstd::prelude::*;
use crate::error::Error;
use crate::memory::{Memory, NativeMemory, CudaMemory, OpenclMemory, zero_bytes};

verus! {

/// The closed set of device kinds this coherence layer knows. Transfer
/// dispatch is a total match over this tagged variant instead of a
/// runtime downcast over type-erased arguments.
#[derive(Clone, Copy, Debug, PartialEq, Eq, Structural)]
pub enum DeviceKind {
    /// The host CPU.
    Native,
    /// A CUDA-style accelerator.
    Cuda,
    /// An OpenCL-style accelerator.
    Opencl,
}

/// The peer kinds each kind recognizes for a direct byte exchange, in
/// either direction of its own transfer operations:
/// - a native device exchanges bytes with other native devices;
/// - a CUDA device exchanges bytes with native devices, but there is no
///   direct route between two CUDA devices;
/// - an OpenCL device exchanges bytes only with other OpenCL devices, so
///   no route at all joins it to the native or CUDA kinds.
///
/// The relation is a capability declared per kind: that `a` recognizes
/// `b` says nothing about what `b` recognizes.
pub open spec fn spec_recognizes(k: DeviceKind, peer: DeviceKind) -> bool {
    match (k, peer) {
        (DeviceKind::Native, DeviceKind::Native) => true,
        (DeviceKind::Cuda, DeviceKind::Native) => true,
        (DeviceKind::Opencl, DeviceKind::Opencl) => true,
        _ => false,
    }
}

/// Runtime form of the route table `spec_recognizes`.
pub fn recognizes(k: DeviceKind, peer: DeviceKind) -> (r: bool)
    ensures
        r == spec_recognizes(k, peer),
{
    match (k, peer) {
        (DeviceKind::Native, DeviceKind::Native) => true,
        (DeviceKind::Cuda, DeviceKind::Native) => true,
        (DeviceKind::Opencl, DeviceKind::Opencl) => true,
        _ => false,
    }
}

/// A host (native) device, identified by an index.
#[derive(PartialEq, Eq, Clone, Copy, Debug, Structural)]
pub struct NativeDevice {
    index: usize,
}

impl NativeDevice {
    /// The identity of this device among native devices.
    pub closed spec fn id(self) -> usize {
        self.index
    }

    pub fn new(index: usize) -> (d: NativeDevice)
        ensures
            d.id() == index,
    {
        NativeDevice { index }
    }
}

/// A CUDA-style device, identified by an index.
#[derive(PartialEq, Eq, Clone, Copy, Debug, Structural)]
pub struct CudaDevice {
    cuda_index: usize,
}

impl CudaDevice {
    /// The identity of this device among CUDA devices.
    pub closed spec fn id(self) -> usize {
        self.cuda_index
    }

    pub fn new(cuda_index: usize) -> (d: CudaDevice)
        ensures
            d.id() == cuda_index,
    {
        CudaDevice { cuda_index }
    }
}

/// An OpenCL-style device, identified by an index.
#[derive(PartialEq, Eq, Clone, Copy, Debug, Structural)]
pub struct OpenclDevice {
    index: usize,
}

impl OpenclDevice {
    /// The identity of this device among OpenCL devices.
    pub closed spec fn id(self) -> usize {
        self.index
    }

    pub fn new(index: usize) -> (d: OpenclDevice)
        ensures
            d.id() == index,
    {
        OpenclDevice { index }
    }
}

/// Any compute device the coherence layer can hold a copy on. Devices
/// compare equal by identity (kind and index), never by allocated state;
/// two devices of different kinds are never equal.
#[derive(PartialEq, Eq, Clone, Copy, Debug, Structural)]
pub enum Device {
    Native(NativeDevice),
    Cuda(CudaDevice),
    Opencl(OpenclDevice),
}

/// A fixed rank per kind, used only to order device identities.
pub open spec fn kind_rank(k: DeviceKind) -> int {
    match k {
        DeviceKind::Native => 0,
        DeviceKind::Cuda => 1,
        DeviceKind::Opencl => 2,
    }
}

impl Device {
    /// The kind of this device.
    pub open spec fn kind(self) -> DeviceKind {
        match self {
            Device::Native(_) => DeviceKind::Native,
            Device::Cuda(_) => DeviceKind::Cuda,
            Device::Opencl(_) => DeviceKind::Opencl,
        }
    }

    /// The index of this device within its kind.
    pub open spec fn id(self) -> usize {
        match self {
            Device::Native(d) => d.id(),
            Device::Cuda(d) => d.id(),
            Device::Opencl(d) => d.id(),
        }
    }

    /// The total order on device identities (kind rank first, index
    /// second) that makes transfer-source selection deterministic.
    pub open spec fn spec_precedes(self, other: Device) -> bool {
        kind_rank(self.kind()) < kind_rank(other.kind())
        || (self.kind() == other.kind() && self.id() < other.id())
    }

    /// Runtime form of `kind`.
    pub fn device_kind(&self) -> (k: DeviceKind)
        ensures
            k == self.kind(),
    {
        match self {
            Device::Native(_) => DeviceKind::Native,
            Device::Cuda(_) => DeviceKind::Cuda,
            Device::Opencl(_) => DeviceKind::Opencl,
        }
    }

    /// Runtime form of `id`.
    pub fn device_id(&self) -> (i: usize)
        ensures
            i == self.id(),
    {
        match self {
            Device::Native(d) => d.index,
            Device::Cuda(d) => d.cuda_index,
            Device::Opencl(d) => d.index,
        }
    }

    fn rank(&self) -> (r: u8)
        ensures
            r as int == kind_rank(self.kind()),
    {
        match self {
            Device::Native(_) => 0,
            Device::Cuda(_) => 1,
            Device::Opencl(_) => 2,
        }
    }

    /// Runtime form of `spec_precedes`.
    pub fn precedes(&self, other: &Device) -> (r: bool)
        ensures
            r == self.spec_precedes(*other),
    {
        let ra = self.rank();
        let rb = other.rank();
        if ra < rb {
            true
        } else if ra == rb {
            self.device_id() < other.device_id()
        } else {
            false
        }
    }

    /// Allocates a zero-initialized memory handle of `size` bytes on this
    /// device. These toy backends allocate from host memory and never
    /// refuse a request, so the result is always `Ok`; `AllocationError`
    /// is the variant a capacity-limited backend would return instead.
    pub fn allocate_memory(&self, size: usize) -> (r: Result<Memory, Error>)
        ensures
            r is Ok,
            r matches Ok(m) ==> m.kind() == self.kind() && m.bytes() == zero_bytes(size as nat),
    {
        Ok(
            match self {
                Device::Native(_) => Memory::Native(NativeMemory::zeroed(size)),
                Device::Cuda(_) => Memory::Cuda(CudaMemory::zeroed(size)),
                Device::Opencl(_) => Memory::Opencl(OpenclMemory::zeroed(size)),
            },
        )
    }

    /// Pushes the bytes of `my_memory` (owned by this device) into
    /// `dst_memory` on `dst_device`. Succeeds exactly when this device's
    /// kind recognizes the destination kind; on an unrecognized kind it
    /// fails with `NoMemoryTransferRoute` and copies nothing. Both
    /// handles must be identically sized.
    pub fn transfer_out(
        &self,
        my_memory: &Memory,
        dst_device: &Device,
        dst_memory: &mut Memory,
    ) -> (r: Result<(), Error>)
        requires
            my_memory.kind() == self.kind(),
            old(dst_memory).kind() == dst_device.kind(),
            old(dst_memory).bytes().len() == my_memory.bytes().len(),
        ensures
            spec_recognizes(self.kind(), dst_device.kind()) ==> r == Ok::<(), Error>(())
                && final(dst_memory).kind() == old(dst_memory).kind()
                && final(dst_memory).bytes() == my_memory.bytes(),
            !spec_recognizes(self.kind(), dst_device.kind()) ==> r == Err::<(), Error>(
                Error::NoMemoryTransferRoute,
            ) && *final(dst_memory) == *old(dst_memory),
    {
        if recognizes(self.device_kind(), dst_device.device_kind()) {
            dst_memory.fill_from(my_memory);
            Ok(())
        } else {
            Err(Error::NoMemoryTransferRoute)
        }
    }

    /// Pulls the bytes of `src_memory` on `src_device` into `my_memory`
    /// (owned by this device). Succeeds exactly when this device's kind
    /// recognizes the source kind; on an unrecognized kind it fails with
    /// `NoMemoryTransferRoute` and copies nothing. Both handles must be
    /// identically sized.
    pub fn transfer_in(
        &self,
        my_memory: &mut Memory,
        src_device: &Device,
        src_memory: &Memory,
    ) -> (r: Result<(), Error>)
        requires
            old(my_memory).kind() == self.kind(),
            src_memory.kind() == src_device.kind(),
            old(my_memory).bytes().len() == src_memory.bytes().len(),
        ensures
            spec_recognizes(self.kind(), src_device.kind()) ==> r == Ok::<(), Error>(())
                && final(my_memory).kind() == old(my_memory).kind()
                && final(my_memory).bytes() == src_memory.bytes(),
            !spec_recognizes(self.kind(), src_device.kind()) ==> r == Err::<(), Error>(
                Error::NoMemoryTransferRoute,
            ) && *final(my_memory) == *old(my_memory),
    {
        if recognizes(self.device_kind(), src_device.device_kind()) {
            my_memory.fill_from(src_memory);
            Ok(())
        } else {
            Err(Error::NoMemoryTransferRoute)
        }
    }
}

} // verus!
