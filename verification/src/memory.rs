use vstd::prelude::*;
use vstd::pervasive::VecAdditionalExecFns;
use crate::device::DeviceKind;

verus! {

/// The all-zero byte sequence of length `n`: the contents of a freshly
/// allocated memory handle.
pub open spec fn zero_bytes(n: nat) -> Seq<u8> {
    Seq::new(n, |i: int| 0u8)
}

/// Builds a zero-initialized byte buffer of length `n`.
fn zeroed_vec(n: usize) -> (v: Vec<u8>)
    ensures
        v@ == zero_bytes(n as nat),
{
    let mut v: Vec<u8> = Vec::new();
    let mut i: usize = 0;
    while i < n
        invariant
            i <= n,
            v@.len() == i,
            forall|k: int| 0 <= k < i ==> v@[k] == 0u8,
        decreases n - i,
    {
        v.push(0u8);
        i = i + 1;
    }
    proof {
        assert(v@ =~= zero_bytes(n as nat));
    }
    v
}

/// Copies `src` into `dst` byte for byte. Both buffers must already have
/// the same length; a transfer never grows or shrinks a handle.
fn copy_vec(dst: &mut Vec<u8>, src: &Vec<u8>)
    requires
        old(dst)@.len() == src@.len(),
    ensures
        final(dst)@ == src@,
{
    let mut i: usize = 0;
    while i < src.len()
        invariant
            i <= src@.len(),
            dst@.len() == src@.len(),
            forall|k: int| 0 <= k < i ==> dst@[k] == src@[k],
        decreases src@.len() - i,
    {
        let b = src[i];
        dst.set(i, b);
        i = i + 1;
    }
    proof {
        assert(dst@ =~= src@);
    }
}

/// A memory handle owned by a host (native) device: a fixed-size byte
/// buffer in ordinary system memory.
#[derive(Debug)]
pub struct NativeMemory {
    data: Vec<u8>,
}

impl NativeMemory {
    /// The bytes currently held by this handle.
    pub closed spec fn bytes(self) -> Seq<u8> {
        self.data@
    }

    pub(crate) fn zeroed(n: usize) -> (m: NativeMemory)
        ensures
            m.bytes() == zero_bytes(n as nat),
    {
        NativeMemory { data: zeroed_vec(n) }
    }

    /// Size in bytes.
    pub fn size(&self) -> (n: usize)
        ensures
            n == self.bytes().len(),
    {
        self.data.len()
    }

    pub fn as_slice(&self) -> (s: &[u8])
        ensures
            s@ == self.bytes(),
    {
        self.data.as_slice()
    }

    pub fn as_mut_slice(&mut self) -> (s: &mut [u8])
        ensures
            s@ == old(self).bytes(),
            final(self).bytes() == final(s)@,
    {
        self.data.as_mut_slice()
    }
}

/// A memory handle owned by a CUDA-style accelerator. This toy backend
/// keeps the bytes in host memory; a real backend would keep a device
/// pointer instead, with the same size and contents discipline.
#[derive(Debug)]
pub struct CudaMemory {
    cuda_data: Vec<u8>,
}

impl CudaMemory {
    /// The bytes currently held by this handle.
    pub closed spec fn bytes(self) -> Seq<u8> {
        self.cuda_data@
    }

    pub(crate) fn zeroed(n: usize) -> (m: CudaMemory)
        ensures
            m.bytes() == zero_bytes(n as nat),
    {
        CudaMemory { cuda_data: zeroed_vec(n) }
    }

    /// Size in bytes.
    pub fn size(&self) -> (n: usize)
        ensures
            n == self.bytes().len(),
    {
        self.cuda_data.len()
    }

    pub fn as_cuda_slice(&self) -> (s: &[u8])
        ensures
            s@ == self.bytes(),
    {
        self.cuda_data.as_slice()
    }

    pub fn as_mut_cuda_slice(&mut self) -> (s: &mut [u8])
        ensures
            s@ == old(self).bytes(),
            final(self).bytes() == final(s)@,
    {
        self.cuda_data.as_mut_slice()
    }
}

/// A memory handle owned by an OpenCL-style accelerator; like the CUDA
/// handle, a byte buffer standing in for device memory.
#[derive(Debug)]
pub struct OpenclMemory {
    data: Vec<u8>,
}

impl OpenclMemory {
    /// The bytes currently held by this handle.
    pub closed spec fn bytes(self) -> Seq<u8> {
        self.data@
    }

    pub(crate) fn zeroed(n: usize) -> (m: OpenclMemory)
        ensures
            m.bytes() == zero_bytes(n as nat),
    {
        OpenclMemory { data: zeroed_vec(n) }
    }

    /// Size in bytes.
    pub fn size(&self) -> (n: usize)
        ensures
            n == self.bytes().len(),
    {
        self.data.len()
    }

    pub fn as_slice(&self) -> (s: &[u8])
        ensures
            s@ == self.bytes(),
    {
        self.data.as_slice()
    }

    pub fn as_mut_slice(&mut self) -> (s: &mut [u8])
        ensures
            s@ == old(self).bytes(),
            final(self).bytes() == final(s)@,
    {
        self.data.as_mut_slice()
    }
}

/// A memory handle on any of the known device kinds: the closed tagged
/// variant that the coherence engine stores one of per device.
#[derive(Debug)]
pub enum Memory {
    Native(NativeMemory),
    Cuda(CudaMemory),
    Opencl(OpenclMemory),
}

impl Memory {
    /// The kind of device this handle belongs to.
    pub open spec fn kind(self) -> DeviceKind {
        match self {
            Memory::Native(_) => DeviceKind::Native,
            Memory::Cuda(_) => DeviceKind::Cuda,
            Memory::Opencl(_) => DeviceKind::Opencl,
        }
    }

    /// The bytes currently held by this handle.
    pub open spec fn bytes(self) -> Seq<u8> {
        match self {
            Memory::Native(m) => m.bytes(),
            Memory::Cuda(m) => m.bytes(),
            Memory::Opencl(m) => m.bytes(),
        }
    }

    /// Size in bytes.
    pub fn size(&self) -> (n: usize)
        ensures
            n == self.bytes().len(),
    {
        match self {
            Memory::Native(m) => m.size(),
            Memory::Cuda(m) => m.size(),
            Memory::Opencl(m) => m.size(),
        }
    }

    fn vec_ref(&self) -> (v: &Vec<u8>)
        ensures
            v@ == self.bytes(),
    {
        match self {
            Memory::Native(m) => &m.data,
            Memory::Cuda(m) => &m.cuda_data,
            Memory::Opencl(m) => &m.data,
        }
    }

    /// Overwrites this handle's bytes with those of `src`. The sizes must
    /// match; the handle keeps its kind and its size.
    pub(crate) fn fill_from(&mut self, src: &Memory)
        requires
            old(self).bytes().len() == src.bytes().len(),
        ensures
            final(self).kind() == old(self).kind(),
            final(self).bytes() == src.bytes(),
    {
        let sv = src.vec_ref();
        match self {
            Memory::Native(m) => copy_vec(&mut m.data, sv),
            Memory::Cuda(m) => copy_vec(&mut m.cuda_data, sv),
            Memory::Opencl(m) => copy_vec(&mut m.data, sv),
        }
    }

    /// The native handle inside, on a handle of native kind.
    pub fn as_native(&self) -> (m: &NativeMemory)
        requires
            self.kind() == DeviceKind::Native,
        ensures
            m.bytes() == self.bytes(),
    {
        match self {
            Memory::Native(m) => m,
            _ => vstd::pervasive::unreached(),
        }
    }

    /// Mutable access to the native handle inside, on a handle of native kind.
    pub fn as_mut_native(&mut self) -> (m: &mut NativeMemory)
        requires
            old(self).kind() == DeviceKind::Native,
        ensures
            m.bytes() == old(self).bytes(),
            *final(self) == Memory::Native(*final(m)),
    {
        match self {
            Memory::Native(m) => m,
            _ => vstd::pervasive::unreached(),
        }
    }

    /// The CUDA handle inside, on a handle of CUDA kind.
    pub fn as_cuda(&self) -> (m: &CudaMemory)
        requires
            self.kind() == DeviceKind::Cuda,
        ensures
            m.bytes() == self.bytes(),
    {
        match self {
            Memory::Cuda(m) => m,
            _ => vstd::pervasive::unreached(),
        }
    }

    /// Mutable access to the CUDA handle inside, on a handle of CUDA kind.
    pub fn as_mut_cuda(&mut self) -> (m: &mut CudaMemory)
        requires
            old(self).kind() == DeviceKind::Cuda,
        ensures
            m.bytes() == old(self).bytes(),
            *final(self) == Memory::Cuda(*final(m)),
    {
        match self {
            Memory::Cuda(m) => m,
            _ => vstd::pervasive::unreached(),
        }
    }

    /// The OpenCL handle inside, on a handle of OpenCL kind.
    pub fn as_opencl(&self) -> (m: &OpenclMemory)
        requires
            self.kind() == DeviceKind::Opencl,
        ensures
            m.bytes() == self.bytes(),
    {
        match self {
            Memory::Opencl(m) => m,
            _ => vstd::pervasive::unreached(),
        }
    }

    /// Mutable access to the OpenCL handle inside, on a handle of OpenCL kind.
    pub fn as_mut_opencl(&mut self) -> (m: &mut OpenclMemory)
        requires
            old(self).kind() == DeviceKind::Opencl,
        ensures
            m.bytes() == old(self).bytes(),
            *final(self) == Memory::Opencl(*final(m)),
    {
        match self {
            Memory::Opencl(m) => m,
            _ => vstd::pervasive::unreached(),
        }
    }
}

} // verus!
