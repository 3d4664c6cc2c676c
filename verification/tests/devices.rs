use shared_tensor::{
    CudaDevice, Device, DeviceKind, Error, Memory, NativeDevice, OpenclDevice, SharedTensor,
};
use shared_tensor::device::recognizes;

#[test]
fn devices_compare_by_identity() {
    assert_eq!(CudaDevice::new(0), CudaDevice::new(0));
    assert_ne!(CudaDevice::new(0), CudaDevice::new(1));
    assert_eq!(Device::Cuda(CudaDevice::new(2)), Device::Cuda(CudaDevice::new(2)));
    assert_ne!(Device::Cuda(CudaDevice::new(0)), Device::Native(NativeDevice::new(0)));
}

#[test]
fn device_kind_and_id() {
    let d = Device::Cuda(CudaDevice::new(3));
    assert_eq!(d.device_kind(), DeviceKind::Cuda);
    assert_eq!(d.device_id(), 3);
    let n = Device::Native(NativeDevice::new(1));
    assert_eq!(n.device_kind(), DeviceKind::Native);
    assert_eq!(n.device_id(), 1);
    let o = Device::Opencl(OpenclDevice::new(4));
    assert_eq!(o.device_kind(), DeviceKind::Opencl);
    assert_eq!(o.device_id(), 4);
}

#[test]
fn identity_order_ranks_kind_then_index() {
    let n1 = Device::Native(NativeDevice::new(1));
    let c0 = Device::Cuda(CudaDevice::new(0));
    let c1 = Device::Cuda(CudaDevice::new(1));
    assert!(n1.precedes(&c0));
    assert!(c0.precedes(&c1));
    assert!(!c1.precedes(&c0));
    assert!(!c0.precedes(&c0));
}

#[test]
fn route_table() {
    assert!(recognizes(DeviceKind::Native, DeviceKind::Native));
    assert!(recognizes(DeviceKind::Cuda, DeviceKind::Native));
    assert!(recognizes(DeviceKind::Opencl, DeviceKind::Opencl));
    assert!(!recognizes(DeviceKind::Native, DeviceKind::Cuda));
    assert!(!recognizes(DeviceKind::Cuda, DeviceKind::Cuda));
    assert!(!recognizes(DeviceKind::Cuda, DeviceKind::Opencl));
    assert!(!recognizes(DeviceKind::Opencl, DeviceKind::Cuda));
    assert!(!recognizes(DeviceKind::Opencl, DeviceKind::Native));
}

#[test]
fn allocate_memory_is_zeroed_and_kinded() {
    let d = Device::Cuda(CudaDevice::new(0));
    let m = d.allocate_memory(5).unwrap();
    assert_eq!(m.size(), 5);
    assert_eq!(m.as_cuda().size(), 5);
    assert_eq!(m.as_cuda().as_cuda_slice(), [0, 0, 0, 0, 0]);
}

#[test]
fn transfer_out_copies_or_refuses() {
    let cd = Device::Cuda(CudaDevice::new(0));
    let nd = Device::Native(NativeDevice::new(0));
    let mut src = cd.allocate_memory(3).unwrap();
    for x in src.as_mut_cuda().as_mut_cuda_slice() {
        *x = 4;
    }
    let mut dst = nd.allocate_memory(3).unwrap();
    cd.transfer_out(&src, &nd, &mut dst).unwrap();
    assert_eq!(dst.as_native().as_slice(), [4, 4, 4]);

    // the native kind recognizes no cuda peer: pushing the other way fails
    let mut back: Memory = cd.allocate_memory(3).unwrap();
    assert_eq!(nd.transfer_out(&dst, &cd, &mut back), Err(Error::NoMemoryTransferRoute));
    assert_eq!(back.as_cuda().as_cuda_slice(), [0, 0, 0]);
}

#[test]
fn transfer_in_pulls_from_recognized_kind() {
    let cd = Device::Cuda(CudaDevice::new(0));
    let nd = Device::Native(NativeDevice::new(0));
    let mut src = nd.allocate_memory(2).unwrap();
    for x in src.as_mut_native().as_mut_slice() {
        *x = 6;
    }
    let mut dst = cd.allocate_memory(2).unwrap();
    cd.transfer_in(&mut dst, &nd, &src).unwrap();
    assert_eq!(dst.as_cuda().as_cuda_slice(), [6, 6]);

    // a cuda device cannot pull from another cuda device
    let c1 = Device::Cuda(CudaDevice::new(1));
    let mut dst2 = c1.allocate_memory(2).unwrap();
    assert_eq!(c1.transfer_in(&mut dst2, &cd, &dst), Err(Error::NoMemoryTransferRoute));
    assert_eq!(dst2.as_cuda().as_cuda_slice(), [0, 0]);
}

#[test]
fn shape_and_size() {
    let t = SharedTensor::new(vec![2, 3, 4]);
    assert_eq!(t.size(), 24);
    assert_eq!(t.shape().as_slice(), [2, 3, 4]);

    let unit = SharedTensor::new(vec![]);
    assert_eq!(unit.size(), 1);

    let empty = SharedTensor::new(vec![0, 5]);
    assert_eq!(empty.size(), 0);
}

#[test]
fn zero_sized_tensor_transfers() {
    let nd = Device::Native(NativeDevice::new(0));
    let cd = Device::Cuda(CudaDevice::new(0));
    let mut t = SharedTensor::new(vec![0]);
    t.write_only(&cd).unwrap();
    t.read(&nd).unwrap();
    assert_eq!(t.mem(&nd).as_native().as_slice(), []);
    assert_eq!(t.mem(&nd).size(), 0);
}

#[test]
fn memory_slices_expose_the_same_bytes() {
    let nd = Device::Native(NativeDevice::new(0));
    let mut t = SharedTensor::new(vec![3]);
    t.write_only(&nd).unwrap();
    {
        let s = t.mut_mem(&nd).as_mut_native().as_mut_slice();
        s[0] = 1;
        s[1] = 2;
        s[2] = 3;
    }
    let m = t.mem(&nd);
    assert_eq!(m.size(), 3);
    assert_eq!(m.as_native().size(), 3);
    assert_eq!(m.as_native().as_slice(), [1, 2, 3]);
}
