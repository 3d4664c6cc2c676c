use shared_tensor::{CopyState, CudaDevice, Device, Error, NativeDevice, OpenclDevice, SharedTensor};

fn native(i: usize) -> Device {
    Device::Native(NativeDevice::new(i))
}

fn cuda(i: usize) -> Device {
    Device::Cuda(CudaDevice::new(i))
}

fn opencl(i: usize) -> Device {
    Device::Opencl(OpenclDevice::new(i))
}

#[test]
fn cuda_transfer_works() {
    let ndev = native(0);
    let cdev = cuda(0);

    let mut s1 = SharedTensor::new(vec![1, 2, 3]);
    s1.write_only(&cdev).unwrap();
    for x in s1.mut_mem(&cdev).as_mut_cuda().as_mut_cuda_slice() {
        *x = 11;
    }
    s1.read(&ndev).unwrap();
    assert_eq!(s1.mem(&ndev).as_native().as_slice(), [11, 11, 11, 11, 11, 11]);
}

#[test]
fn round_trip_same_device() {
    let nd = native(0);
    let mut t = SharedTensor::new(vec![4]);
    t.write_only(&nd).unwrap();
    for x in t.mut_mem(&nd).as_mut_native().as_mut_slice() {
        *x = 7;
    }
    t.read(&nd).unwrap();
    assert_eq!(t.mem(&nd).as_native().as_slice(), [7, 7, 7, 7]);
    // reading again without intervening writes returns identical bytes
    t.read(&nd).unwrap();
    assert_eq!(t.mem(&nd).as_native().as_slice(), [7, 7, 7, 7]);
}

#[test]
fn coherence_scenario() {
    // six elements; write on A (cuda), read on B (native, routed),
    // read on C (opencl, unrouted) must fail without touching state
    let a = cuda(0);
    let b = native(0);
    let c = opencl(0);
    let mut t = SharedTensor::new(vec![1, 2, 3]);
    t.write_only(&a).unwrap();
    for x in t.mut_mem(&a).as_mut_cuda().as_mut_cuda_slice() {
        *x = 11;
    }
    t.read(&b).unwrap();
    assert_eq!(t.mem(&b).as_native().as_slice(), [11, 11, 11, 11, 11, 11]);
    assert_eq!(t.copy_state(&a), CopyState::Fresh);
    assert_eq!(t.copy_state(&b), CopyState::Fresh);

    assert_eq!(t.read(&c), Err(Error::NoMemoryTransferRoute));
    assert_eq!(t.copy_state(&c), CopyState::Absent);
    assert_eq!(t.copy_state(&a), CopyState::Fresh);
    assert_eq!(t.copy_state(&b), CopyState::Fresh);
}

#[test]
fn read_write_invalidates_others() {
    let cd = cuda(0);
    let nd = native(0);
    let mut t = SharedTensor::new(vec![3]);
    t.write_only(&cd).unwrap();
    for x in t.mut_mem(&cd).as_mut_cuda().as_mut_cuda_slice() {
        *x = 2;
    }
    t.read(&nd).unwrap();
    assert_eq!(t.copy_state(&cd), CopyState::Fresh);

    // take write access on the native copy: the cuda entry goes stale
    t.read_write(&nd).unwrap();
    assert_eq!(t.copy_state(&nd), CopyState::Fresh);
    assert_eq!(t.copy_state(&cd), CopyState::Stale);
    for x in t.mut_mem(&nd).as_mut_native().as_mut_slice() {
        *x = 9;
    }

    // a subsequent read repairs the cuda copy from the native bytes
    t.read(&cd).unwrap();
    assert_eq!(t.mem(&cd).as_cuda().as_cuda_slice(), [9, 9, 9]);
    assert_eq!(t.copy_state(&cd), CopyState::Fresh);
}

#[test]
fn uninitialized_read_fails() {
    let nd = native(0);
    let cd = cuda(0);
    let mut t = SharedTensor::new(vec![2, 2]);
    assert_eq!(t.copy_state(&nd), CopyState::Absent);
    assert_eq!(t.read(&nd), Err(Error::UninitializedMemory));
    assert_eq!(t.read_write(&cd), Err(Error::UninitializedMemory));
    assert_eq!(t.copy_state(&nd), CopyState::Absent);
    assert_eq!(t.copy_state(&cd), CopyState::Absent);
}

#[test]
fn no_route_between_two_cuda_devices() {
    let c0 = cuda(0);
    let c1 = cuda(1);
    let mut t = SharedTensor::new(vec![5]);
    t.write_only(&c0).unwrap();
    assert_eq!(t.read(&c1), Err(Error::NoMemoryTransferRoute));
    assert_eq!(t.copy_state(&c0), CopyState::Fresh);
    assert_eq!(t.copy_state(&c1), CopyState::Absent);
}

#[test]
fn no_route_between_distinct_accelerator_kinds() {
    let cd = cuda(0);
    let od = opencl(0);
    let mut t = SharedTensor::new(vec![2]);
    t.write_only(&od).unwrap();
    assert_eq!(t.read(&cd), Err(Error::NoMemoryTransferRoute));
    assert_eq!(t.copy_state(&od), CopyState::Fresh);
    assert_eq!(t.copy_state(&cd), CopyState::Absent);
}

#[test]
fn opencl_to_opencl_transfer() {
    let o0 = opencl(0);
    let o1 = opencl(1);
    let mut t = SharedTensor::new(vec![3]);
    t.write_only(&o0).unwrap();
    for x in t.mut_mem(&o0).as_mut_opencl().as_mut_slice() {
        *x = 5;
    }
    t.read(&o1).unwrap();
    assert_eq!(t.mem(&o1).as_opencl().as_slice(), [5, 5, 5]);
}

#[test]
fn source_selection_skips_unrouted_fresh_copies() {
    // both native(0) and cuda(0) are fresh; a second cuda device can
    // only be served from the native copy, and is
    let c0 = cuda(0);
    let c1 = cuda(1);
    let nd = native(0);
    let mut t = SharedTensor::new(vec![2]);
    t.write_only(&c0).unwrap();
    for x in t.mut_mem(&c0).as_mut_cuda().as_mut_cuda_slice() {
        *x = 9;
    }
    t.read(&nd).unwrap();
    t.read(&c1).unwrap();
    assert_eq!(t.mem(&c1).as_cuda().as_cuda_slice(), [9, 9]);
}

#[test]
fn write_only_zero_fills_new_handles() {
    let nd = native(0);
    let mut t = SharedTensor::new(vec![4]);
    t.write_only(&nd).unwrap();
    assert_eq!(t.mem(&nd).as_native().as_slice(), [0, 0, 0, 0]);
}

#[test]
fn write_only_keeps_existing_bytes() {
    let nd = native(0);
    let mut t = SharedTensor::new(vec![3]);
    t.write_only(&nd).unwrap();
    for x in t.mut_mem(&nd).as_mut_native().as_mut_slice() {
        *x = 3;
    }
    t.write_only(&nd).unwrap();
    assert_eq!(t.mem(&nd).as_native().as_slice(), [3, 3, 3]);
}

#[test]
fn stale_copy_keeps_bytes_until_repaired() {
    let nd = native(0);
    let cd = cuda(0);
    let mut t = SharedTensor::new(vec![2]);
    t.write_only(&nd).unwrap();
    for x in t.mut_mem(&nd).as_mut_native().as_mut_slice() {
        *x = 1;
    }
    t.read(&cd).unwrap();
    assert_eq!(t.mem(&cd).as_cuda().as_cuda_slice(), [1, 1]);
    // overwrite on native: cuda goes stale, then gets repaired on read
    t.write_only(&nd).unwrap();
    for x in t.mut_mem(&nd).as_mut_native().as_mut_slice() {
        *x = 8;
    }
    assert_eq!(t.copy_state(&cd), CopyState::Stale);
    t.read(&cd).unwrap();
    assert_eq!(t.mem(&cd).as_cuda().as_cuda_slice(), [8, 8]);
}
