use wax_core::device::{
    choose_device, device_label, dtype_label, select_device, select_dtype, DTypeChoice, DTypeKind,
    DeviceChoice, DeviceKind,
};

#[test]
fn cpu_auto_dtype_defaults_to_f32() {
    assert_eq!(select_dtype(DTypeChoice::Auto, DeviceKind::Cpu), DTypeKind::F32);
}

#[test]
fn gpu_auto_dtype_defaults_to_f16() {
    assert_eq!(select_dtype(DTypeChoice::Auto, DeviceKind::Cuda), DTypeKind::F16);
    assert_eq!(select_dtype(DTypeChoice::Auto, DeviceKind::Metal), DTypeKind::F16);
}

#[test]
fn explicit_dtype_overrides_device_default() {
    assert_eq!(select_dtype(DTypeChoice::F16, DeviceKind::Cpu), DTypeKind::F16);
    assert_eq!(select_dtype(DTypeChoice::BF16, DeviceKind::Cpu), DTypeKind::BF16);
}

#[test]
fn labels_are_stable_for_stats() {
    assert_eq!(device_label(DeviceKind::Cpu), "cpu");
    assert_eq!(dtype_label(DTypeKind::F32), "f32");
    assert_eq!(dtype_label(DTypeKind::F16), "f16");
}

#[test]
fn gpu_labels_name_device_zero() {
    assert_eq!(device_label(DeviceKind::Cuda), "cuda:0");
    assert_eq!(device_label(DeviceKind::Metal), "metal:0");
    assert_eq!(dtype_label(DTypeKind::BF16), "bf16");
    assert_eq!(dtype_label(DTypeKind::F8E4M3), "f8e4m3");
}

#[test]
fn auto_device_prefers_cuda_then_metal_then_cpu() {
    assert_eq!(choose_device(DeviceChoice::Auto, true, true).unwrap(), DeviceKind::Cuda);
    assert_eq!(choose_device(DeviceChoice::Auto, false, true).unwrap(), DeviceKind::Metal);
    assert_eq!(choose_device(DeviceChoice::Auto, false, false).unwrap(), DeviceKind::Cpu);
}

#[test]
fn unavailable_gpu_is_an_error() {
    let err = choose_device(DeviceChoice::Cuda, false, true).unwrap_err();
    assert_eq!(
        err.message(),
        "invalid generation request: CUDA was requested but is not available in this build/runtime"
    );
    let err = choose_device(DeviceChoice::Metal, true, false).unwrap_err();
    assert!(err.message().contains("Metal was requested"));
}

#[test]
fn cpu_is_always_available() {
    assert_eq!(select_device(DeviceChoice::Cpu).unwrap(), DeviceKind::Cpu);
    // This build of Candle has neither CUDA nor Metal.
    assert_eq!(select_device(DeviceChoice::Auto).unwrap(), DeviceKind::Cpu);
    assert!(select_device(DeviceChoice::Cuda).is_err());
}
