//! Choosing the device and the element type a model runs with, and the labels
//! they are reported under.
use vstd::prelude::*;
use vstd::string::*;

use crate::error::WaxError;

verus! {

/// The device asked for.
#[derive(Debug, Clone, Copy, PartialEq, Eq, Structural)]
pub enum DeviceChoice {
    Auto,
    Cpu,
    Cuda,
    Metal,
}

/// The element type asked for.
#[derive(Debug, Clone, Copy, PartialEq, Eq, Structural)]
pub enum DTypeChoice {
    Auto,
    F32,
    F16,
    BF16,
}

/// The kind of a Candle device (CUDA and Metal devices are ordinal 0).
#[derive(Debug, Clone, Copy, PartialEq, Eq, Structural)]
pub enum DeviceKind {
    Cpu,
    Cuda,
    Metal,
}

/// Candle's element types.
#[derive(Debug, Clone, Copy, PartialEq, Eq, Structural)]
pub enum DTypeKind {
    U8,
    U32,
    I16,
    I32,
    I64,
    BF16,
    F16,
    F32,
    F64,
    F8E4M3,
    F6E2M3,
    F6E3M2,
    F4,
    F8E8M0,
}

/// Calls `candle_core::utils::cuda_is_available`. Whether CUDA is available
/// depends on how Candle was built, so nothing is stated of the answer.
#[verifier::external_body]
pub(crate) fn cuda_available() -> bool {
    candle_core::utils::cuda_is_available()
}

/// Calls `candle_core::utils::metal_is_available`. Whether Metal is available
/// depends on how Candle was built, so nothing is stated of the answer.
#[verifier::external_body]
pub(crate) fn metal_available() -> bool {
    candle_core::utils::metal_is_available()
}

/// The message when an unavailable CUDA device is asked for.
pub open spec fn cuda_missing_text() -> Seq<char> {
    "CUDA was requested but is not available in this build/runtime"@
}

/// The message when an unavailable Metal device is asked for.
pub open spec fn metal_missing_text() -> Seq<char> {
    "Metal was requested but is not available in this build/runtime"@
}

/// The device chosen for `choice` when CUDA and Metal are (or are not) available;
/// `None` when the chosen device is not available.
pub open spec fn device_for(choice: DeviceChoice, cuda: bool, metal: bool) -> Option<DeviceKind> {
    match choice {
        DeviceChoice::Auto => Some(
            if cuda {
                DeviceKind::Cuda
            } else if metal {
                DeviceKind::Metal
            } else {
                DeviceKind::Cpu
            },
        ),
        DeviceChoice::Cpu => Some(DeviceKind::Cpu),
        DeviceChoice::Cuda => if cuda {
            Some(DeviceKind::Cuda)
        } else {
            None
        },
        DeviceChoice::Metal => if metal {
            Some(DeviceKind::Metal)
        } else {
            None
        },
    }
}

/// `r` is what choosing `choice` gives when CUDA and Metal are (or are not) available.
pub open spec fn device_choice_result(
    choice: DeviceChoice,
    cuda: bool,
    metal: bool,
    r: Result<DeviceKind, WaxError>,
) -> bool {
    match device_for(choice, cuda, metal) {
        Some(kind) => r == Ok::<DeviceKind, WaxError>(kind),
        None => match r {
            Err(WaxError::InvalidRequest(msg)) => msg@ == if choice == DeviceChoice::Cuda {
                cuda_missing_text()
            } else {
                metal_missing_text()
            },
            _ => false,
        },
    }
}

/// Chooses the device for `choice`, given whether CUDA and Metal are available:
/// `Auto` prefers CUDA, then Metal, then the CPU; an explicit CUDA or Metal
/// choice fails when that device is not available.
pub fn choose_device(choice: DeviceChoice, cuda: bool, metal: bool) -> (r: Result<
    DeviceKind,
    WaxError,
>)
    ensures
        device_choice_result(choice, cuda, metal, r),
{
    match choice {
        DeviceChoice::Auto => {
            if cuda {
                Ok(DeviceKind::Cuda)
            } else if metal {
                Ok(DeviceKind::Metal)
            } else {
                Ok(DeviceKind::Cpu)
            }
        },
        DeviceChoice::Cpu => Ok(DeviceKind::Cpu),
        DeviceChoice::Cuda => {
            if !cuda {
                return Err(
                    WaxError::InvalidRequest(
                        String::from_str(
                            "CUDA was requested but is not available in this build/runtime",
                        ),
                    ),
                );
            }
            Ok(DeviceKind::Cuda)
        },
        DeviceChoice::Metal => {
            if !metal {
                return Err(
                    WaxError::InvalidRequest(
                        String::from_str(
                            "Metal was requested but is not available in this build/runtime",
                        ),
                    ),
                );
            }
            Ok(DeviceKind::Metal)
        },
    }
}

/// Chooses the device for `choice` on this build of Candle.
pub fn select_device(choice: DeviceChoice) -> (r: Result<DeviceKind, WaxError>)
    ensures
        exists|cuda: bool, metal: bool| device_choice_result(choice, cuda, metal, r),
{
    let cuda = cuda_available();
    let metal = metal_available();
    choose_device(choice, cuda, metal)
}

/// The element type for `choice` on `device`: `Auto` is `F32` on the CPU and
/// `F16` on a GPU.
pub open spec fn dtype_for(choice: DTypeChoice, device: DeviceKind) -> DTypeKind {
    match choice {
        DTypeChoice::Auto => match device {
            DeviceKind::Cpu => DTypeKind::F32,
            _ => DTypeKind::F16,
        },
        DTypeChoice::F32 => DTypeKind::F32,
        DTypeChoice::F16 => DTypeKind::F16,
        DTypeChoice::BF16 => DTypeKind::BF16,
    }
}

/// Chooses the element type for `choice` on `device`.
pub fn select_dtype(choice: DTypeChoice, device: DeviceKind) -> (d: DTypeKind)
    ensures
        d == dtype_for(choice, device),
{
    match choice {
        DTypeChoice::Auto => match device {
            DeviceKind::Cpu => DTypeKind::F32,
            DeviceKind::Cuda | DeviceKind::Metal => DTypeKind::F16,
        },
        DTypeChoice::F32 => DTypeKind::F32,
        DTypeChoice::F16 => DTypeKind::F16,
        DTypeChoice::BF16 => DTypeKind::BF16,
    }
}

/// The label a device is reported under.
pub open spec fn device_text(device: DeviceKind) -> Seq<char> {
    match device {
        DeviceKind::Cpu => "cpu"@,
        DeviceKind::Cuda => "cuda:0"@,
        DeviceKind::Metal => "metal:0"@,
    }
}

/// The label a device is reported under in statistics.
pub fn device_label(device: DeviceKind) -> (s: String)
    ensures
        s@ == device_text(device),
{
    match device {
        DeviceKind::Cpu => String::from_str("cpu"),
        DeviceKind::Cuda => String::from_str("cuda:0"),
        DeviceKind::Metal => String::from_str("metal:0"),
    }
}

/// The label an element type is reported under: its name in lower case.
pub open spec fn dtype_text(dtype: DTypeKind) -> Seq<char> {
    match dtype {
        DTypeKind::U8 => "u8"@,
        DTypeKind::U32 => "u32"@,
        DTypeKind::I16 => "i16"@,
        DTypeKind::I32 => "i32"@,
        DTypeKind::I64 => "i64"@,
        DTypeKind::BF16 => "bf16"@,
        DTypeKind::F16 => "f16"@,
        DTypeKind::F32 => "f32"@,
        DTypeKind::F64 => "f64"@,
        DTypeKind::F8E4M3 => "f8e4m3"@,
        DTypeKind::F6E2M3 => "f6e2m3"@,
        DTypeKind::F6E3M2 => "f6e3m2"@,
        DTypeKind::F4 => "f4"@,
        DTypeKind::F8E8M0 => "f8e8m0"@,
    }
}

/// The label an element type is reported under in statistics.
pub fn dtype_label(dtype: DTypeKind) -> (s: String)
    ensures
        s@ == dtype_text(dtype),
{
    let name = match dtype {
        DTypeKind::U8 => "u8",
        DTypeKind::U32 => "u32",
        DTypeKind::I16 => "i16",
        DTypeKind::I32 => "i32",
        DTypeKind::I64 => "i64",
        DTypeKind::BF16 => "bf16",
        DTypeKind::F16 => "f16",
        DTypeKind::F32 => "f32",
        DTypeKind::F64 => "f64",
        DTypeKind::F8E4M3 => "f8e4m3",
        DTypeKind::F6E2M3 => "f6e2m3",
        DTypeKind::F6E3M2 => "f6e3m2",
        DTypeKind::F4 => "f4",
        DTypeKind::F8E8M0 => "f8e8m0",
    };
    String::from_str(name)
}

/// Law: the CPU is always granted; an explicit CUDA or Metal choice is granted
/// exactly that device when it is available and refused otherwise; `Auto`
/// takes CUDA, else Metal, else the CPU.
pub proof fn law_device_choice(
    choice: DeviceChoice,
    cuda: bool,
    metal: bool,
    r: Result<DeviceKind, WaxError>,
)
    requires
        device_choice_result(choice, cuda, metal, r),
    ensures
        choice == DeviceChoice::Cpu ==> r == Ok::<DeviceKind, WaxError>(DeviceKind::Cpu),
        choice == DeviceChoice::Cuda ==> (cuda ==> r == Ok::<DeviceKind, WaxError>(DeviceKind::Cuda))
            && (!cuda ==> r is Err),
        choice == DeviceChoice::Metal ==> (metal ==> r == Ok::<DeviceKind, WaxError>(
            DeviceKind::Metal,
        )) && (!metal ==> r is Err),
        choice == DeviceChoice::Auto && cuda ==> r == Ok::<DeviceKind, WaxError>(DeviceKind::Cuda),
        choice == DeviceChoice::Auto && !cuda && metal ==> r == Ok::<DeviceKind, WaxError>(
            DeviceKind::Metal,
        ),
        choice == DeviceChoice::Auto && !cuda && !metal ==> r == Ok::<DeviceKind, WaxError>(
            DeviceKind::Cpu,
        ),
{
}

/// Law: an explicit element type is always the one used; `Auto` is `F32` on the
/// CPU and `F16` on either GPU.
pub proof fn law_dtype_choice(choice: DTypeChoice, device: DeviceKind)
    ensures
        choice == DTypeChoice::F32 ==> dtype_for(choice, device) == DTypeKind::F32,
        choice == DTypeChoice::F16 ==> dtype_for(choice, device) == DTypeKind::F16,
        choice == DTypeChoice::BF16 ==> dtype_for(choice, device) == DTypeKind::BF16,
        choice == DTypeChoice::Auto && device == DeviceKind::Cpu ==> dtype_for(choice, device)
            == DTypeKind::F32,
        choice == DTypeChoice::Auto && device != DeviceKind::Cpu ==> dtype_for(choice, device)
            == DTypeKind::F16,
{
}

} // verus!
