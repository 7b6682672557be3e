//! Small kernel library helpers: size units and human-readable scaling.
use vstd::prelude::*;

verus! {

pub const KIB: u64 = 1024;

pub const MIB: u64 = KIB * 1024;

pub const GIB: u64 = MIB * 1024;

pub const TIB: u64 = GIB * 1024;

pub const EIB: u64 = TIB * 1024;

/// The unit suffix and divisor that scale a byte count for display: the
/// largest unit the count exceeds, or plain bytes.
pub fn get_size_suffix_and_divisior(num: u64) -> (r: (&'static str, u64))
    ensures
        num > EIB ==> r.1 == EIB && r.0@ == "EiB"@,
        !(num > EIB) && num > TIB ==> r.1 == TIB && r.0@ == "TiB"@,
        !(num > TIB) && num > GIB ==> r.1 == GIB && r.0@ == "GiB"@,
        !(num > GIB) && num > MIB ==> r.1 == MIB && r.0@ == "MiB"@,
        !(num > MIB) && num > KIB ==> r.1 == KIB && r.0@ == "KiB"@,
        !(num > KIB) ==> r.1 == 1 && r.0@ == "bytes"@,
{
    if num > EIB {
        ("EiB", EIB)
    } else if num > TIB {
        ("TiB", TIB)
    } else if num > GIB {
        ("GiB", GIB)
    } else if num > MIB {
        ("MiB", MIB)
    } else if num > KIB {
        ("KiB", KIB)
    } else {
        ("bytes", 1)
    }
}

/// How the kernel's test harness reports its outcome through the QEMU
/// debug-exit port; the device doubles the code and adds one on exit.
#[derive(Debug, Clone, Copy, PartialEq, Eq, Structural)]
pub enum QemuExitCode {
    Success,
    Failed,
}

impl QemuExitCode {
    /// The value written to the exit port.
    pub fn code(&self) -> (r: u32)
        ensures
            *self == QemuExitCode::Success ==> r == 1,
            *self == QemuExitCode::Failed ==> r == 2,
    {
        match self {
            QemuExitCode::Success => 1,
            QemuExitCode::Failed => 2,
        }
    }
}

/// The severity of one log line.
#[derive(Debug, Clone, Copy, PartialEq, Eq, Structural)]
pub enum LogLevel {
    Debug,
    Verbose,
    Info,
    Warning,
    Error,
    Fatal,
}

impl LogLevel {
    /// The fixed-width label the console prints for this level.
    pub fn label(&self) -> (r: &'static str)
        ensures
            *self == LogLevel::Debug ==> r@ == "DEBUG  "@,
            *self == LogLevel::Verbose ==> r@ == "VERBOSE"@,
            *self == LogLevel::Info ==> r@ == "INFO   "@,
            *self == LogLevel::Warning ==> r@ == "WARNING"@,
            *self == LogLevel::Error ==> r@ == "ERROR  "@,
            *self == LogLevel::Fatal ==> r@ == "FATAL  "@,
    {
        match self {
            LogLevel::Debug => "DEBUG  ",
            LogLevel::Verbose => "VERBOSE",
            LogLevel::Info => "INFO   ",
            LogLevel::Warning => "WARNING",
            LogLevel::Error => "ERROR  ",
            LogLevel::Fatal => "FATAL  ",
        }
    }
}

} // verus!
