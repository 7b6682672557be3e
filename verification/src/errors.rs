//! Error values the syscall layer returns to callers.
use vstd::prelude::*;

verus! {

#[derive(Debug, Clone, Copy, PartialEq, Eq, Structural)]
pub enum SyscallErrorCode {
    NoError,
    NoSyscall,
}

/// A syscall failure: its code and a human-readable message.
#[derive(Clone, Debug)]
pub struct SyscallError {
    error_code: SyscallErrorCode,
    message: String,
}

impl SyscallError {
    pub closed spec fn spec_error_code(self) -> SyscallErrorCode {
        self.error_code
    }

    pub closed spec fn spec_message(self) -> Seq<char> {
        self.message@
    }

    pub fn new(error_code: SyscallErrorCode, message: String) -> (r: Self)
        ensures
            r.spec_error_code() == error_code,
            r.spec_message() == message@,
    {
        Self { error_code, message }
    }

    /// The failure every unknown syscall id reports.
    pub fn no_such_system_call() -> (r: Self)
        ensures
            r.spec_error_code() == SyscallErrorCode::NoSyscall,
            r.spec_message() == "No such system call"@,
    {
        broadcast use vstd::string::to_string_from_display_ensures_for_str;

        Self::new(SyscallErrorCode::NoSyscall, "No such system call".to_string())
    }

    pub fn error_code(&self) -> (r: SyscallErrorCode)
        ensures
            r == self.spec_error_code(),
    {
        self.error_code
    }

    /// The message, for the embedding kernel's log.
    pub fn message(&self) -> (r: &String)
        ensures
            r@ == self.spec_message(),
    {
        &self.message
    }
}

} // verus!
