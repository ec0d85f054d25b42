//! System calls as values, and the guard that retries them.

use crate::host::map_failed;
use crate::text::{address, address_text, decimal, decimal_text, signed_decimal, signed_text};
use vstd::prelude::*;

verus! {

/// How often a POSIX call is tried before its failure is reported.
pub const RETRY_COUNT: usize = 3;

/// An error of the virtual machine's runtime.
#[derive(Debug, PartialEq, Eq)]
pub enum EbpfError {
    /// A system call failed: its name, its arguments as text, and the error number.
    LibcInvocationFailed(&'static str, Vec<String>, i32),
}

/// A call to the operating system, with every argument it takes.
#[derive(Clone, Copy, Debug, PartialEq, Eq)]
pub enum SystemCall {
    Mmap { addr: usize, len: usize, prot: i32, flags: i32, fd: i32, offset: i64 },
    Munmap { addr: usize, len: usize },
    Mprotect { addr: usize, len: usize, prot: i32 },
    Madvise { addr: usize, len: usize, advice: i32 },
    VirtualAlloc { addr: usize, len: usize, allocation_type: u32, protect: u32 },
    VirtualFree { addr: usize, len: usize, free_type: u32 },
    VirtualProtect { addr: usize, len: usize, protect: u32, old_protect: usize },
}

/// What a system call returned.
#[derive(Clone, Copy, Debug, PartialEq, Eq)]
pub enum Reply {
    /// The address that a mapping call returned.
    Address(usize),
    /// The number that any other call returned.
    Status(i32),
}

/// The texts that a list of strings holds.
pub open spec fn texts(strings: Seq<String>) -> Seq<Seq<char>> {
    Seq::new(strings.len(), |i: int| strings[i]@)
}

impl SystemCall {
    /// Whether the call returns an address.
    pub open spec fn maps(self) -> bool {
        self is Mmap || self is VirtualAlloc
    }

    /// Whether a reply is of the kind that the call returns.
    pub open spec fn yields(self, reply: Reply) -> bool {
        self.maps() <==> reply is Address
    }

    /// Whether a reply says that the call did its work. A reply of a kind that
    /// the call does not return never says so.
    pub open spec fn succeeded(self, reply: Reply) -> bool {
        match (self, reply) {
            (SystemCall::Mmap { .. }, Reply::Address(addr)) => addr != usize::MAX,
            (SystemCall::VirtualAlloc { .. }, Reply::Address(addr)) => addr != 0,
            (SystemCall::Munmap { .. }, Reply::Status(status)) => status == 0,
            (SystemCall::Mprotect { .. }, Reply::Status(status)) => status == 0,
            (SystemCall::Madvise { .. }, Reply::Status(status)) => status == 0,
            (SystemCall::VirtualFree { .. }, Reply::Status(status)) => status != 0,
            (SystemCall::VirtualProtect { .. }, Reply::Status(status)) => status != 0,
            _ => false,
        }
    }

    /// The call with the address that a mapping call returned in place of the
    /// address it asked for. Any other call is left as it is.
    pub open spec fn having_returned(self, reply: Reply) -> SystemCall {
        match (self, reply) {
            (
                SystemCall::Mmap { len, prot, flags, fd, offset, .. },
                Reply::Address(addr),
            ) => SystemCall::Mmap { addr, len, prot, flags, fd, offset },
            (
                SystemCall::VirtualAlloc { len, allocation_type, protect, .. },
                Reply::Address(addr),
            ) => SystemCall::VirtualAlloc { addr, len, allocation_type, protect },
            _ => self,
        }
    }

    /// How often the call is tried at most.
    pub open spec fn attempts(self) -> usize {
        match self {
            SystemCall::Mmap { .. } => RETRY_COUNT,
            SystemCall::Munmap { .. } => RETRY_COUNT,
            SystemCall::Mprotect { .. } => RETRY_COUNT,
            SystemCall::Madvise { .. } => RETRY_COUNT,
            SystemCall::VirtualAlloc { .. } => 1,
            SystemCall::VirtualFree { .. } => 1,
            SystemCall::VirtualProtect { .. } => 1,
        }
    }

    /// The name of the function that the call invokes.
    pub open spec fn name(self) -> Seq<char> {
        match self {
            SystemCall::Mmap { .. } => "mmap"@,
            SystemCall::Munmap { .. } => "munmap"@,
            SystemCall::Mprotect { .. } => "mprotect"@,
            SystemCall::Madvise { .. } => "madvise"@,
            SystemCall::VirtualAlloc { .. } => "VirtualAlloc"@,
            SystemCall::VirtualFree { .. } => "VirtualFree"@,
            SystemCall::VirtualProtect { .. } => "VirtualProtect"@,
        }
    }

    /// The arguments of the call as text, in their order: addresses in
    /// hexadecimal, all other numbers in base ten.
    pub open spec fn argument_texts(self) -> Seq<Seq<char>> {
        match self {
            SystemCall::Mmap { addr, len, prot, flags, fd, offset } => seq![
                address(addr as nat),
                decimal(len as nat),
                signed_decimal(prot as int),
                signed_decimal(flags as int),
                signed_decimal(fd as int),
                signed_decimal(offset as int),
            ],
            SystemCall::Munmap { addr, len } => seq![address(addr as nat), decimal(len as nat)],
            SystemCall::Mprotect { addr, len, prot } => seq![
                address(addr as nat),
                decimal(len as nat),
                signed_decimal(prot as int),
            ],
            SystemCall::Madvise { addr, len, advice } => seq![
                address(addr as nat),
                decimal(len as nat),
                signed_decimal(advice as int),
            ],
            SystemCall::VirtualAlloc { addr, len, allocation_type, protect } => seq![
                address(addr as nat),
                decimal(len as nat),
                decimal(allocation_type as nat),
                decimal(protect as nat),
            ],
            SystemCall::VirtualFree { addr, len, free_type } => seq![
                address(addr as nat),
                decimal(len as nat),
                decimal(free_type as nat),
            ],
            SystemCall::VirtualProtect { addr, len, protect, old_protect } => seq![
                address(addr as nat),
                decimal(len as nat),
                decimal(protect as nat),
                address(old_protect as nat),
            ],
        }
    }

    /// Tells whether a reply says that the call did its work.
    pub fn has_succeeded(&self, reply: Reply) -> (done: bool)
        ensures
            done == self.succeeded(reply),
    {
        match (*self, reply) {
            (SystemCall::Mmap { .. }, Reply::Address(addr)) => addr != map_failed(),
            (SystemCall::VirtualAlloc { .. }, Reply::Address(addr)) => addr != 0,
            (SystemCall::Munmap { .. }, Reply::Status(status)) => status == 0,
            (SystemCall::Mprotect { .. }, Reply::Status(status)) => status == 0,
            (SystemCall::Madvise { .. }, Reply::Status(status)) => status == 0,
            (SystemCall::VirtualFree { .. }, Reply::Status(status)) => status != 0,
            (SystemCall::VirtualProtect { .. }, Reply::Status(status)) => status != 0,
            _ => false,
        }
    }

    /// The call that a failed one turns into: a mapping call takes over the
    /// address that it returned.
    fn after(self, reply: Reply) -> (call: SystemCall)
        ensures
            call == self.having_returned(reply),
    {
        match (self, reply) {
            (
                SystemCall::Mmap { len, prot, flags, fd, offset, .. },
                Reply::Address(addr),
            ) => SystemCall::Mmap { addr, len, prot, flags, fd, offset },
            (
                SystemCall::VirtualAlloc { len, allocation_type, protect, .. },
                Reply::Address(addr),
            ) => SystemCall::VirtualAlloc { addr, len, allocation_type, protect },
            _ => self,
        }
    }

    fn max_attempts(&self) -> (count: usize)
        ensures
            count == self.attempts(),
    {
        match *self {
            SystemCall::Mmap { .. } => RETRY_COUNT,
            SystemCall::Munmap { .. } => RETRY_COUNT,
            SystemCall::Mprotect { .. } => RETRY_COUNT,
            SystemCall::Madvise { .. } => RETRY_COUNT,
            SystemCall::VirtualAlloc { .. } => 1,
            SystemCall::VirtualFree { .. } => 1,
            SystemCall::VirtualProtect { .. } => 1,
        }
    }

    /// The name of the function that the call invokes.
    pub fn function_name(&self) -> (name: &'static str)
        ensures
            name@ == self.name(),
    {
        match *self {
            SystemCall::Mmap { .. } => "mmap",
            SystemCall::Munmap { .. } => "munmap",
            SystemCall::Mprotect { .. } => "mprotect",
            SystemCall::Madvise { .. } => "madvise",
            SystemCall::VirtualAlloc { .. } => "VirtualAlloc",
            SystemCall::VirtualFree { .. } => "VirtualFree",
            SystemCall::VirtualProtect { .. } => "VirtualProtect",
        }
    }

    /// The arguments of the call as text, in their order.
    pub fn arguments(&self) -> (args: Vec<String>)
        ensures
            texts(args@) == self.argument_texts(),
    {
        let args = match *self {
            SystemCall::Mmap { addr, len, prot, flags, fd, offset } => vec![
                address_text(addr),
                decimal_text(len as u64),
                signed_text(prot as i64),
                signed_text(flags as i64),
                signed_text(fd as i64),
                signed_text(offset),
            ],
            SystemCall::Munmap { addr, len } => vec![address_text(addr), decimal_text(len as u64)],
            SystemCall::Mprotect { addr, len, prot } => vec![
                address_text(addr),
                decimal_text(len as u64),
                signed_text(prot as i64),
            ],
            SystemCall::Madvise { addr, len, advice } => vec![
                address_text(addr),
                decimal_text(len as u64),
                signed_text(advice as i64),
            ],
            SystemCall::VirtualAlloc { addr, len, allocation_type, protect } => vec![
                address_text(addr),
                decimal_text(len as u64),
                decimal_text(allocation_type as u64),
                decimal_text(protect as u64),
            ],
            SystemCall::VirtualFree { addr, len, free_type } => vec![
                address_text(addr),
                decimal_text(len as u64),
                decimal_text(free_type as u64),
            ],
            SystemCall::VirtualProtect { addr, len, protect, old_protect } => vec![
                address_text(addr),
                decimal_text(len as u64),
                decimal_text(protect as u64),
                address_text(old_protect),
            ],
        };
        assert(texts(args@) =~= self.argument_texts());
        args
    }
}

/// A call that failed for good, and the error number that it left.
#[derive(Clone, Copy, Debug, PartialEq, Eq)]
pub struct Failure {
    pub call: SystemCall,
    pub errno: i32,
}

impl Failure {
    /// Whether an error names the call, its arguments and the error number.
    pub open spec fn is_told_by(self, error: EbpfError) -> bool {
        match error {
            EbpfError::LibcInvocationFailed(name, args, errno) => {
                &&& name@ == self.call.name()
                &&& texts(args@) == self.call.argument_texts()
                &&& errno == self.errno
            },
        }
    }

    /// The error that reports the failure.
    pub fn to_error(&self) -> (error: EbpfError)
        ensures
            self.is_told_by(error),
    {
        EbpfError::LibcInvocationFailed(
            self.call.function_name(),
            self.call.arguments(),
            self.errno,
        )
    }
}

/// A system call under the retry guard.
#[derive(Clone, Copy, Debug, PartialEq, Eq)]
pub enum Invocation {
    /// The call is to be made; this and the tries after it are `attempts`.
    Pending { call: SystemCall, attempts: usize },
    /// The call did its work and returned `reply`.
    Succeeded { reply: Reply },
    /// Every try failed.
    Failed { failure: Failure },
}

impl Invocation {
    /// A call that was not tried yet.
    pub open spec fn fresh(call: SystemCall) -> Invocation {
        Invocation::Pending { call, attempts: call.attempts() }
    }

    /// Where the invocation stands once its call returned `reply` and left `errno`.
    pub open spec fn next(self, reply: Reply, errno: i32) -> Invocation {
        match self {
            Invocation::Pending { call, attempts } => if call.succeeded(reply) {
                Invocation::Succeeded { reply }
            } else if attempts <= 1 {
                Invocation::Failed {
                    failure: Failure { call: call.having_returned(reply), errno },
                }
            } else {
                Invocation::Pending {
                    call: call.having_returned(reply),
                    attempts: (attempts - 1) as usize,
                }
            },
            _ => self,
        }
    }

    /// Where the invocation stands after replies and error numbers, in their order.
    pub open spec fn run(self, replies: Seq<(Reply, i32)>) -> Invocation
        decreases replies.len(),
    {
        if replies.len() == 0 {
            self
        } else {
            self.run(replies.drop_last()).next(replies.last().0, replies.last().1)
        }
    }

    /// Puts a call under the guard.
    pub fn new(call: SystemCall) -> (invocation: Invocation)
        ensures
            invocation == Invocation::fresh(call),
    {
        Invocation::Pending { call, attempts: call.max_attempts() }
    }

    /// The call that is to be made next, if any is.
    pub fn pending(&self) -> (call: Option<SystemCall>)
        ensures
            call == (match *self {
                Invocation::Pending { call, .. } => Some(call),
                _ => None,
            }),
    {
        match *self {
            Invocation::Pending { call, .. } => Some(call),
            _ => None,
        }
    }

    /// Takes in what the pending call returned, and the error number after it.
    /// An invocation that has ended stays as it is.
    pub fn resume(self, reply: Reply, errno: i32) -> (invocation: Invocation)
        ensures
            invocation == self.next(reply, errno),
    {
        match self {
            Invocation::Pending { call, attempts } => {
                if call.has_succeeded(reply) {
                    Invocation::Succeeded { reply }
                } else if attempts <= 1 {
                    Invocation::Failed { failure: Failure { call: call.after(reply), errno } }
                } else {
                    Invocation::Pending { call: call.after(reply), attempts: attempts - 1 }
                }
            },
            _ => self,
        }
    }

    /// How the invocation ended, if it did.
    pub fn outcome(&self) -> (result: Option<Result<Reply, EbpfError>>)
        ensures
            match *self {
                Invocation::Pending { .. } => result is None,
                Invocation::Succeeded { reply } => result == Some(
                    Ok::<Reply, EbpfError>(reply),
                ),
                Invocation::Failed { failure } => result matches Some(Err(error))
                    && failure.is_told_by(error),
            },
    {
        match *self {
            Invocation::Pending { .. } => None,
            Invocation::Succeeded { reply } => Some(Ok(reply)),
            Invocation::Failed { failure } => Some(Err(failure.to_error())),
        }
    }
}

} // verus!
