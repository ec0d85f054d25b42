//! The constants of the operating system that page requests are made of.

use vstd::prelude::*;

verus! {

/// What a POSIX system calls its protections, mappings and limits.
#[derive(Clone, Copy, Debug, PartialEq, Eq)]
pub struct UnixHost {
    pub prot_read: i32,
    pub prot_write: i32,
    pub prot_exec: i32,
    pub map_anonymous: i32,
    pub map_private: i32,
    pub madv_dontneed: i32,
    pub sc_pagesize: i32,
    pub enomem: i32,
}

/// What Windows calls its protections and allocation types.
#[derive(Clone, Copy, Debug, PartialEq, Eq)]
pub struct WindowsHost {
    pub mem_commit: u32,
    pub mem_reserve: u32,
    pub mem_reset: u32,
    pub mem_release: u32,
    pub page_readonly: u32,
    pub page_readwrite: u32,
    pub page_execute_read: u32,
    pub not_enough_memory: i32,
    /// Address of the word that receives the protection that a change replaces.
    pub old_protection: usize,
}

/// The operating system that serves the page requests.
#[derive(Clone, Copy, Debug, PartialEq, Eq)]
pub enum Host {
    Unix(UnixHost),
    Windows(WindowsHost),
}

/// `libc::PROT_READ`: one on Linux, Android, the BSDs and Apple systems.
#[verifier::external_body]
fn prot_read() -> (bits: i32)
    ensures
        bits == 1,
{
    libc::PROT_READ
}

/// `libc::PROT_WRITE`: two on Linux, Android, the BSDs and Apple systems.
#[verifier::external_body]
fn prot_write() -> (bits: i32)
    ensures
        bits == 2,
{
    libc::PROT_WRITE
}

/// `libc::PROT_EXEC`: four on Linux, Android, the BSDs and Apple systems.
#[verifier::external_body]
fn prot_exec() -> (bits: i32)
    ensures
        bits == 4,
{
    libc::PROT_EXEC
}

/// `libc::MAP_ANONYMOUS`: `0x800` on Linux for MIPS, `0x20` on Linux for every
/// other processor and on Android, `0x1000` on the BSDs and Apple systems.
/// Which of the three it is follows from the target and is not said.
#[verifier::external_body]
fn map_anonymous() -> (bits: i32)
    ensures
        bits == 0x20 || bits == 0x800 || bits == 0x1000,
{
    libc::MAP_ANONYMOUS
}

/// `libc::MAP_PRIVATE`: two on Linux, Android, the BSDs and Apple systems.
#[verifier::external_body]
fn map_private() -> (bits: i32)
    ensures
        bits == 2,
{
    libc::MAP_PRIVATE
}

/// `libc::MADV_DONTNEED`: four on Linux, Android, the BSDs and Apple systems.
#[verifier::external_body]
fn madv_dontneed() -> (advice: i32)
    ensures
        advice == 4,
{
    libc::MADV_DONTNEED
}

/// `libc::_SC_PAGESIZE`: 30 on Linux, 39 on Android, 29 on Apple systems, 47 on
/// FreeBSD, 28 on NetBSD and OpenBSD.
/// Which of these it is follows from the target and is not said.
#[verifier::external_body]
fn sc_pagesize() -> (name: i32)
    ensures
        name == 28 || name == 29 || name == 30 || name == 39 || name == 47,
{
    libc::_SC_PAGESIZE
}

/// `libc::ENOMEM`: twelve on Linux, Android, the BSDs and Apple systems.
#[verifier::external_body]
fn enomem() -> (errno: i32)
    ensures
        errno == 12,
{
    libc::ENOMEM
}

/// `libc::MAP_FAILED`, as a number: the highest address.
#[verifier::external_body]
pub(crate) fn map_failed() -> (addr: usize)
    ensures
        addr == usize::MAX,
{
    libc::MAP_FAILED as usize
}

impl Host {
    /// The error number by which the host says that it has no memory to give.
    pub open spec fn out_of_memory(self) -> i32 {
        match self {
            Host::Unix(unix) => unix.enomem,
            Host::Windows(windows) => windows.not_enough_memory,
        }
    }
}

impl UnixHost {
    /// The constants of the system that the library is built for.
    pub fn native() -> (host: UnixHost)
        ensures
            host.prot_read == 1,
            host.prot_write == 2,
            host.prot_exec == 4,
            host.map_anonymous == 0x20 || host.map_anonymous == 0x800 || host.map_anonymous
                == 0x1000,
            host.map_private == 2,
            host.madv_dontneed == 4,
            host.sc_pagesize == 28 || host.sc_pagesize == 29 || host.sc_pagesize == 30
                || host.sc_pagesize == 39 || host.sc_pagesize == 47,
            host.enomem == 12,
    {
        UnixHost {
            prot_read: prot_read(),
            prot_write: prot_write(),
            prot_exec: prot_exec(),
            map_anonymous: map_anonymous(),
            map_private: map_private(),
            madv_dontneed: madv_dontneed(),
            sc_pagesize: sc_pagesize(),
            enomem: enomem(),
        }
    }
}

} // verus!
