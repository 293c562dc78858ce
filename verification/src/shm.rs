//! The header of a shared-memory region holding two ring buffers, one per
//! direction, and the checks made when a process attaches to it.
//!
//! Layout: `[header][net-side ring buffer][host-side ring buffer]`.
use crate::ringbuf::{RingBuffer, HDR_SIZE};
use vstd::prelude::*;

verus! {

/// Size of the region header: six `u32` fields.
pub const SHM_HDR_SIZE: usize = 24;

/// Header of a shared-memory region.
pub struct ShmHdr {
    /// Size of the whole region.
    pub size: u32,
    /// Identifier of the sidecar process.
    pub sidecar_ident: u32,
    /// Process id of the sidecar.
    pub sidecar_pid: u32,
    /// Process id of the host, 0 while no host is attached.
    pub host_pid: u32,
    /// Size of the net-side ring buffer.
    pub netside_size: u32,
    /// Size of the host-side ring buffer.
    pub hostside_size: u32,
}

/// Why a process cannot attach to a region.
#[derive(Clone, Copy, PartialEq, Eq, Structural)]
pub enum OpenError {
    /// The region is not larger than its header.
    TooSmall,
    /// The size recorded in the header differs from the region's.
    SizeMismatch,
    /// A host is already attached.
    InUse,
}

/// Which side of the region a process is.
#[derive(Clone, Copy, PartialEq, Eq, Structural)]
pub enum Side {
    /// The sidecar: sends on the host side, receives on the net side.
    Sidecar,
    /// The host: sends on the net side, receives on the host side.
    Host,
}

/// Sizes of a region for ring buffers with data areas of `netbuf` and
/// `hostbuf` bytes: the two buffers' sizes and the total.
pub fn layout(netbuf: usize, hostbuf: usize) -> (r: (usize, usize, usize))
    requires
        SHM_HDR_SIZE + netbuf + hostbuf + 2 * HDR_SIZE <= usize::MAX,
    ensures
        r.0 == netbuf + HDR_SIZE,
        r.1 == hostbuf + HDR_SIZE,
        r.2 == SHM_HDR_SIZE + r.0 + r.1,
{
    let netsize = RingBuffer::requested_size(netbuf);
    let hostsize = RingBuffer::requested_size(hostbuf);
    (netsize, hostsize, SHM_HDR_SIZE + netsize + hostsize)
}

/// The size of a shared-memory object once it is opened: the size it
/// already has, or, for a new object of size 0, the requested size it is
/// then extended to.
pub fn object_size(current: usize, requested: usize) -> (r: usize)
    ensures
        r == (if current != 0 {
            current
        } else {
            requested
        }),
{
    if current != 0 {
        current
    } else {
        requested
    }
}

impl ShmHdr {
    /// Set the header of a new region created by the sidecar `pid`.
    pub fn init(&mut self, ident: u32, netsize: usize, hostsize: usize, pid: u32)
        requires
            SHM_HDR_SIZE + netsize + hostsize <= u32::MAX,
        ensures
            final(self).size == SHM_HDR_SIZE + netsize + hostsize,
            final(self).sidecar_ident == ident,
            final(self).sidecar_pid == pid,
            final(self).host_pid == 0,
            final(self).netside_size == netsize,
            final(self).hostside_size == hostsize,
    {
        self.size = (SHM_HDR_SIZE + netsize + hostsize) as u32;
        self.sidecar_ident = ident;
        self.sidecar_pid = pid;
        self.host_pid = 0;
        self.netside_size = netsize as u32;
        self.hostside_size = hostsize as u32;
    }

    /// Process `pid` is the sidecar.
    pub fn is_sidecar(&self, pid: u32) -> (r: bool)
        ensures
            r == (self.sidecar_pid == pid),
    {
        self.sidecar_pid == pid
    }

    /// Process `pid` is the host.
    pub fn is_host(&self, pid: u32) -> (r: bool)
        ensures
            r == (self.host_pid == pid),
    {
        self.host_pid == pid
    }

    /// Attach host process `pid` to a region of `len` bytes whose header
    /// this is: returns the sizes of the net-side and host-side buffers.
    pub fn attach_host(&mut self, len: usize, pid: u32) -> (r: Result<(usize, usize), OpenError>)
        ensures
            len <= SHM_HDR_SIZE ==> r == Err::<(usize, usize), OpenError>(OpenError::TooSmall),
            len > SHM_HDR_SIZE && old(self).size != len ==> r == Err::<(usize, usize), OpenError>(
                OpenError::SizeMismatch,
            ),
            len > SHM_HDR_SIZE && old(self).size == len && old(self).host_pid != 0 ==> r == Err::<
                (usize, usize),
                OpenError,
            >(OpenError::InUse),
            r is Ok <==> len > SHM_HDR_SIZE && old(self).size == len && old(self).host_pid == 0,
            r matches Ok(sizes) ==> sizes == (old(self).netside_size as usize, old(self).hostside_size as usize) && final(self).host_pid == pid,
            r is Err ==> final(self).host_pid == old(self).host_pid,
            final(self).size == old(self).size,
            final(self).sidecar_ident == old(self).sidecar_ident,
            final(self).sidecar_pid == old(self).sidecar_pid,
            final(self).netside_size == old(self).netside_size,
            final(self).hostside_size == old(self).hostside_size,
    {
        if len <= SHM_HDR_SIZE {
            return Err(OpenError::TooSmall);
        }
        if self.size as usize != len {
            return Err(OpenError::SizeMismatch);
        }
        if self.host_pid != 0 {
            return Err(OpenError::InUse);
        }
        self.host_pid = pid;
        Ok((self.netside_size as usize, self.hostside_size as usize))
    }

    /// The side of process `pid`, or `None` when it is neither.
    pub fn side(&self, pid: u32) -> (r: Option<Side>)
        ensures
            r == if self.sidecar_pid == pid {
                Some(Side::Sidecar)
            } else if self.host_pid == pid {
                Some(Side::Host)
            } else {
                None::<Side>
            },
    {
        if self.is_sidecar(pid) {
            Some(Side::Sidecar)
        } else if self.is_host(pid) {
            Some(Side::Host)
        } else {
            None
        }
    }
}

} // verus!
