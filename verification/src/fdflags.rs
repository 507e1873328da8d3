//! Descriptor flags: the bitmask the host's descriptor-flag primitives
//! exchange, and the read-modify-write helpers over it.

use vstd::prelude::*;

use crate::host::{
    ERRNO_SUCCESS, Host, HostV, fdstat_get_post, fdstat_set_post, fdstat_status, valid_fd,
};

verus! {

/// Append mode.
pub const FDFLAG_APPEND: u16 = 0x01;
/// Synchronized data writes.
pub const FDFLAG_DSYNC: u16 = 0x02;
/// Non-blocking mode.
pub const FDFLAG_NONBLOCK: u16 = 0x04;
/// Synchronized reads.
pub const FDFLAG_RSYNC: u16 = 0x08;
/// Fully synchronized writes.
pub const FDFLAG_SYNC: u16 = 0x10;

/// The recognized descriptor flag bits: append, data-sync, non-blocking,
/// read-sync and full-sync.
pub open spec fn is_fdflag_bit(bit: u16) -> bool {
    bit == FDFLAG_APPEND || bit == FDFLAG_DSYNC || bit == FDFLAG_NONBLOCK
        || bit == FDFLAG_RSYNC || bit == FDFLAG_SYNC
}

/// The bitmask with `bit` switched on.
pub open spec fn spec_with_flag(mask: u16, bit: u16) -> u16 {
    mask | bit
}

/// The bitmask with `bit` switched off.
pub open spec fn spec_without_flag(mask: u16, bit: u16) -> u16 {
    mask & !bit
}

/// OR a single flag bit into a bitmask.
pub fn with_flag(mask: u16, bit: u16) -> (r: u16)
    ensures
        r == spec_with_flag(mask, bit),
{
    mask | bit
}

/// AND a single flag bit out of a bitmask.
pub fn without_flag(mask: u16, bit: u16) -> (r: u16)
    ensures
        r == spec_without_flag(mask, bit),
{
    mask & !bit
}

/// Law: switching a recognized flag bit on and then off again restores the
/// original bitmask, provided the bit was not set to begin with.  (When the
/// bit is already set, the pair of operations clears it instead: the
/// round trip is only an identity on masks that did not contain the bit.)
pub proof fn lemma_flag_round_trip(mask: u16, bit: u16)
    requires
        is_fdflag_bit(bit),
        mask & bit == 0,
    ensures
        spec_without_flag(spec_with_flag(mask, bit), bit) == mask,
{
    assert((mask | bit) & !bit == mask) by (bit_vector)
        requires
            mask & bit == 0,
    ;
}

/// Switching a flag bit on never clears any other bit, and switching it off
/// never sets one: both helpers submit full-bitmask round trips that touch
/// only the named bit.
pub proof fn lemma_flag_only_named_bit(mask: u16, bit: u16, other: u16)
    requires
        other & bit == 0,
    ensures
        spec_with_flag(mask, bit) & other == mask & other,
        spec_without_flag(mask, bit) & other == mask & other,
{
    assert((mask | bit) & other == mask & other && (mask & !bit) & other == mask & other)
        by (bit_vector)
        requires
            other & bit == 0,
    ;
}

/// Read a handle's current flag bitmask from the host.
pub fn flags_get(host: &mut Host, fd: u32) -> (r: (u32, u16))
    ensures
        final(host)@ == fdstat_get_post(old(host)@, fd),
        r.0 == fdstat_status(old(host)@, fd),
        r.0 == ERRNO_SUCCESS ==> r.1 == old(host)@.sockets[fd as int].fdflags,
        r.0 != ERRNO_SUCCESS ==> r.1 == 0,
{
    host.fd_fdstat_get(fd)
}

/// Submit a full flag bitmask for a handle to the host.
pub fn flags_set(host: &mut Host, fd: u32, mask: u16) -> (r: u32)
    ensures
        final(host)@ == fdstat_set_post(old(host)@, fd, mask),
        r == fdstat_status(old(host)@, fd),
{
    host.fd_fdstat_set_flags(fd, mask)
}

/// OR a single flag bit into a handle's bitmask: a read-modify-write round
/// trip through the host's descriptor-flag primitives.  Not atomic: two
/// call sites mutating the flags of one handle concurrently must serialize
/// themselves.
pub fn set_fdflag(host: &mut Host, fd: u32, bit: u16) -> (r: u32)
    ensures
        r == fdstat_status(old(host)@, fd),
        r == ERRNO_SUCCESS ==> final(host)@ == fdstat_set_post(
            fdstat_get_post(old(host)@, fd),
            fd,
            spec_with_flag(old(host)@.sockets[fd as int].fdflags, bit),
        ) && final(host)@.sockets[fd as int].fdflags == spec_with_flag(
            old(host)@.sockets[fd as int].fdflags,
            bit,
        ),
        r != ERRNO_SUCCESS ==> final(host)@ == fdstat_get_post(old(host)@, fd),
{
    let (st, mask) = host.fd_fdstat_get(fd);
    if st != ERRNO_SUCCESS {
        return st;
    }
    host.fd_fdstat_set_flags(fd, with_flag(mask, bit))
}

/// AND a single flag bit out of a handle's bitmask: the read-modify-write
/// counterpart of `set_fdflag`.
pub fn unset_fdflag(host: &mut Host, fd: u32, bit: u16) -> (r: u32)
    ensures
        r == fdstat_status(old(host)@, fd),
        r == ERRNO_SUCCESS ==> final(host)@ == fdstat_set_post(
            fdstat_get_post(old(host)@, fd),
            fd,
            spec_without_flag(old(host)@.sockets[fd as int].fdflags, bit),
        ) && final(host)@.sockets[fd as int].fdflags == spec_without_flag(
            old(host)@.sockets[fd as int].fdflags,
            bit,
        ),
        r != ERRNO_SUCCESS ==> final(host)@ == fdstat_get_post(old(host)@, fd),
{
    let (st, mask) = host.fd_fdstat_get(fd);
    if st != ERRNO_SUCCESS {
        return st;
    }
    host.fd_fdstat_set_flags(fd, without_flag(mask, bit))
}

/// Law: through the host's flag storage too, `set_fdflag` followed by
/// `unset_fdflag` with the same recognized flag bit restores the handle's
/// original bitmask, for any bitmask that did not already contain the bit.
pub proof fn lemma_host_flag_round_trip(h: HostV, fd: u32, bit: u16)
    requires
        valid_fd(h, fd),
        is_fdflag_bit(bit),
        h.sockets[fd as int].fdflags & bit == 0,
    ensures
        ({
            let m0 = h.sockets[fd as int].fdflags;
            let h1 = fdstat_set_post(fdstat_get_post(h, fd), fd, spec_with_flag(m0, bit));
            let m1 = h1.sockets[fd as int].fdflags;
            let h2 = fdstat_set_post(fdstat_get_post(h1, fd), fd, spec_without_flag(m1, bit));
            h2.sockets[fd as int].fdflags == m0
        }),
{
    lemma_flag_round_trip(h.sockets[fd as int].fdflags, bit);
}

} // verus!
