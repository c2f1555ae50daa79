//! Access to the memory of the guest.
//!
//! The guest runs while the device reads and writes its memory, so what a read returns is not
//! known beforehand. What is known is which addresses are backed by memory, what each read gave
//! back, and what was written where: [`GuestView`] records these.
use vm_memory::{Bytes, GuestAddress, GuestMemoryError, GuestMemoryMmap};
use vstd::prelude::*;

verus! {

/// The memory of a guest, `vm_memory::GuestMemoryMmap`.
#[verifier::external_type_specification]
#[verifier::external_body]
#[verifier::reject_recursive_types(B)]
pub struct ExGuestMemoryMmap<B>(vm_memory::GuestMemoryMmap<B>);

/// Why an access failed, `vm_memory::GuestMemoryError`.
#[verifier::external_type_specification]
#[verifier::external_body]
pub struct ExGuestMemoryError(vm_memory::GuestMemoryError);

/// The addresses that lie in some region of the memory.
pub uninterp spec fn guest_mapped(mem: GuestMemoryMmap) -> Set<u64>;

/// The reads that were answered through this handle, oldest first: each with its address and
/// the bytes that it gave back.
pub uninterp spec fn guest_reads(mem: GuestMemoryMmap) -> Seq<(u64, Seq<u8>)>;

/// The writes that were made through this handle, oldest first: each with its address and the
/// bytes that were stored from there on.
pub uninterp spec fn guest_writes(mem: GuestMemoryMmap) -> Seq<(u64, Seq<u8>)>;

/// How many of the `len` bytes from `addr` on are mapped before the first that is not.
pub open spec fn mapped_len(mapped: Set<u64>, addr: int, len: nat) -> nat
    decreases len,
{
    if len == 0 || !(0 <= addr <= u64::MAX) || !mapped.contains(addr as u64) {
        0
    } else {
        1 + mapped_len(mapped, addr + 1, (len - 1) as nat)
    }
}

/// Does an access to the `len` bytes from `addr` on succeed as a whole? The first address has to
/// be mapped even where `len` is zero.
pub open spec fn fits(mapped: Set<u64>, addr: u64, len: nat) -> bool {
    mapped.contains(addr) && mapped_len(mapped, addr as int, len) == len
}

/// The writes recorded after an attempt to write `bytes` at `addr`: the mapped part of a range
/// that reaches past a region is stored all the same.
pub open spec fn written(
    writes: Seq<(u64, Seq<u8>)>,
    mapped: Set<u64>,
    addr: u64,
    bytes: Seq<u8>,
) -> Seq<(u64, Seq<u8>)> {
    if mapped.contains(addr) {
        writes.push((addr, bytes.take(mapped_len(mapped, addr as int, bytes.len()) as int)))
    } else {
        writes
    }
}

/// What is known of the memory of a guest.
#[verifier::ext_equal]
pub struct GuestView {
    /// The mapped addresses.
    pub mapped: Set<u64>,
    /// The reads so far.
    pub reads: Seq<(u64, Seq<u8>)>,
    /// The writes so far.
    pub writes: Seq<(u64, Seq<u8>)>,
}

/// What is known of `mem`.
pub open spec fn guest(mem: GuestMemoryMmap) -> GuestView {
    GuestView {
        mapped: guest_mapped(mem),
        reads: guest_reads(mem),
        writes: guest_writes(mem),
    }
}

/// The length of the mapped part of a range is at most the length of the range.
pub proof fn lemma_mapped_len_bound(mapped: Set<u64>, addr: int, len: nat)
    ensures
        mapped_len(mapped, addr, len) <= len,
    decreases len,
{
    if len > 0 {
        lemma_mapped_len_bound(mapped, addr + 1, (len - 1) as nat);
    }
}

/// Is every byte of the range mapped?
pub open spec fn all_mapped(mapped: Set<u64>, addr: int, len: nat) -> bool {
    &&& 0 <= addr
    &&& addr + len <= u64::MAX + 1
    &&& forall|a: u64| addr <= a < addr + len ==> #[trigger] mapped.contains(a)
}

/// An access succeeds as a whole exactly where its first address and every byte of its range are
/// mapped.
pub proof fn law_fits_where_every_byte_is_mapped(mapped: Set<u64>, addr: u64, len: nat)
    ensures
        fits(mapped, addr, len) <==> mapped.contains(addr) && all_mapped(mapped, addr as int, len),
{
    if len > 0 {
        lemma_mapped_to_the_end(mapped, addr as int, len);
    }
}

/// A range is mapped up to its end exactly where every byte of it is.
proof fn lemma_mapped_to_the_end(mapped: Set<u64>, addr: int, len: nat)
    requires
        len > 0,
    ensures
        mapped_len(mapped, addr, len) == len <==> all_mapped(mapped, addr, len),
    decreases len,
{
    if len > 1 {
        lemma_mapped_to_the_end(mapped, addr + 1, (len - 1) as nat);
    }
    lemma_mapped_len_bound(mapped, addr + 1, (len - 1) as nat);
    if all_mapped(mapped, addr, len) {
        assert(mapped.contains(addr as u64));
    }
    if mapped_len(mapped, addr, len) == len {
        assert forall|a: u64| addr <= a < addr + len implies #[trigger] mapped.contains(a) by {
            if a == addr {
                assert(a == addr as u64);
            }
        }
    }
}

/// Calls `vm_memory::Bytes::read_slice`, as `read_obj` does with the bytes of an object. It fills
/// the buffer, and succeeds, if and only if the range is mapped from its first byte to its last.
/// The length of the buffer, the mapping and the memory stay as they are. Which bytes are read is
/// up to the guest, and so is not said.
#[verifier::external_body]
fn read_slice(mem: &mut GuestMemoryMmap, buf: &mut Vec<u8>, addr: u64) -> (res: Result<
    (),
    GuestMemoryError,
>)
    ensures
        final(buf)@.len() == old(buf)@.len(),
        guest_mapped(*final(mem)) == guest_mapped(*old(mem)),
        guest_writes(*final(mem)) == guest_writes(*old(mem)),
        res is Ok <==> fits(guest_mapped(*old(mem)), addr, old(buf)@.len()),
        guest_reads(*final(mem)) == match res {
            Ok(_) => guest_reads(*old(mem)).push((addr, final(buf)@)),
            Err(_) => guest_reads(*old(mem)),
        },
{
    mem.read_slice(buf, GuestAddress(addr))
}

/// Calls `vm_memory::Bytes::read`. It succeeds if and only if the first address is mapped, reads
/// into the front of the buffer up to the first address that is not, and says how many bytes that
/// is. The rest of the buffer, the mapping and the memory stay as they are. Which bytes are read
/// is up to the guest, and so is not said.
#[verifier::external_body]
fn read(mem: &mut GuestMemoryMmap, buf: &mut Vec<u8>, addr: u64) -> (res: Result<
    usize,
    GuestMemoryError,
>)
    ensures
        final(buf)@.len() == old(buf)@.len(),
        guest_mapped(*final(mem)) == guest_mapped(*old(mem)),
        guest_writes(*final(mem)) == guest_writes(*old(mem)),
        res is Ok <==> guest_mapped(*old(mem)).contains(addr),
        match res {
            Ok(count) => {
                &&& count == mapped_len(guest_mapped(*old(mem)), addr as int, old(buf)@.len())
                &&& final(buf)@.skip(count as int) == old(buf)@.skip(count as int)
                &&& guest_reads(*final(mem)) == guest_reads(*old(mem)).push(
                    (addr, final(buf)@.take(count as int)),
                )
            },
            Err(_) => guest_reads(*final(mem)) == guest_reads(*old(mem)),
        },
{
    mem.read(buf, GuestAddress(addr))
}

/// Reads the `len` bytes at `addr`, which have to be mapped from the first to the last.
pub(crate) fn read_exact(mem: &mut GuestMemoryMmap, addr: u64, len: usize) -> (res: Result<
    Vec<u8>,
    GuestMemoryError,
>)
    ensures
        guest(*final(mem)).mapped == guest(*old(mem)).mapped,
        guest(*final(mem)).writes == guest(*old(mem)).writes,
        res is Ok <==> fits(guest(*old(mem)).mapped, addr, len as nat),
        match res {
            Ok(bytes) => {
                &&& bytes@.len() == len
                &&& guest(*final(mem)).reads == guest(*old(mem)).reads.push((addr, bytes@))
            },
            Err(_) => guest(*final(mem)).reads == guest(*old(mem)).reads,
        },
{
    let mut buf: Vec<u8> = vec![0u8; len];
    match read_slice(mem, &mut buf, addr) {
        Ok(_) => Ok(buf),
        Err(error) => Err(error),
    }
}

/// Reads as many of the `len` bytes at `addr` as are mapped before the first that is not. The
/// first one has to be.
pub(crate) fn read_mapped(mem: &mut GuestMemoryMmap, addr: u64, len: usize) -> (res: Result<
    Vec<u8>,
    GuestMemoryError,
>)
    ensures
        guest(*final(mem)).mapped == guest(*old(mem)).mapped,
        guest(*final(mem)).writes == guest(*old(mem)).writes,
        res is Ok <==> guest(*old(mem)).mapped.contains(addr),
        match res {
            Ok(bytes) => {
                &&& bytes@.len() == mapped_len(guest(*old(mem)).mapped, addr as int, len as nat)
                &&& guest(*final(mem)).reads == guest(*old(mem)).reads.push((addr, bytes@))
            },
            Err(_) => guest(*final(mem)).reads == guest(*old(mem)).reads,
        },
{
    let mut buf: Vec<u8> = vec![0u8; len];
    match read(mem, &mut buf, addr) {
        Ok(count) => {
            proof {
                lemma_mapped_len_bound(guest(*mem).mapped, addr as int, len as nat);
            }
            let ghost whole = buf@;
            buf.truncate(count);
            assert(buf@ =~= whole.take(count as int));
            Ok(buf)
        },
        Err(error) => Err(error),
    }
}

/// Calls `vm_memory::Bytes::write_slice`, as `write_obj` does with the bytes of an object. It
/// succeeds if and only if the range is mapped from its first byte to its last. Where only the
/// beginning of the range is mapped, the bytes are stored up to the first address that is not.
#[verifier::external_body]
pub(crate) fn write_slice(mem: &mut GuestMemoryMmap, addr: u64, bytes: &[u8]) -> (res: Result<
    (),
    GuestMemoryError,
>)
    ensures
        guest_mapped(*final(mem)) == guest_mapped(*old(mem)),
        guest_reads(*final(mem)) == guest_reads(*old(mem)),
        res is Ok <==> fits(guest_mapped(*old(mem)), addr, bytes@.len()),
        guest_writes(*final(mem)) == written(
            guest_writes(*old(mem)),
            guest_mapped(*old(mem)),
            addr,
            bytes@,
        ),
{
    mem.write_slice(bytes, GuestAddress(addr))
}

} // verus!
