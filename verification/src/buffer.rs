//! The memory of a buffer.
use vstd::arithmetic::div_mod;
use vstd::layout;
use vstd::prelude::*;

verus! {

/// Whether `len` elements can lie at the address: it is aligned for them and not 0, and they end
/// within the address space.
pub open spec fn can_lie_at<T>(address: usize, len: nat) -> bool {
    &&& address != 0
    &&& address as nat % layout::align_of::<T>() == 0
    &&& address + len * layout::size_of::<T>() <= usize::MAX + 1
}

/// What it means that elements can lie at an address, in numbers: some multiple of the alignment,
/// not 0, with room for all of them up to the end of the address space.
pub proof fn law_can_lie_at<T>(address: usize, len: nat)
    requires
        can_lie_at::<T>(address, len),
    ensures
        address != 0,
        address as nat % layout::align_of::<T>() == 0,
        address + len * layout::size_of::<T>() <= usize::MAX + 1,
{
}

/// A transfer that borrows its buffer for `'a`.
pub trait Borrows<'a> {

}

/// A buffer with the address at which it lies. The address of a value can not be changed, and
/// [address_of] is the only function that makes one, so a value of this type is the proof that
/// the address is that of a buffer which is borrowed for `'a`.
pub(crate) struct Placed<'a, T> {
    buffer: &'a [T],
    address: usize,
}

impl<'a, T> Placed<'a, T> {
    /// The elements of the buffer.
    pub(crate) closed spec fn elements(self) -> Seq<T> {
        self.buffer@
    }

    /// Where the buffer lies.
    pub(crate) closed spec fn address(self) -> usize {
        self.address
    }

    /// Where the buffer lies.
    pub(crate) fn get_address(&self) -> (r: usize)
        ensures
            r == self.address(),
    {
        self.address
    }

    /// The bytes of the buffer.
    pub(crate) fn get_size(&self) -> (r: usize)
        ensures
            r == self.elements().len() * layout::size_of::<T>(),
    {
        size_of(self.buffer)
    }
}

/// What is said of a buffer and its address is said of the very values that were taken from it.
proof fn law_placed_as_taken<'a, T>(placed: Placed<'a, T>)
    ensures
        placed.address() == placed.address,
        placed.elements() == placed.buffer@,
{
}

/// A buffer with its address, from the pointer that `as_ptr` of the slice returns. Trusted: the
/// elements can lie there, as the pointer of every slice is aligned and not null, and no slice
/// wraps around the address space. Which of these addresses it is, only the machine decides, and
/// nothing is said of it.
#[verifier::external_body]
pub(crate) fn address_of<'a, T>(buffer: &'a [T]) -> (r: Placed<'a, T>)
    ensures
        can_lie_at::<T>(r.address(), buffer@.len()),
        r.elements() == buffer@,
{
    Placed { buffer, address: buffer.as_ptr() as usize }
}

/// The bytes of a buffer.
pub(crate) fn size_of<T>(buffer: &[T]) -> (r: usize)
    ensures
        r == buffer@.len() * layout::size_of::<T>(),
{
    broadcast use vstd::layout::layout_of_slices;

    core::mem::size_of_val(buffer)
}

/// An address that is aligned for a type is aligned to every width that divides the alignment
/// of the type.
pub(crate) proof fn lemma_aligned<T>(address: int, width: int)
    requires
        width > 0,
        address % layout::align_of::<T>() as int == 0,
        layout::align_of::<T>() as int % width == 0,
    ensures
        address % width == 0,
{
    broadcast use vstd::layout::align_nonzero;

    let align = layout::align_of::<T>() as int;
    let times = align / width;
    div_mod::lemma_fundamental_div_mod(address, align);
    div_mod::lemma_fundamental_div_mod(align, width);
    vstd::arithmetic::mul::lemma_mul_is_associative(width, times, address / align);
    div_mod::lemma_mod_multiples_basic(times * (address / align), width);
    vstd::arithmetic::mul::lemma_mul_is_commutative(width, times * (address / align));
}

} // verus!
