//! 20-byte account and contract addresses.

use vstd::prelude::*;

verus! {

/// An Ethereum address, its 20 bytes in order.
#[derive(Clone, Copy, Debug)]
pub struct Address {
    pub bytes: [u8; 20],
}

impl View for Address {
    type V = Seq<u8>;

    open spec fn view(&self) -> Seq<u8> {
        self.bytes@
    }
}

impl Address {
    /// The bytes of the all-zero address.
    pub open spec fn zero_spec() -> Seq<u8> {
        Seq::new(20, |i: int| 0u8)
    }

    /// The all-zero address.
    pub fn zero() -> (r: Address)
        ensures
            r@ == Address::zero_spec(),
    {
        let r = Address { bytes: [0u8; 20] };
        assert(r@ =~= Address::zero_spec());
        r
    }

    /// Whether two addresses are the same.
    pub fn same(&self, other: &Address) -> (r: bool)
        ensures
            r == (self@ == other@),
    {
        let mut i: usize = 0;
        while i < 20
            invariant
                i <= 20,
                self@.len() == 20,
                other@.len() == 20,
                forall|j: int| 0 <= j < i ==> self@[j] == other@[j],
            decreases 20 - i,
        {
            if self.bytes[i] != other.bytes[i] {
                return false;
            }
            i = i + 1;
        }
        assert(self@ =~= other@);
        true
    }
}

/// The addresses of `list`, as byte sequences.
pub open spec fn address_views(list: Seq<Address>) -> Seq<Seq<u8>> {
    list.map_values(|a: Address| a@)
}

/// Whether `a` occurs in `list`.
pub fn contains_address(list: &Vec<Address>, a: &Address) -> (r: bool)
    ensures
        r == address_views(list@).contains(a@),
{
    let ghost views = address_views(list@);
    let mut i: usize = 0;
    while i < list.len()
        invariant
            i <= list.len(),
            views == address_views(list@),
            forall|j: int| 0 <= j < i ==> views[j] != a@,
        decreases list.len() - i,
    {
        if list[i].same(a) {
            assert(views[i as int] == a@);
            return true;
        }
        i = i + 1;
    }
    false
}

} // verus!
