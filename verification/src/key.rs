//! Account addresses.
use vstd::prelude::*;
use vstd::std_specs::cmp::PartialEqSpec;

verus! {

/// The address of an account: 32 bytes.
#[derive(Clone, Copy, Debug, Eq)]
pub struct Pubkey {
    pub bytes: [u8; 32],
}

impl View for Pubkey {
    type V = Seq<u8>;

    open spec fn view(&self) -> Seq<u8> {
        self.bytes@
    }
}

impl PartialEq for Pubkey {
    fn eq(&self, other: &Self) -> (r: bool) {
        let mut i: usize = 0;
        while i < 32
            invariant
                i <= 32,
                forall|j: int| 0 <= j < i ==> self.bytes[j] == other.bytes[j],
            decreases 32 - i,
        {
            if self.bytes[i] != other.bytes[i] {
                return false;
            }
            i += 1;
        }
        assert(self.bytes =~= other.bytes);
        true
    }
}

impl vstd::std_specs::cmp::PartialEqSpecImpl for Pubkey {
    open spec fn obeys_eq_spec() -> bool {
        true
    }

    open spec fn eq_spec(&self, other: &Self) -> bool {
        *self == *other
    }
}

/// The zero address. An account that was never written holds it wherever it
/// has an address.
pub open spec fn zero_key() -> Pubkey {
    Pubkey { bytes: vstd::array::spec_array_fill_for_copy_type::<u8, 32>(0) }
}

impl Default for Pubkey {
    /// Returns the zero address.
    fn default() -> (r: Self)
        ensures
            r == zero_key(),
            forall|i: int| 0 <= i < 32 ==> r.bytes[i] == 0,
    {
        Pubkey { bytes: [0u8; 32] }
    }
}

/// Two addresses with the same bytes are the same address.
pub proof fn lemma_key_is_its_bytes(a: Pubkey, b: Pubkey)
    requires
        a@ == b@,
    ensures
        a == b,
{
    assert forall|i: int| 0 <= i < 32 implies a.bytes[i] == b.bytes[i] by {
        assert(a@[i] == b@[i]);
    }
    assert(a.bytes =~= b.bytes);
}

/// The zero address is all zeros, and the only address that is.
pub proof fn law_zero_key_is_all_zeros(k: Pubkey)
    ensures
        k == zero_key() <==> forall|i: int| 0 <= i < 32 ==> #[trigger] k.bytes[i] == 0,
{
    if forall|i: int| 0 <= i < 32 ==> #[trigger] k.bytes[i] == 0 {
        assert(k.bytes =~= zero_key().bytes);
    }
}

/// Addresses compare equal just where all of their bytes do.
pub proof fn law_keys_compare_by_their_bytes(a: Pubkey, b: Pubkey)
    ensures
        a.eq_spec(&b) <==> forall|i: int| 0 <= i < 32 ==> #[trigger] a.bytes[i] == b.bytes[i],
        a@.len() == 32,
        forall|i: int| 0 <= i < 32 ==> #[trigger] a@[i] == a.bytes[i],
{
    if forall|i: int| 0 <= i < 32 ==> #[trigger] a.bytes[i] == b.bytes[i] {
        assert(a.bytes =~= b.bytes);
    }
}

} // verus!
