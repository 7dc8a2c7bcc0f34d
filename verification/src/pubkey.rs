//! Account identities.
use vstd::prelude::*;
use vstd::std_specs::cmp::PartialEqSpecImpl;

verus! {

/// A 32-byte account identity. The all-zero key marks "no account".
#[derive(Clone, Copy, Debug, Eq)]
pub struct Pubkey {
    pub bytes: [u8; 32],
}

impl PartialEq for Pubkey {
    fn eq(&self, other: &Pubkey) -> (r: bool) {
        let mut i: usize = 0;
        while i < 32
            invariant
                i <= 32,
                forall|j: int| 0 <= j < i ==> self.bytes[j] == other.bytes[j],
            decreases 32 - i,
        {
            if self.bytes[i] != other.bytes[i] {
                return false;
            }
            i = i + 1;
        }
        assert(self.bytes@ =~= other.bytes@);
        assert(self.bytes == other.bytes);
        true
    }
}

impl PartialEqSpecImpl for Pubkey {
    open spec fn obeys_eq_spec() -> bool {
        true
    }

    open spec fn eq_spec(&self, other: &Pubkey) -> bool {
        self.bytes == other.bytes
    }
}

impl Pubkey {
    /// Whether this is the all-zero key.
    pub open spec fn is_default_spec(self) -> bool {
        forall|i: int| 0 <= i < 32 ==> self.bytes[i] == 0
    }

    /// The all-zero key.
    pub open spec fn default_spec() -> Pubkey {
        Pubkey { bytes: vstd::array::spec_array_fill_for_copy_type(0u8) }
    }

    /// The all-zero key is the one key that `is_default_spec` holds of.
    pub proof fn lemma_default_spec(key: Pubkey)
        ensures
            key.is_default_spec() <==> key == Pubkey::default_spec(),
    {
        broadcast use vstd::array::axiom_spec_array_fill_for_copy_type;

        let zero = Pubkey::default_spec();
        assert(zero.is_default_spec());
        if key.is_default_spec() {
            Pubkey::lemma_default_unique(key, zero);
        }
    }

    pub fn new_from_array(bytes: [u8; 32]) -> (r: Pubkey)
        ensures
            r.bytes == bytes,
    {
        Pubkey { bytes }
    }

    pub fn to_bytes(self) -> (r: [u8; 32])
        ensures
            r == self.bytes,
    {
        self.bytes
    }

    pub fn is_default(&self) -> (r: bool)
        ensures
            r == self.is_default_spec(),
    {
        let mut i: usize = 0;
        while i < 32
            invariant
                i <= 32,
                forall|j: int| 0 <= j < i ==> self.bytes[j] == 0,
            decreases 32 - i,
        {
            if self.bytes[i] != 0 {
                return false;
            }
            i = i + 1;
        }
        true
    }

    /// There is only one all-zero key.
    pub proof fn lemma_default_unique(a: Pubkey, b: Pubkey)
        requires
            a.is_default_spec(),
            b.is_default_spec(),
        ensures
            a == b,
    {
        assert(a.bytes@ =~= b.bytes@);
        assert(a.bytes == b.bytes);
    }
}

impl Default for Pubkey {
    fn default() -> (r: Pubkey)
        ensures
            r == Pubkey::default_spec(),
            r.is_default_spec(),
    {
        let r = Pubkey { bytes: [0u8; 32] };
        proof {
            Pubkey::lemma_default_spec(r);
        }
        r
    }
}

} // verus!
