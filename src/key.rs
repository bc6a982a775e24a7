use vstd::prelude::*;

verus! {

/// Length in bytes of a public key or account address.
pub const KEY_LEN: usize = 32;

/// A 32-byte public key or account address.
#[derive(Clone, Copy, Debug)]
pub struct Key {
    pub bytes: [u8; 32],
}

impl View for Key {
    type V = Seq<u8>;

    open spec fn view(&self) -> Seq<u8> {
        self.bytes@
    }
}

impl Key {
    /// The all-zero key, which stands for "no key".
    pub fn zero() -> (r: Key)
        ensures
            r@ == Seq::new(32, |i: int| 0u8),
            r == Key::spec_zero(),
    {
        let r = Key { bytes: [0u8; 32] };
        assert(r@ =~= Seq::new(32, |i: int| 0u8));
        proof {
            Key::lemma_spec_zero();
            assert(r.bytes == Key::spec_zero().bytes);
        }
        r
    }

    pub fn new(bytes: [u8; 32]) -> (r: Key)
        ensures
            r.bytes == bytes,
    {
        Key { bytes }
    }

    /// Byte-wise equality of two keys.
    pub fn same(&self, other: &Key) -> (r: bool)
        ensures
            r == (self@ == other@),
            r == (*self == *other),
    {
        let mut i: usize = 0;
        while i < KEY_LEN
            invariant
                i <= KEY_LEN,
                self@.len() == 32,
                other@.len() == 32,
                forall|j: int| 0 <= j < i ==> self@[j] == other@[j],
            decreases KEY_LEN - i,
        {
            if self.bytes[i] != other.bytes[i] {
                return false;
            }
            i = i + 1;
        }
        assert(self@ =~= other@);
        proof {
            assert(self.bytes == other.bytes);
        }
        true
    }
}

impl PartialEq for Key {
    fn eq(&self, other: &Key) -> (r: bool) {
        self.same(other)
    }
}

impl vstd::std_specs::cmp::PartialEqSpecImpl for Key {
    open spec fn obeys_eq_spec() -> bool {
        true
    }

    open spec fn eq_spec(&self, other: &Key) -> bool {
        self@ == other@
    }
}

impl Eq for Key {
}

} // verus!

verus! {

impl Key {
    pub open spec fn zero_view() -> Seq<u8> {
        Seq::new(32, |i: int| 0u8)
    }

    /// The all-zero key, in specifications.
    pub open spec fn spec_zero() -> Key {
        Key { bytes: vstd::array::spec_array_fill_for_copy_type::<u8, 32>(0u8) }
    }

    pub proof fn lemma_spec_zero()
        ensures
            Key::spec_zero()@ == Key::zero_view(),
    {
        assert(Key::spec_zero()@ =~= Key::zero_view());
    }
}

} // verus!
