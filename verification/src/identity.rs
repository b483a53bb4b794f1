use vstd::prelude::*;

verus! {

/// A fixed-size public identity value. Each car is addressed by one, and a
/// storage slot's owner is one as well. The host hands identities over as
/// 32 raw bytes; equality is byte-for-byte.
#[derive(Clone, Debug, PartialEq, Eq)]
pub struct Identity {
    pub bytes: Vec<u8>,
}

impl View for Identity {
    type V = Seq<u8>;

    open spec fn view(&self) -> Seq<u8> {
        self.bytes@
    }
}

impl Identity {
    /// A well-formed identity holds exactly 32 bytes.
    pub open spec fn wf(self) -> bool {
        self@.len() == 32
    }
}

/// Byte-for-byte identity equality, as the ownership and key checks use it.
pub fn identity_eq(a: &Identity, b: &Identity) -> (r: bool)
    ensures
        r <==> a@ == b@,
{
    if a.bytes.len() != b.bytes.len() {
        return false;
    }
    let n = a.bytes.len();
    let mut k: usize = 0;
    while k < n
        invariant
            n == a@.len(),
            n == b@.len(),
            k <= n,
            forall|j: int| 0 <= j < k ==> a@[j] == b@[j],
        decreases n - k,
    {
        if a.bytes[k] != b.bytes[k] {
            return false;
        }
        k += 1;
    }
    proof {
        assert(a@ =~= b@);
    }
    true
}

} // verus!
