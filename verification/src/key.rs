//! The keys of the caches: short inputs, stored inline.
use vstd::prelude::*;

verus! {

use vstd::std_specs::cmp::PartialEqSpec;

/// Maximum input length that can be cached.
///
/// A bucket has 128 bytes. They hold the hash value, the length of the key, the tag of the
/// bucket, which is a machine word, and the bytes of the key. So the limit is 87 bytes where a
/// word has 8 bytes, and 91 bytes where it has 4.
pub const MAX_INPUT_LEN: usize = 128 - 32 - 1 - (usize::BITS as usize) / 8;

/// The value that the constant `N` has on the machine that the crate is compiled for.
pub open spec fn value_of<const N: usize>() -> nat {
    N as nat
}

/// The value of [`MAX_INPUT_LEN`] on the machine that the crate is compiled for. It is the number
/// of bytes that a [`Key`] has room for.
pub open spec fn max_len() -> nat {
    value_of::<MAX_INPUT_LEN>()
}

/// The value of the constant `N`.
pub(crate) fn get_value<const N: usize>() -> (n: usize)
    ensures
        n == value_of::<N>(),
        n == N,
{
    N
}

/// An input that can be cached.
#[derive(Clone, Copy)]
pub struct Key {
    len: u8,
    data: [u8; MAX_INPUT_LEN],
}

impl View for Key {
    type V = Seq<u8>;

    /// The bytes of the input.
    closed spec fn view(&self) -> Seq<u8> {
        self.data@.subrange(0, self.len as int)
    }
}

impl Key {
    #[verifier::type_invariant]
    spec fn fits(self) -> bool {
        self.len <= max_len()
    }

    /// The bytes of the input.
    pub fn get(&self) -> (bytes: &[u8])
        ensures
            bytes@ == self@,
            bytes@.len() <= max_len(),
    {
        proof {
            use_type_invariant(self);
        }
        vstd::slice::slice_subrange(self.data.as_slice(), 0, self.len as usize)
    }
}

/// Copies an input into a key.
pub fn make_key(input: &[u8]) -> (key: Key)
    requires
        input@.len() <= max_len(),
    ensures
        key@ == input@,
{
    let mut data: [u8; MAX_INPUT_LEN] = [0; MAX_INPUT_LEN];
    let mut i: usize = 0;
    while i < input.len()
        invariant
            input@.len() <= max_len(),
            i <= input@.len(),
            data@.subrange(0, i as int) == input@.subrange(0, i as int),
        decreases input@.len() - i,
    {
        let ghost before = data@;
        data[i] = input[i];
        i += 1;
        assert(data@.subrange(0, i as int) =~= before.subrange(0, i - 1).push(input@[i - 1]));
        assert(input@.subrange(0, i as int) =~= input@.subrange(0, i - 1).push(input@[i - 1]));
    }
    assert(input@.subrange(0, input@.len() as int) =~= input@);
    Key { len: input.len() as u8, data }
}

/// Whether two slices hold the same bytes.
pub(crate) fn same_bytes(a: &[u8], b: &[u8]) -> (same: bool)
    ensures
        same == (a@ == b@),
{
    if a.len() != b.len() {
        return false;
    }
    let mut i: usize = 0;
    while i < a.len()
        invariant
            a@.len() == b@.len(),
            i <= a@.len(),
            forall|j: int| 0 <= j < i ==> a@[j] == b@[j],
        decreases a@.len() - i,
    {
        if a[i] != b[i] {
            return false;
        }
        i += 1;
    }
    assert(a@ =~= b@);
    true
}

impl PartialEq for Key {
    fn eq(&self, other: &Self) -> (same: bool) {
        same_bytes(self.get(), other.get())
    }
}

impl vstd::std_specs::cmp::PartialEqSpecImpl for Key {
    open spec fn obeys_eq_spec() -> bool {
        true
    }

    /// Two keys are equal when their bytes are: what lies behind them is not compared.
    open spec fn eq_spec(&self, other: &Self) -> bool {
        self@ == other@
    }
}

impl Eq for Key {

}

/// The bytes of a slice.
pub open spec fn bytes_of(bytes: &[u8]) -> Seq<u8> {
    bytes@
}

impl std::borrow::Borrow<[u8]> for Key {
    fn borrow(&self) -> (bytes: &[u8])
        ensures
            bytes_of(bytes) == self@,
    {
        self.get()
    }
}

/// Calls `std::hash::Hasher::write`, which writes the bytes into the hasher. What the hasher
/// makes of them is left open.
#[verifier::external_body]
fn write_bytes<H: std::hash::Hasher>(state: &mut H, bytes: &[u8]) {
    state.write(bytes);
}

impl std::hash::Hash for Key {
    fn hash<H: std::hash::Hasher>(&self, state: &mut H) {
        write_bytes(state, self.get());
    }
}

/// A constant has its own value, whichever it is.
pub proof fn law_constant_is_itself<const N: usize>()
    ensures
        value_of::<N>() == N,
{
}

/// The limit is 128 bytes less the hash value, the length and the tag: 87 bytes or 91 bytes.
pub proof fn law_limit()
    ensures
        max_len() == value_of::<MAX_INPUT_LEN>(),
        max_len() == 128 - 32 - 1 - 8 || max_len() == 128 - 32 - 1 - 4,
        MAX_INPUT_LEN as int + 32 + 1 + usize::BITS as int / 8 == 128,
{
}

/// Two keys are equal exactly when they have the same bytes, of which none is left out.
pub proof fn law_keys_are_their_bytes(a: Key, b: Key, bytes: &[u8])
    ensures
        Key::obeys_eq_spec(),
        a.eq_spec(&b) <==> a@.len() == b@.len() && (
        forall|i: int| 0 <= i < a@.len() ==> a@[i] == b@[i]),
        bytes_of(bytes) == bytes@,
{
    if a@.len() == b@.len() && (forall|i: int| 0 <= i < a@.len() ==> a@[i] == b@[i]) {
        assert(a@ =~= b@);
    }
}

} // verus!
