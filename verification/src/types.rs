//! Addresses and argument lists.

use vstd::prelude::*;
use vstd::slice::slice_to_vec;

verus! {

/// The number of bytes in an address.
pub const ADDRESS_LEN: usize = 20;

/// The fixed-width name of a contract or of an outside sender.
pub type Address = [u8; 20];

/// One encoded argument.
pub type Arg = Vec<u8>;

/// The encoded arguments of a call, in order.
pub type Args = Vec<Arg>;

/// The address that stands for "no particular sender": all zero.
pub fn default_address() -> (address: Address)
    ensures
        address@ == Seq::new(ADDRESS_LEN as nat, |i: int| 0u8),
{
    let address: Address = [0u8; 20];
    assert(address@ =~= Seq::new(ADDRESS_LEN as nat, |i: int| 0u8));
    address
}

/// The address that a raw byte string names: its first twenty bytes, with
/// zeros where it has fewer.
pub open spec fn address_of(bytes: Seq<u8>) -> Seq<u8> {
    Seq::new(
        ADDRESS_LEN as nat,
        |i: int|
            if i < bytes.len() {
                bytes[i]
            } else {
                0u8
            },
    )
}

/// Builds the address that `bytes` names.
pub fn decode_address(bytes: &[u8]) -> (address: Address)
    ensures
        address@ == address_of(bytes@),
{
    let mut address: Address = [0u8; 20];
    let mut i: usize = 0;
    while i < ADDRESS_LEN && i < bytes.len()
        invariant
            i <= ADDRESS_LEN,
            i <= bytes@.len(),
            forall|j: int| 0 <= j < i ==> address@[j] == bytes@[j],
            forall|j: int| i <= j < ADDRESS_LEN ==> address@[j] == 0u8,
        decreases ADDRESS_LEN - i,
    {
        address[i] = bytes[i];
        i += 1;
    }
    assert(address@ =~= address_of(bytes@));
    address
}

/// Tells whether two byte strings hold the same bytes.
pub fn bytes_equal(a: &[u8], b: &[u8]) -> (same: bool)
    ensures
        same == (a@ == b@),
{
    if a.len() != b.len() {
        return false;
    }
    let mut i: usize = 0;
    while i < a.len()
        invariant
            i <= a@.len(),
            a@.len() == b@.len(),
            forall|j: int| 0 <= j < i ==> a@[j] == b@[j],
        decreases a@.len() - i,
    {
        if a[i] != b[i] {
            return false;
        }
        i += 1;
    }
    assert(a@ =~= b@);
    true
}

/// Collects the encoded arguments of a call, in the order in which they are
/// pushed.
pub struct ArgsBuilder {
    values: Args,
}

impl View for ArgsBuilder {
    type V = Seq<Seq<u8>>;

    closed spec fn view(&self) -> Seq<Seq<u8>> {
        Seq::new(self.values@.len(), |i: int| self.values@[i]@)
    }
}

/// The contents of an argument list.
pub open spec fn args_view(args: &Args) -> Seq<Seq<u8>> {
    Seq::new(args@.len(), |i: int| args@[i]@)
}

impl ArgsBuilder {
    /// An empty argument list.
    pub fn new() -> (builder: ArgsBuilder)
        ensures
            builder@ == Seq::<Seq<u8>>::empty(),
    {
        ArgsBuilder { values: Vec::new() }
    }

    /// Appends an argument that is already encoded.
    pub fn push(&mut self, arg: Vec<u8>)
        ensures
            final(self)@ == old(self)@.push(arg@),
    {
        self.values.push(arg);
        assert(self@ =~= old(self)@.push(arg@));
    }

    /// Appends a copy of `arg`.
    pub fn push_bytes(&mut self, arg: &[u8])
        ensures
            final(self)@ == old(self)@.push(arg@),
    {
        let copy = slice_to_vec(arg);
        self.values.push(copy);
        assert(self@ =~= old(self)@.push(arg@));
    }

    /// Hands out the arguments, in the order in which they were pushed.
    pub fn convert_to_vec(self) -> (args: Vec<Vec<u8>>)
        ensures
            args_view(&args) == self@,
    {
        self.values
    }
}

impl Default for ArgsBuilder {
    fn default() -> (builder: ArgsBuilder)
        ensures
            builder@ == Seq::<Seq<u8>>::empty(),
    {
        ArgsBuilder::new()
    }
}

} // verus!
