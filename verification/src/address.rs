//! Account addresses and content addresses.

use vstd::prelude::*;

verus! {

/// Identifies one account of the host.
pub type ActorID = u64;

/// The codec under which every block of a ledger is stored: raw bytes,
/// whose layout is the ledger's own.
pub const IPLD_RAW: u64 = 0x55;

/// The binary form of the content identifier of a block: a version-1 CID
/// with the given codec over the BLAKE2b-256 multihash of the data.
pub uninterp spec fn block_address(codec: u64, data: Seq<u8>) -> Seq<u8>;

/// Calls `fvm_ipld_blockstore::Block::cid` with `Code::Blake2b256` on a
/// block made of `codec` and `data`, and `Cid::to_bytes` on the identifier.
/// The contract claims only that the bytes returned are a function of the
/// codec and the data.
#[verifier::external_body]
fn identify_block(codec: u64, data: &[u8]) -> (r: Vec<u8>)
    ensures
        r@ == block_address(codec, data@),
{
    fvm_ipld_blockstore::Block::new(codec, data).cid(
        multihash_codetable::Code::Blake2b256,
    ).to_bytes()
}

/// Whether two byte strings are equal.
pub fn bytes_equal(a: &[u8], b: &[u8]) -> (r: bool)
    ensures
        r == (a@ == b@),
{
    if a.len() != b.len() {
        return false;
    }
    let mut i: usize = 0;
    while i < a.len()
        invariant
            i <= a.len(),
            a.len() == b.len(),
            forall|j: int| 0 <= j < i ==> a@[j] == b@[j],
        decreases a.len() - i,
    {
        if a[i] != b[i] {
            return false;
        }
        i = i + 1;
    }
    assert(a@ =~= b@);
    true
}

/// The content address of a block: the bytes of its content identifier.
#[derive(Debug)]
pub struct ContentAddress {
    pub bytes: Vec<u8>,
}

impl View for ContentAddress {
    type V = Seq<u8>;

    open spec fn view(&self) -> Seq<u8> {
        self.bytes@
    }
}

impl ContentAddress {
    /// The address under which a ledger block with this content is stored.
    pub fn of_block(data: &[u8]) -> (r: Self)
        ensures
            r@ == block_address(IPLD_RAW, data@),
    {
        ContentAddress { bytes: identify_block(IPLD_RAW, data) }
    }

    /// An address from the bytes of a content identifier.
    pub fn from_bytes(bytes: Vec<u8>) -> (r: Self)
        ensures
            r@ == bytes@,
    {
        ContentAddress { bytes }
    }

    /// Whether both addresses name the same content.
    pub fn same(&self, other: &ContentAddress) -> (r: bool)
        ensures
            r == (self@ == other@),
    {
        bytes_equal(self.bytes.as_slice(), other.bytes.as_slice())
    }

    /// An independent copy of the address.
    pub fn duplicate(&self) -> (r: Self)
        ensures
            r@ == self@,
    {
        ContentAddress { bytes: self.bytes.clone() }
    }
}

/// The address of an account, in one of the forms that the host knows.
#[derive(Debug)]
pub enum Address {
    /// The id that the host assigned to the account.
    Id(ActorID),
    /// The hash of a secp256k1 public key.
    Secp256k1(Vec<u8>),
    /// The hash that an actor was created under.
    Actor(Vec<u8>),
    /// A BLS public key.
    Bls(Vec<u8>),
}

/// The model of an address.
pub ghost enum AddressView {
    Id(ActorID),
    Secp256k1(Seq<u8>),
    Actor(Seq<u8>),
    Bls(Seq<u8>),
}

impl View for Address {
    type V = AddressView;

    open spec fn view(&self) -> AddressView {
        match self {
            Address::Id(id) => AddressView::Id(*id),
            Address::Secp256k1(b) => AddressView::Secp256k1(b@),
            Address::Actor(b) => AddressView::Actor(b@),
            Address::Bls(b) => AddressView::Bls(b@),
        }
    }
}

impl Address {
    /// The address of the account with the given id.
    pub fn new_id(id: ActorID) -> (r: Self)
        ensures
            r == Address::Id(id),
    {
        Address::Id(id)
    }

    /// The id, where the address is in id form.
    pub fn id(&self) -> (r: Option<ActorID>)
        ensures
            r == (match self@ {
                AddressView::Id(id) => Some(id),
                _ => None::<ActorID>,
            }),
    {
        match self {
            Address::Id(id) => Some(*id),
            _ => None,
        }
    }

    /// An independent copy of the address.
    pub fn duplicate(&self) -> (r: Self)
        ensures
            r@ == self@,
    {
        match self {
            Address::Id(id) => Address::Id(*id),
            Address::Secp256k1(b) => Address::Secp256k1(b.clone()),
            Address::Actor(b) => Address::Actor(b.clone()),
            Address::Bls(b) => Address::Bls(b.clone()),
        }
    }
}

} // verus!
