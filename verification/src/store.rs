//! The blockstore capability: a content-addressed byte store.

use crate::address::{bytes_equal, block_address, ContentAddress, IPLD_RAW};
use vstd::prelude::*;

verus! {

/// Why a block could not be stored or loaded.
#[derive(Clone, Copy, Debug, PartialEq, Eq)]
pub enum StorageError {
    /// The byte store could not be reached.
    Unavailable,
    /// The store holds no block under the address.
    Missing,
    /// The block under the address is no layout of the value asked for.
    Corrupt,
}

/// A content-addressed byte store.
///
/// `blocks` is what the store holds: for a store that other parties fill
/// too, everything that it holds now or will hold under an address.
/// Storing never changes a block that is already there under another address.
pub trait Blockstore {
    /// The blocks of the store, by address. An implementation that does
    /// not model its contents leaves them unspecified.
    open spec fn blocks(&self) -> Map<Seq<u8>, Seq<u8>> {
        arbitrary()
    }

    /// What the implementation keeps true of itself.
    open spec fn inv(&self) -> bool {
        true
    }

    /// The block under `address`, or `None` where the store holds none.
    /// Fails with `Unavailable`, and only with that.
    fn get(&self, address: &ContentAddress) -> (r: Result<Option<Vec<u8>>, StorageError>)
        requires
            self.inv(),
        ensures
            match r {
                Ok(Some(data)) => self.blocks().contains_key(address@) && self.blocks()[address@]
                    == data@,
                Ok(None) => !self.blocks().contains_key(address@),
                Err(e) => e == StorageError::Unavailable,
            },
    ;

    /// Stores `data` and returns its content address. On failure, which is
    /// `Unavailable`, the store is as it was.
    fn put(&mut self, data: &[u8]) -> (r: Result<ContentAddress, StorageError>)
        requires
            old(self).inv(),
        ensures
            final(self).inv(),
            match r {
                Ok(address) => address@ == block_address(IPLD_RAW, data@) && final(self).blocks()
                    == old(self).blocks().insert(address@, data@),
                Err(e) => e == StorageError::Unavailable && final(self).blocks() == old(
                    self,
                ).blocks(),
            },
    ;
}

/// `stored` is what the store `before` answers when asked to store `data`.
pub open spec fn put_answered<BS: Blockstore>(
    before: BS,
    data: Seq<u8>,
    stored: Result<ContentAddress, StorageError>,
) -> bool {
    exists|b: &mut BS, bytes: &[u8]|
        *b == before && bytes@ == data && #[trigger] call_ensures(BS::put, (b, bytes), stored)
}

/// Stores `data` and says what the store answered.
pub fn put_block<BS: Blockstore>(bs: &mut BS, data: &[u8]) -> (r: Result<ContentAddress, StorageError>)
    requires
        old(bs).inv(),
    ensures
        final(bs).inv(),
        put_answered(*old(bs), data@, r),
        match r {
            Ok(address) => address@ == block_address(IPLD_RAW, data@) && final(bs).blocks() == old(
                bs,
            ).blocks().insert(address@, data@),
            Err(e) => e == StorageError::Unavailable && final(bs).blocks() == old(bs).blocks(),
        },
{
    bs.put(data)
}

/// `answer` is what the store answers when asked for the block under `address`.
pub open spec fn get_answered<BS: Blockstore>(
    bs: &BS,
    address: Seq<u8>,
    answer: Result<Option<Vec<u8>>, StorageError>,
) -> bool {
    exists|cid: ContentAddress|
        cid@ == address && #[trigger] call_ensures(BS::get, (bs, &cid), answer)
}

/// Asks the store for the block under `address` and says what it answered.
pub fn get_block<BS: Blockstore>(bs: &BS, address: &ContentAddress) -> (r: Result<
    Option<Vec<u8>>,
    StorageError,
>)
    requires
        bs.inv(),
    ensures
        get_answered(bs, address@, r),
        match r {
            Ok(Some(data)) => bs.blocks().contains_key(address@) && bs.blocks()[address@] == data@,
            Ok(None) => !bs.blocks().contains_key(address@),
            Err(e) => e == StorageError::Unavailable,
        },
{
    bs.get(address)
}

/// The map that a sequence of writes leaves: a later write to an address replaces an earlier one.
pub open spec fn written(addresses: Seq<Vec<u8>>, data: Seq<Vec<u8>>) -> Map<Seq<u8>, Seq<u8>>
    recommends
        addresses.len() == data.len(),
    decreases addresses.len(),
{
    if addresses.len() == 0 {
        Map::empty()
    } else {
        written(addresses.drop_last(), data.drop_last()).insert(addresses.last()@, data.last()@)
    }
}

proof fn lemma_written_replace(addresses: Seq<Vec<u8>>, data: Seq<Vec<u8>>, i: int, block: Vec<u8>)
    requires
        addresses.len() == data.len(),
        0 <= i < addresses.len(),
        forall|j: int| i < j < addresses.len() ==> addresses[j]@ != addresses[i]@,
    ensures
        written(addresses, data.update(i, block)) == written(addresses, data).insert(
            addresses[i]@,
            block@,
        ),
    decreases addresses.len(),
{
    let n = addresses.len() - 1;
    if i == n {
        assert(data.update(i, block).drop_last() =~= data.drop_last());
        assert(written(addresses, data.update(i, block)) =~= written(addresses, data).insert(
            addresses[i]@,
            block@,
        ));
    } else {
        lemma_written_replace(addresses.drop_last(), data.drop_last(), i, block);
        assert(data.update(i, block).drop_last() =~= data.drop_last().update(i, block));
        assert(addresses[n]@ != addresses[i]@);
        assert(written(addresses, data.update(i, block)) =~= written(addresses, data).insert(
            addresses[i]@,
            block@,
        ));
    }
}

/// A blockstore in memory.
pub struct MemoryBlockstore {
    addresses: Vec<Vec<u8>>,
    data: Vec<Vec<u8>>,
}

impl MemoryBlockstore {
    /// An empty store.
    pub fn new() -> (r: Self)
        ensures
            r.inv(),
            r.blocks() == Map::<Seq<u8>, Seq<u8>>::empty(),
            r.count() == 0,
    {
        MemoryBlockstore { addresses: Vec::new(), data: Vec::new() }
    }

    /// The number of addresses under which a block is stored.
    pub closed spec fn count(&self) -> nat {
        self.addresses@.len()
    }

    /// The number of addresses under which a block is stored.
    pub fn len(&self) -> (r: usize)
        requires
            self.inv(),
        ensures
            r == self.count(),
    {
        self.addresses.len()
    }

    /// Index of the last write to `address`, if any.
    fn find(&self, address: &[u8]) -> (r: Option<usize>)
        requires
            self.inv(),
        ensures
            match r {
                Some(i) => {
                    &&& i < self.addresses@.len()
                    &&& self.addresses@[i as int]@ == address@
                    &&& forall|j: int| i < j < self.addresses@.len() ==> self.addresses@[j]@ != address@
                    &&& self.blocks().contains_key(address@)
                    &&& self.blocks()[address@] == self.data@[i as int]@
                },
                None => !self.blocks().contains_key(address@),
            },
    {
        let mut i: usize = self.addresses.len();
        assert(self.addresses@.take(i as int) =~= self.addresses@);
        assert(self.data@.take(i as int) =~= self.data@);
        while i > 0
            invariant
                i <= self.addresses@.len(),
                self.addresses@.len() == self.data@.len(),
                forall|j: int| i <= j < self.addresses@.len() ==> self.addresses@[j]@ != address@,
                self.blocks().contains_key(address@) == written(
                    self.addresses@.take(i as int),
                    self.data@.take(i as int),
                ).contains_key(address@),
                self.blocks().contains_key(address@) ==> self.blocks()[address@] == written(
                    self.addresses@.take(i as int),
                    self.data@.take(i as int),
                )[address@],
            decreases i,
        {
            i = i - 1;
            assert(self.addresses@.take(i + 1).drop_last() =~= self.addresses@.take(i as int));
            assert(self.data@.take(i + 1).drop_last() =~= self.data@.take(i as int));
            if bytes_equal(self.addresses[i].as_slice(), address) {
                return Some(i);
            }
        }
        None
    }
}

impl Blockstore for MemoryBlockstore {
    closed spec fn blocks(&self) -> Map<Seq<u8>, Seq<u8>> {
        written(self.addresses@, self.data@)
    }

    closed spec fn inv(&self) -> bool {
        self.addresses@.len() == self.data@.len()
    }

    /// The block under `address`; never fails.
    fn get(&self, address: &ContentAddress) -> (r: Result<Option<Vec<u8>>, StorageError>)
        ensures
            r is Ok,
    {
        match self.find(address.bytes.as_slice()) {
            Some(i) => Ok(Some(self.data[i].clone())),
            None => Ok(None),
        }
    }

    /// Stores `data`; never fails. A block that is stored again under its
    /// address takes no further room.
    fn put(&mut self, data: &[u8]) -> (r: Result<ContentAddress, StorageError>)
        ensures
            r is Ok,
            final(self).count() == if old(self).blocks().contains_key(r->Ok_0@) {
                old(self).count()
            } else {
                old(self).count() + 1
            },
    {
        let address = ContentAddress::of_block(data);
        let block = vstd::slice::slice_to_vec(data);
        match self.find(address.bytes.as_slice()) {
            Some(i) => {
                proof {
                    lemma_written_replace(self.addresses@, self.data@, i as int, block);
                }
                self.data[i] = block;
            },
            None => {
                let ghost before_addresses = self.addresses@;
                let ghost before_data = self.data@;
                self.addresses.push(address.bytes.clone());
                self.data.push(block);
                assert(self.addresses@.drop_last() =~= before_addresses);
                assert(self.data@.drop_last() =~= before_data);
            },
        }
        Ok(address)
    }
}

} // verus!
