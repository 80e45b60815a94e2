//! The append-only log store that every stream writes into.
use vstd::prelude::*;
use crate::frame::{
    all_fit, encode_all, frame, lemma_all_fit_append, frame_size, lemma_encode_append, lemma_parse_encode, parse,
    RecordView, HEADER_LEN, MAX_PAYLOAD,
};

verus! {

/// Why the store refused a write.
#[derive(Clone, Copy, Debug, PartialEq, Eq, Structural)]
pub enum StorageError {
    /// The backing resource could not be created or opened for writing.
    OpenFailed,
    /// The backing resource could not take the bytes.
    WriteFailed,
    /// The store has no room left for the record.
    NoSpace,
    /// The payload is longer than a frame can describe.
    RecordTooLarge,
}

/// An append-only store of framed records. It reserves its initial size up
/// front and never holds more than its limit.
pub struct LogStore {
    data: Vec<u8>,
    reserved: usize,
    limit: usize,
    records: Ghost<Seq<RecordView>>,
}

/// Whether a payload of `len` bytes can be appended to a store holding
/// `used` of its `limit` bytes.
pub open spec fn append_fits(used: nat, limit: nat, len: nat) -> bool {
    len <= MAX_PAYLOAD && used + frame_size(len) <= limit
}

impl LogStore {
    /// The bytes written so far.
    pub closed spec fn contents(&self) -> Seq<u8> {
        self.data@
    }

    /// The records written so far, in order.
    pub closed spec fn records(&self) -> Seq<RecordView> {
        self.records@
    }

    /// The size reserved when the store was created.
    pub closed spec fn reserved(&self) -> nat {
        self.reserved as nat
    }

    /// The most bytes the store will ever hold.
    pub closed spec fn limit(&self) -> nat {
        self.limit as nat
    }

    pub closed spec fn wf(&self) -> bool {
        &&& self.data@ == encode_all(self.records@)
        &&& all_fit(self.records@)
        &&& self.data@.len() <= self.limit
        &&& self.reserved <= self.limit
    }

    /// Opens an empty store with `preallocated_size` bytes reserved; fails
    /// when the reservation exceeds `limit`.
    pub fn create(preallocated_size: usize, limit: usize) -> (r: Result<LogStore, StorageError>)
        ensures
            match r {
                Ok(s) => {
                    &&& preallocated_size <= limit
                    &&& s.wf()
                    &&& s.records() == Seq::<RecordView>::empty()
                    &&& s.contents() == Seq::<u8>::empty()
                    &&& s.reserved() == preallocated_size
                    &&& s.limit() == limit
                },
                Err(e) => preallocated_size > limit && e == StorageError::NoSpace,
            },
    {
        if preallocated_size > limit {
            return Err(StorageError::NoSpace);
        }
        let data: Vec<u8> = Vec::with_capacity(preallocated_size);
        Ok(LogStore { data, reserved: preallocated_size, limit, records: Ghost(Seq::empty()) })
    }

    /// Number of bytes written so far.
    pub fn len(&self) -> (r: usize)
        requires
            self.wf(),
        ensures
            r == self.contents().len(),
    {
        self.data.len()
    }

    /// Bytes the store can still take.
    pub fn room(&self) -> (r: usize)
        requires
            self.wf(),
        ensures
            r == self.limit() - self.contents().len(),
    {
        self.limit - self.data.len()
    }

    /// The size reserved at creation.
    pub fn reserved_size(&self) -> (r: usize)
        ensures
            r == self.reserved(),
    {
        self.reserved
    }

    /// The bytes written so far.
    pub fn bytes(&self) -> (r: &Vec<u8>)
        ensures
            r@ == self.contents(),
    {
        &self.data
    }

    /// Appends one record as a whole frame, or changes nothing.
    pub fn append(&mut self, tag: u8, payload: &Vec<u8>) -> (r: Result<(), StorageError>)
        requires
            old(self).wf(),
        ensures
            final(self).wf(),
            final(self).reserved() == old(self).reserved(),
            final(self).limit() == old(self).limit(),
            r is Ok <==> append_fits(old(self).contents().len(), old(self).limit(), payload@.len()),
            r is Ok ==> final(self).records() == old(self).records().push((tag, payload@)),
            r is Ok ==> final(self).contents() == old(self).contents() + frame(tag, payload@),
            r is Err ==> *final(self) == *old(self),
            r == Err::<(), StorageError>(StorageError::RecordTooLarge) <==> payload@.len() > MAX_PAYLOAD,
            r == Err::<(), StorageError>(StorageError::NoSpace) <==> payload@.len() <= MAX_PAYLOAD
                && !append_fits(old(self).contents().len(), old(self).limit(), payload@.len()),
    {
        let n: usize = payload.len();
        if n > MAX_PAYLOAD {
            return Err(StorageError::RecordTooLarge);
        }
        let room: usize = self.limit - self.data.len();
        if room < HEADER_LEN || n > room - HEADER_LEN {
            return Err(StorageError::NoSpace);
        }
        let ghost before = self.data@;
        let ghost header = seq![tag] + crate::frame::le32(n as nat);
        self.data.push(tag);
        self.data.push((n % 256) as u8);
        self.data.push(((n / 256) % 256) as u8);
        self.data.push(((n / 65536) % 256) as u8);
        self.data.push(((n / 16777216) % 256) as u8);
        assert(self.data@ =~= before + header);
        let mut i: usize = 0;
        while i < n
            invariant
                i <= n,
                n == payload@.len(),
                self.data@ == before + header + payload@.subrange(0, i as int),
                self.reserved == old(self).reserved,
                self.limit == old(self).limit,
                self.records == old(self).records,
            decreases n - i,
        {
            self.data.push(payload[i]);
            i = i + 1;
            assert(self.data@ =~= before + header + payload@.subrange(0, i as int));
        }
        assert(payload@.subrange(0, n as int) =~= payload@);
        assert(self.data@ =~= before + frame(tag, payload@));
        let ghost one = seq![(tag, payload@)];
        proof {
            lemma_encode_append(self.records@, one);
            assert(encode_all(one.drop_first()) =~= Seq::<u8>::empty());
            assert(encode_all(one) =~= frame(tag, payload@));
            assert(self.records@ + one =~= self.records@.push((tag, payload@)));
        }
        self.records = Ghost(self.records@.push((tag, payload@)));
        proof {
            assert(all_fit(one));
            lemma_all_fit_append(old(self).records@, one);
        }
        Ok(())
    }
}

/// A store never holds part of a record: its bytes read back as exactly the
/// records appended to it, each whole and in the order of appending.
pub proof fn lemma_store_whole_frames(s: &LogStore)
    requires
        s.wf(),
    ensures
        s.contents() == encode_all(s.records()),
        all_fit(s.records()),
        parse(s.contents()) == Some(s.records()),
{
    lemma_parse_encode(s.records());
}

} // verus!
