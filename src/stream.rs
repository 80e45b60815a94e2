//! Tagged, buffered write channels over a shared log store.
use vstd::prelude::*;
use crate::frame::{
    all_fit, lemma_all_fit_append, encode_all, lemma_parse_encode, parse, frame_size, lemma_encode_append, lemma_encode_one, RecordView, HEADER_LEN,
    MAX_PAYLOAD,
};
use crate::store::{append_fits, LogStore, StorageError};

verus! {

/// The category of the records that a stream carries.
#[derive(Clone, Copy, Debug, PartialEq, Eq, Structural)]
pub enum UnifiedLogType {
    Empty,
    StructuredLogLine,
    CopperList,
    LastEntry,
}

/// The tag byte written in front of every record of a category.
pub open spec fn tag_of(t: UnifiedLogType) -> u8 {
    match t {
        UnifiedLogType::Empty => 0,
        UnifiedLogType::StructuredLogLine => 1,
        UnifiedLogType::CopperList => 2,
        UnifiedLogType::LastEntry => 3,
    }
}

impl UnifiedLogType {
    /// The tag byte of this category.
    pub fn tag(&self) -> (r: u8)
        ensures
            r == tag_of(*self),
    {
        match self {
            UnifiedLogType::Empty => 0,
            UnifiedLogType::StructuredLogLine => 1,
            UnifiedLogType::CopperList => 2,
            UnifiedLogType::LastEntry => 3,
        }
    }
}

/// Payloads as records of one tag.
pub open spec fn tagged(tag: u8, ps: Seq<Seq<u8>>) -> Seq<RecordView> {
    Seq::new(ps.len(), |i: int| (tag, ps[i]))
}

/// A buffered channel of one category. It holds no storage of its own: its
/// records reach the store given to `write` and `flush`.
pub struct LogStream {
    kind: UnifiedLogType,
    capacity: usize,
    pending: Vec<Vec<u8>>,
    buffered: usize,
}

/// What a stream and its store hold together: the stored records followed by
/// the stream's pending ones.
pub open spec fn log_of(store: LogStore, stream: LogStream) -> Seq<RecordView> {
    store.records() + tagged(tag_of(stream.kind()), stream.pending())
}

/// Whether a record of `len` bytes still fits in the stream's buffer.
pub open spec fn buffer_fits(s: LogStream, len: nat) -> bool {
    s.buffered() + frame_size(len) <= s.capacity()
}

/// Whether a record of `len` bytes is larger than the whole buffer.
pub open spec fn oversized(s: LogStream, len: nat) -> bool {
    frame_size(len) > s.capacity()
}

/// Whether the store has room for everything the stream holds.
pub open spec fn flush_fits(s: LogStream, store: LogStore) -> bool {
    store.contents().len() + s.buffered() <= store.limit()
}

/// The error `write` reports for a record of `len` bytes that it refuses.
pub open spec fn write_error(len: nat) -> StorageError {
    if len > MAX_PAYLOAD {
        StorageError::RecordTooLarge
    } else {
        StorageError::NoSpace
    }
}

/// Whether `write` accepts a record of `len` bytes.
pub open spec fn write_succeeds(s: LogStream, store: LogStore, len: nat) -> bool {
    &&& len <= MAX_PAYLOAD
    &&& buffer_fits(s, len) || (flush_fits(s, store) && (!oversized(s, len) || append_fits(
        store.contents().len() + s.buffered(),
        store.limit(),
        len,
    )))
}

/// What `write` does to a stream and its store: `s0` and `st0` before,
/// `s1` and `st1` after, `r` the result.
pub open spec fn wrote(
    s0: LogStream,
    st0: LogStore,
    rec: Seq<u8>,
    s1: LogStream,
    st1: LogStore,
    r: Result<(), StorageError>,
) -> bool {
    &&& s1.wf()
    &&& st1.wf()
    &&& s1.kind() == s0.kind()
    &&& s1.capacity() == s0.capacity()
    &&& st1.reserved() == st0.reserved()
    &&& st1.limit() == st0.limit()
    &&& st1.contents().len() + s1.buffered() == st0.contents().len() + s0.buffered() + if r is Ok {
        frame_size(rec.len())
    } else {
        0
    }
    &&& r is Ok ==> log_of(st1, s1) == log_of(st0, s0).push((tag_of(s0.kind()), rec))
    &&& r is Err ==> log_of(st1, s1) == log_of(st0, s0)
    &&& r is Ok <==> write_succeeds(s0, st0, rec.len())
    &&& r is Err ==> r == Err::<(), StorageError>(write_error(rec.len()))
    &&& r == Err::<(), StorageError>(StorageError::RecordTooLarge) ==> s1 == s0 && st1 == st0
    &&& rec.len() <= MAX_PAYLOAD && buffer_fits(s0, rec.len()) ==> {
        &&& st1 == st0
        &&& s1.pending() == s0.pending().push(rec)
    }
    &&& rec.len() <= MAX_PAYLOAD && !buffer_fits(s0, rec.len()) && !flush_fits(s0, st0) ==> {
        &&& s1 == s0
        &&& st1 == st0
    }
    &&& rec.len() <= MAX_PAYLOAD && !buffer_fits(s0, rec.len()) && flush_fits(s0, st0) && !oversized(
        s0,
        rec.len(),
    ) ==> {
        &&& st1.records() == st0.records() + tagged(tag_of(s0.kind()), s0.pending())
        &&& s1.pending() == seq![rec]
    }
    &&& rec.len() <= MAX_PAYLOAD && !buffer_fits(s0, rec.len()) && flush_fits(s0, st0) && oversized(
        s0,
        rec.len(),
    ) ==> {
        &&& s1.pending() == Seq::<Seq<u8>>::empty()
        &&& r is Ok ==> st1.records() == st0.records() + tagged(tag_of(s0.kind()), s0.pending()).push(
            (tag_of(s0.kind()), rec),
        )
        &&& r is Err ==> st1.records() == st0.records() + tagged(tag_of(s0.kind()), s0.pending())
    }
}

impl LogStream {
    pub closed spec fn kind(&self) -> UnifiedLogType {
        self.kind
    }

    pub closed spec fn capacity(&self) -> nat {
        self.capacity as nat
    }

    /// The records accepted but not yet in the store, oldest first.
    pub closed spec fn pending(&self) -> Seq<Seq<u8>> {
        Seq::new(self.pending@.len(), |i: int| self.pending@[i]@)
    }

    /// The framed size of the pending records.
    pub closed spec fn buffered(&self) -> nat {
        self.buffered as nat
    }

    pub closed spec fn wf(&self) -> bool {
        &&& self.buffered as nat == encode_all(tagged(tag_of(self.kind), self.pending())).len()
        &&& self.buffered <= self.capacity
        &&& all_fit(tagged(tag_of(self.kind), self.pending()))
    }

    /// The category of this stream.
    pub fn log_type(&self) -> (r: UnifiedLogType)
        ensures
            r == self.kind(),
    {
        self.kind
    }

    /// The framed size of the pending records.
    pub fn buffered_len(&self) -> (r: usize)
        ensures
            r == self.buffered(),
    {
        self.buffered
    }

    /// A stream of category `kind` that buffers up to `capacity` framed
    /// bytes before it writes to the store.
    pub fn open(kind: UnifiedLogType, capacity: usize) -> (r: LogStream)
        ensures
            r.wf(),
            r.kind() == kind,
            r.capacity() == capacity,
            r.pending() == Seq::<Seq<u8>>::empty(),
            r.buffered() == 0,
    {
        let r = LogStream { kind, capacity, pending: Vec::new(), buffered: 0 };
        assert(r.pending() =~= Seq::<Seq<u8>>::empty());
        assert(tagged(tag_of(kind), r.pending()) =~= Seq::<RecordView>::empty());
        r
    }

    /// Accepts one record. When it does not fit in the buffer, the buffer is
    /// first written to the store; a record larger than the whole buffer then
    /// goes to the store at once, whole.
    pub fn write(&mut self, store: &mut LogStore, record: &Vec<u8>) -> (r: Result<(), StorageError>)
        requires
            old(self).wf(),
            old(store).wf(),
        ensures
            wrote(*old(self), *old(store), record@, *final(self), *final(store), r),
    {
        let n: usize = record.len();
        if n > MAX_PAYLOAD {
            return Err(StorageError::RecordTooLarge);
        }
        let tag = self.kind.tag();
        let free: usize = self.capacity - self.buffered;
        if free >= HEADER_LEN && n <= free - HEADER_LEN {
            self.push_pending(record);
            assert(tagged(tag, self.pending()) =~= tagged(tag, old(self).pending()).push(
                (tag, record@),
            ));
            assert(log_of(*store, *self) =~= log_of(*old(store), *old(self)).push((tag, record@)));
            return Ok(());
        }
        let flushed = self.flush(store);
        if flushed.is_err() {
            return flushed;
        }
        if self.capacity < HEADER_LEN || n > self.capacity - HEADER_LEN {
            let ghost mid = *store;
            let r = store.append(tag, record);
            assert(tagged(tag, self.pending()) =~= Seq::<RecordView>::empty());
            assert(log_of(mid, *self) =~= mid.records());
            assert(log_of(*store, *self) =~= store.records());
            assert(mid.records().push((tag, record@)) =~= old(store).records() + tagged(
                tag,
                old(self).pending(),
            ).push((tag, record@)));
            r
        } else {
            self.push_pending(record);
            assert(self.pending() =~= seq![record@]);
            assert(tagged(tag, self.pending()) =~= seq![(tag, record@)]);
            assert(log_of(*store, *self) =~= log_of(*old(store), *old(self)).push((tag, record@)));
            Ok(())
        }
    }

    /// Adds a record that fits to the buffer.
    fn push_pending(&mut self, record: &Vec<u8>)
        requires
            old(self).wf(),
            record@.len() <= MAX_PAYLOAD,
            old(self).buffered() + frame_size(record@.len()) <= old(self).capacity(),
        ensures
            final(self).wf(),
            final(self).kind() == old(self).kind(),
            final(self).capacity() == old(self).capacity(),
            final(self).pending() == old(self).pending().push(record@),
            final(self).buffered() == old(self).buffered() + frame_size(record@.len()),
    {
        let tag = Ghost(tag_of(self.kind));
        let ghost before = self.pending();
        self.pending.push(record.clone());
        self.buffered = self.buffered + HEADER_LEN + record.len();
        assert(self.pending() =~= before.push(record@));
        proof {
            let one = seq![(tag@, record@)];
            assert(tagged(tag@, before.push(record@)) =~= tagged(tag@, before) + one);
            lemma_encode_append(tagged(tag@, before), one);
            lemma_encode_one((tag@, record@));
            assert(all_fit(one));
            lemma_all_fit_append(tagged(tag@, before), one);
        }
    }

    /// Empties the buffer into the store, all of it or nothing.
    pub fn flush(&mut self, store: &mut LogStore) -> (r: Result<(), StorageError>)
        requires
            old(self).wf(),
            old(store).wf(),
        ensures
            final(self).wf(),
            final(store).wf(),
            final(self).kind() == old(self).kind(),
            final(self).capacity() == old(self).capacity(),
            final(store).reserved() == old(store).reserved(),
            final(store).limit() == old(store).limit(),
            log_of(*final(store), *final(self)) == log_of(*old(store), *old(self)),
            r is Ok <==> flush_fits(*old(self), *old(store)),
            r is Ok ==> final(self).pending() == Seq::<Seq<u8>>::empty() && final(self).buffered() == 0,
            r is Ok ==> final(store).records() == old(store).records() + tagged(
                tag_of(old(self).kind()),
                old(self).pending(),
            ),
            r is Ok ==> final(store).contents().len() == old(store).contents().len() + old(
                self,
            ).buffered(),
            r is Err ==> r == Err::<(), StorageError>(StorageError::NoSpace) && *final(self) == *old(
                self,
            ) && *final(store) == *old(store),
    {
        let room = store.room();
        if room < self.buffered {
            return Err(StorageError::NoSpace);
        }
        let tag = self.kind.tag();
        let ghost recs = tagged(tag, self.pending());
        let ghost start = *store;
        let mut i: usize = 0;
        assert(recs.skip(0) =~= recs);
        assert(recs.take(0) =~= Seq::<RecordView>::empty());
        assert(start.records() + recs.take(0) =~= start.records());
        assert(encode_all(Seq::<RecordView>::empty()) =~= Seq::<u8>::empty());
        while i < self.pending.len()
            invariant
                self.wf(),
                *self == *old(self),
                recs == tagged(tag, self.pending()),
                tag == tag_of(self.kind),
                i <= recs.len(),
                recs.len() == self.pending@.len(),
                store.wf(),
                store.reserved() == start.reserved(),
                store.limit() == start.limit(),
                store.records() == start.records() + recs.take(i as int),
                store.contents().len() == start.contents().len() + encode_all(recs.take(i as int)).len(),
                store.contents().len() + encode_all(recs.skip(i as int)).len() <= store.limit(),
            decreases self.pending@.len() - i,
        {
            let ghost rest = recs.skip(i as int);
            assert(rest.drop_first() =~= recs.skip(i + 1));
            assert(rest[0] == recs[i as int]);
            assert(recs[i as int] == (tag, self.pending@[i as int]@));
            assert(recs[i as int].1.len() <= MAX_PAYLOAD);
            let r = store.append(tag, &self.pending[i]);
            proof {
                assert(recs.take(i + 1) =~= recs.take(i as int).push(recs[i as int]));
                lemma_encode_append(recs.take(i as int), seq![recs[i as int]]);
                lemma_encode_one(recs[i as int]);
                assert(recs.take(i as int) + seq![recs[i as int]] =~= recs.take(i + 1));
            }
            i = i + 1;
        }
        assert(recs.take(i as int) =~= recs);
        self.pending = Vec::new();
        self.buffered = 0;
        assert(self.pending() =~= Seq::<Seq<u8>>::empty());
        assert(tagged(tag, self.pending()) =~= Seq::<RecordView>::empty());
        assert(encode_all(Seq::<RecordView>::empty()) =~= Seq::<u8>::empty());
        assert(store.records() + tagged(tag, self.pending()) =~= store.records());
        Ok(())
    }
}

/// Records written through a stream read back in the order they were
/// written: the store's bytes followed by the stream's buffered frames hold
/// exactly the store's records and then the stream's pending ones.
pub proof fn lemma_read_back_in_order(store: LogStore, stream: LogStream)
    requires
        store.wf(),
        stream.wf(),
    ensures
        parse(store.contents() + encode_all(tagged(tag_of(stream.kind()), stream.pending())))
            == Some(log_of(store, stream)),
{
    let a = store.records();
    let b = tagged(tag_of(stream.kind()), stream.pending());
    crate::store::lemma_store_whole_frames(&store);
    lemma_encode_append(a, b);
    lemma_all_fit_append(a, b);
    lemma_parse_encode(a + b);
}

/// Records that a stream accepts one after another stay in the order of
/// submission: after any run of accepted writes, the stream and its store hold
/// what they held before followed by exactly those records, under the
/// stream's tag. `streams[i]` and `stores[i]` are the states before the
/// `i`-th write.
pub proof fn lemma_writes_keep_order(
    streams: Seq<LogStream>,
    stores: Seq<LogStore>,
    recs: Seq<Seq<u8>>,
)
    requires
        streams.len() == recs.len() + 1,
        stores.len() == recs.len() + 1,
        forall|i: int|
            0 <= i < recs.len() ==> #[trigger] wrote(
                streams[i],
                stores[i],
                recs[i],
                streams[i + 1],
                stores[i + 1],
                Ok(()),
            ),
    ensures
        streams.last().kind() == streams[0].kind(),
        log_of(stores.last(), streams.last()) == log_of(stores[0], streams[0]) + tagged(
            tag_of(streams[0].kind()),
            recs,
        ),
    decreases recs.len(),
{
    let n = recs.len();
    if n == 0 {
        assert(tagged(tag_of(streams[0].kind()), recs) =~= Seq::<RecordView>::empty());
        assert(log_of(stores[0], streams[0]) + Seq::<RecordView>::empty() =~= log_of(
            stores[0],
            streams[0],
        ));
    } else {
        let ps = streams.take(n as int);
        let ss = stores.take(n as int);
        let rs = recs.take(n - 1);
        assert forall|i: int| 0 <= i < rs.len() implies #[trigger] wrote(
            ps[i],
            ss[i],
            rs[i],
            ps[i + 1],
            ss[i + 1],
            Ok(()),
        ) by {
            assert(wrote(streams[i], stores[i], recs[i], streams[i + 1], stores[i + 1], Ok(())));
        }
        lemma_writes_keep_order(ps, ss, rs);
        assert(wrote(streams[n - 1], stores[n - 1], recs[n - 1], streams[n as int], stores[n as int], Ok(())));
        let t = tag_of(streams[0].kind());
        assert(tagged(t, recs) =~= tagged(t, rs).push((t, recs[n - 1])));
        assert(log_of(stores[0], streams[0]) + tagged(t, rs).push((t, recs[n - 1])) =~= (log_of(
            stores[0],
            streams[0],
        ) + tagged(t, rs)).push((t, recs[n - 1])));
    }
}

} // verus!
