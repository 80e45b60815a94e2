//! The logger runtime: stamps each structured payload with the clock and
//! writes it to its stream.
use vstd::prelude::*;
use crate::clock::{Clock, Timestamp};
use crate::frame::frame_size;
use crate::mirror::{rank, ExtraTextLogger, Level};
use crate::store::{LogStore, StorageError};
use crate::stream::{log_of, tag_of, write_error, write_succeeds, LogStream};

verus! {

/// The lowest `k` bytes of `n`, least significant first.
pub open spec fn le_bytes(n: nat, k: nat) -> Seq<u8>
    decreases k,
{
    if k == 0 {
        Seq::empty()
    } else {
        seq![(n % 256) as u8] + le_bytes(n / 256, (k - 1) as nat)
    }
}

/// A structured entry: the timestamp as eight little-endian bytes, then the
/// payload.
pub open spec fn entry_bytes(ts: Timestamp, payload: Seq<u8>) -> Seq<u8> {
    le_bytes(ts.nanos as nat, 8) + payload
}

/// `k` bytes are `k` bytes long.
pub proof fn lemma_le_bytes_len(n: nat, k: nat)
    ensures
        le_bytes(n, k).len() == k,
    decreases k,
{
    if k > 0 {
        lemma_le_bytes_len(n / 256, (k - 1) as nat);
    }
}

/// The size of a structured entry: eight timestamp bytes and the payload.
pub open spec fn entry_len(payload_len: nat) -> nat {
    8 + payload_len
}

/// The bytes of a structured entry.
pub fn serialize_entry(ts: Timestamp, payload: &Vec<u8>) -> (r: Vec<u8>)
    ensures
        r@ == entry_bytes(ts, payload@),
{
    let mut out: Vec<u8> = Vec::new();
    let mut x: u64 = ts.nanos;
    let mut i: usize = 0;
    while i < 8
        invariant
            i <= 8,
            out@ + le_bytes(x as nat, (8 - i) as nat) == le_bytes(ts.nanos as nat, 8),
        decreases 8 - i,
    {
        let ghost before = out@;
        out.push((x % 256) as u8);
        assert(le_bytes(x as nat, (8 - i) as nat) == seq![(x % 256) as u8] + le_bytes(
            (x / 256) as nat,
            (8 - i - 1) as nat,
        ));
        assert(out@ + le_bytes((x / 256) as nat, (8 - i - 1) as nat) =~= before + le_bytes(
            x as nat,
            (8 - i) as nat,
        ));
        x = x / 256;
        i = i + 1;
    }
    assert(le_bytes(x as nat, 0) =~= Seq::<u8>::empty());
    assert(out@ =~= le_bytes(ts.nanos as nat, 8));
    let ghost head = out@;
    let mut j: usize = 0;
    while j < payload.len()
        invariant
            j <= payload@.len(),
            out@ == head + payload@.subrange(0, j as int),
        decreases payload@.len() - j,
    {
        out.push(payload[j]);
        j = j + 1;
        assert(out@ =~= head + payload@.subrange(0, j as int));
    }
    assert(payload@.subrange(0, payload@.len() as int) =~= payload@);
    out
}

/// Whether a mirror, if attached, shows an event of `level`.
pub open spec fn mirror_shows(mirror: Option<ExtraTextLogger>, level: Level) -> bool {
    match mirror {
        Some(m) => rank(level) >= rank(m.min_level()),
        None => false,
    }
}

/// Consumes one structured stream: every payload handed to it is stamped and
/// written. A storage failure stops it for good: every later call reports it.
pub struct LoggerRuntime {
    clock: Clock,
    stream: LogStream,
    mirror: Option<ExtraTextLogger>,
    failure: Option<StorageError>,
}

impl LoggerRuntime {
    pub closed spec fn clock(&self) -> Clock {
        self.clock
    }

    pub closed spec fn stream(&self) -> LogStream {
        self.stream
    }

    pub closed spec fn mirror(&self) -> Option<ExtraTextLogger> {
        self.mirror
    }

    /// The storage failure that stopped this runtime, if any.
    pub closed spec fn failure(&self) -> Option<StorageError> {
        self.failure
    }

    pub closed spec fn wf(&self) -> bool {
        self.stream.wf()
    }

    /// A runtime that owns `stream` and stamps with `clock`, with the text
    /// mirror attached when one is given.
    pub fn init(clock: Clock, stream: LogStream, mirror: Option<ExtraTextLogger>) -> (r: LoggerRuntime)
        requires
            stream.wf(),
        ensures
            r.wf(),
            r.clock() == clock,
            r.stream() == stream,
            r.mirror() == mirror,
            r.failure() is None,
    {
        LoggerRuntime { clock, stream, mirror, failure: None }
    }

    /// Writes `payload` stamped with `ts`. Returns whether the text mirror
    /// should also show the event; the mirror is left to the caller, which
    /// renders it without holding the store.
    pub fn log_at(&mut self, store: &mut LogStore, ts: Timestamp, level: Level, payload: &Vec<u8>) -> (r:
        Result<bool, StorageError>)
        requires
            old(self).wf(),
            old(store).wf(),
        ensures
            final(self).wf(),
            final(store).wf(),
            final(self).clock() == old(self).clock(),
            final(self).mirror() == old(self).mirror(),
            final(self).stream().kind() == old(self).stream().kind(),
            final(self).stream().capacity() == old(self).stream().capacity(),
            final(store).reserved() == old(store).reserved(),
            final(store).limit() == old(store).limit(),
            old(self).failure() is Some ==> r == Err::<bool, StorageError>(old(self).failure()->Some_0)
                && *final(self) == *old(self) && *final(store) == *old(store),
            old(self).failure() is None ==> (r is Ok <==> write_succeeds(
                old(self).stream(),
                *old(store),
                entry_len(payload@.len()),
            )),
            old(self).failure() is None && r is Err ==> r == Err::<bool, StorageError>(
                write_error(entry_len(payload@.len())),
            ),
            old(self).failure() is None ==> final(store).contents().len()
                + final(self).stream().buffered() == old(store).contents().len()
                + old(self).stream().buffered() + if r is Ok {
                frame_size(entry_len(payload@.len()))
            } else {
                0
            },
            r is Ok ==> r == Ok::<bool, StorageError>(mirror_shows(old(self).mirror(), level))
                && final(self).failure() is None && log_of(*final(store), final(self).stream())
                == log_of(*old(store), old(self).stream()).push(
                (tag_of(old(self).stream().kind()), entry_bytes(ts, payload@)),
            ),
            r is Err ==> final(self).failure() == Some(r->Err_0) && log_of(
                *final(store),
                final(self).stream(),
            ) == log_of(*old(store), old(self).stream()),
    {
        if let Some(e) = self.failure {
            return Err(e);
        }
        let entry = serialize_entry(ts, payload);
        proof {
            lemma_le_bytes_len(ts.nanos as nat, 8);
        }
        match self.stream.write(store, &entry) {
            Ok(()) => {
                let shows = match &self.mirror {
                    Some(m) => m.shows(level),
                    None => false,
                };
                Ok(shows)
            },
            Err(e) => {
                self.failure = Some(e);
                Err(e)
            },
        }
    }

    /// Writes `payload` stamped with the clock's current time.
    pub fn log(&mut self, store: &mut LogStore, level: Level, payload: &Vec<u8>) -> (r: Result<
        bool,
        StorageError,
    >)
        requires
            old(self).wf(),
            old(store).wf(),
        ensures
            final(self).wf(),
            final(store).wf(),
            final(self).clock() == old(self).clock(),
            final(self).mirror() == old(self).mirror(),
            final(self).stream().kind() == old(self).stream().kind(),
            final(self).stream().capacity() == old(self).stream().capacity(),
            final(store).reserved() == old(store).reserved(),
            final(store).limit() == old(store).limit(),
            old(self).failure() is Some ==> r == Err::<bool, StorageError>(old(self).failure()->Some_0)
                && *final(self) == *old(self) && *final(store) == *old(store),
            old(self).failure() is None ==> (r is Ok <==> write_succeeds(
                old(self).stream(),
                *old(store),
                entry_len(payload@.len()),
            )),
            old(self).failure() is None && r is Err ==> r == Err::<bool, StorageError>(
                write_error(entry_len(payload@.len())),
            ),
            old(self).failure() is None ==> final(store).contents().len()
                + final(self).stream().buffered() == old(store).contents().len()
                + old(self).stream().buffered() + if r is Ok {
                frame_size(entry_len(payload@.len()))
            } else {
                0
            },
            r is Ok ==> r == Ok::<bool, StorageError>(mirror_shows(old(self).mirror(), level))
                && final(self).failure() is None && exists|ts: Timestamp|
                ts.nanos >= old(self).clock().base() && log_of(*final(store), final(self).stream())
                    == log_of(*old(store), old(self).stream()).push(
                    (tag_of(old(self).stream().kind()), #[trigger] entry_bytes(ts, payload@)),
                ),
            r is Err ==> final(self).failure() == Some(r->Err_0) && log_of(
                *final(store),
                final(self).stream(),
            ) == log_of(*old(store), old(self).stream()),
    {
        let ts = self.clock.now();
        self.log_at(store, ts, level, payload)
    }

    /// Writes everything the stream still buffers; on failure the runtime
    /// stops as for a failed write.
    pub fn flush(&mut self, store: &mut LogStore) -> (r: Result<(), StorageError>)
        requires
            old(self).wf(),
            old(store).wf(),
        ensures
            final(self).wf(),
            final(store).wf(),
            final(self).clock() == old(self).clock(),
            final(self).mirror() == old(self).mirror(),
            final(self).stream().kind() == old(self).stream().kind(),
            final(self).stream().capacity() == old(self).stream().capacity(),
            final(store).reserved() == old(store).reserved(),
            final(store).limit() == old(store).limit(),
            log_of(*final(store), final(self).stream()) == log_of(*old(store), old(self).stream()),
            old(self).failure() is Some ==> r == Err::<(), StorageError>(old(self).failure()->Some_0)
                && *final(self) == *old(self) && *final(store) == *old(store),
            old(self).failure() is None ==> (r is Ok <==> crate::stream::flush_fits(
                old(self).stream(),
                *old(store),
            )),
            r is Ok ==> final(self).stream().pending() == Seq::<Seq<u8>>::empty()
                && final(self).stream().buffered() == 0 && final(self).failure() is None,
            r is Ok ==> final(store).contents().len() == old(store).contents().len()
                + old(self).stream().buffered(),
            r is Err ==> final(self).failure() == Some(r->Err_0),
    {
        if let Some(e) = self.failure {
            return Err(e);
        }
        match self.stream.flush(store) {
            Ok(()) => Ok(()),
            Err(e) => {
                self.failure = Some(e);
                Err(e)
            },
        }
    }

    /// Stops the runtime on a storage failure met outside it, such as the
    /// backing file refusing bytes the store took.
    pub fn record_failure(&mut self, e: StorageError)
        ensures
            final(self).failure() == Some(e),
            final(self).clock() == old(self).clock(),
            final(self).stream() == old(self).stream(),
            final(self).mirror() == old(self).mirror(),
            old(self).wf() ==> final(self).wf(),
    {
        self.failure = Some(e);
    }

    /// The storage failure that stopped this runtime, if any.
    pub fn failure_state(&self) -> (r: Option<StorageError>)
        ensures
            r == self.failure(),
    {
        self.failure
    }

    /// The clock this runtime stamps with.
    pub fn clock_source(&self) -> (r: Clock)
        ensures
            r == self.clock(),
    {
        self.clock
    }

    /// The attached text mirror, if any.
    pub fn text_mirror(&self) -> (r: Option<&ExtraTextLogger>)
        ensures
            r is Some <==> self.mirror() is Some,
            r is Some ==> *r->Some_0 == self.mirror()->Some_0,
    {
        match &self.mirror {
            Some(m) => Some(m),
            None => None,
        }
    }

    /// The stream this runtime writes to.
    pub fn structured_stream(&self) -> (r: &LogStream)
        ensures
            *r == self.stream(),
    {
        &self.stream
    }
}

} // verus!
