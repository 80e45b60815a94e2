//! One-shot bootstrap of the logging substrate.
use vstd::prelude::*;
use crate::clock::Clock;
use crate::mirror::{ConfigError, ExtraTextLogger, Level};
use crate::runtime::LoggerRuntime;
use crate::store::{LogStore, StorageError};
use crate::stream::{LogStream, UnifiedLogType};
use crate::frame::RecordView;

verus! {

/// Bytes reserved in the store when it is created.
pub const PREALLOCATED_SIZE: usize = 100 * 1024;

/// Buffer size of the structured stream.
pub const STRUCTURED_BUFFER_SIZE: usize = 4096;

/// Why the bootstrap failed.
#[derive(Clone, Copy, Debug, PartialEq, Eq, Structural)]
pub enum SetupError {
    Storage(StorageError),
    Config(ConfigError),
}

/// What the bootstrap hands back: the store, to open further streams on, the
/// runtime on the structured stream, and the clock.
pub struct CopperContext {
    pub unified_logger: LogStore,
    pub logger_runtime: LoggerRuntime,
    pub clock: Clock,
}

impl CopperContext {
    pub open spec fn wf(&self) -> bool {
        self.unified_logger.wf() && self.logger_runtime.wf()
    }
}

/// Whether the bootstrap reads the call-site index: only when the text
/// mirror is asked for.
pub fn needs_call_site_index(text_log: bool) -> (r: bool)
    ensures
        r == text_log,
{
    text_log
}

/// Builds the whole context, or nothing. The store is created with
/// `PREALLOCATED_SIZE` bytes reserved out of `storage_limit`; the structured
/// stream gets a `STRUCTURED_BUFFER_SIZE` buffer; the text mirror, showing
/// every severity, is built from `index` (read at `index_location`) only when
/// `text_log` is set, and `index` is not looked at otherwise.
pub fn basic_copper_setup(
    storage_limit: usize,
    text_log: bool,
    index_location: String,
    index: Option<Vec<String>>,
) -> (r: Result<CopperContext, SetupError>)
    ensures
        PREALLOCATED_SIZE > storage_limit <==> r == Err::<CopperContext, SetupError>(
            SetupError::Storage(StorageError::NoSpace),
        ),
        PREALLOCATED_SIZE <= storage_limit && text_log && index is None <==> r == Err::<
            CopperContext,
            SetupError,
        >(SetupError::Config(ConfigError::MissingIndex)),
        r is Ok <==> PREALLOCATED_SIZE <= storage_limit && (!text_log || index is Some),
        r is Ok ==> {
            let c = r->Ok_0;
            &&& c.wf()
            &&& c.unified_logger.reserved() == PREALLOCATED_SIZE
            &&& c.unified_logger.limit() == storage_limit
            &&& c.unified_logger.records() == Seq::<RecordView>::empty()
            &&& c.unified_logger.contents() == Seq::<u8>::empty()
            &&& c.logger_runtime.clock() == c.clock
            &&& c.logger_runtime.failure() is None
            &&& c.logger_runtime.stream().kind() == UnifiedLogType::StructuredLogLine
            &&& c.logger_runtime.stream().capacity() == STRUCTURED_BUFFER_SIZE
            &&& c.logger_runtime.stream().pending() == Seq::<Seq<u8>>::empty()
            &&& c.logger_runtime.stream().buffered() == 0
            &&& (c.logger_runtime.mirror() is Some <==> text_log)
            &&& text_log ==> {
                let m = c.logger_runtime.mirror()->Some_0;
                &&& m.index_location() == index_location@
                &&& m.min_level() == Level::Debug
                &&& m.call_sites() == Seq::new(index->Some_0@.len(), |i: int| index->Some_0@[i]@)
            }
        },
{
    let store = match LogStore::create(PREALLOCATED_SIZE, storage_limit) {
        Ok(s) => s,
        Err(e) => return Err(SetupError::Storage(e)),
    };
    let stream = LogStream::open(UnifiedLogType::StructuredLogLine, STRUCTURED_BUFFER_SIZE);
    let extra = if needs_call_site_index(text_log) {
        match ExtraTextLogger::new(index_location, index, Level::Debug) {
            Ok(m) => Some(m),
            Err(e) => return Err(SetupError::Config(e)),
        }
    } else {
        None
    };
    let clock = Clock::new();
    let logger_runtime = LoggerRuntime::init(clock, stream, extra);
    Ok(CopperContext { unified_logger: store, logger_runtime, clock })
}

} // verus!
