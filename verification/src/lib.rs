//! Support library of the brotli command-line tool: owned buffers and their
//! allocator, the retry rule for interrupted I/O, the command-line grammar,
//! the plan of a run, the text the tool prints, the set-up of compression,
//! and decompression through `brotli_decompressor`.

pub mod args;
pub mod chars;
pub mod compress;
pub mod decompress;
pub mod heap_alloc;
pub mod io_retry;
pub mod numbers;
pub mod plan;
pub mod rebox;
pub mod text;

pub use args::{
    apply_argument, parse_arguments, ArgAction, ArgError, CommandLine, EncoderSettings,
    ParsedArguments, PriorMode,
};
pub use compress::{compress, CompressionSetup};
pub use decompress::{decompress, finish_decompression, DecompressError, Decompressed};
pub use heap_alloc::HeapAllocator;
pub use io_retry::{retry_decision, IoAttempt, RetryDecision};
pub use numbers::IntErrorKind;
pub use plan::{plan_run, Endpoint, PlanError, RunPlan};
pub use rebox::Rebox;
pub use text::{writeln0, writeln_time};
