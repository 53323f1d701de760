use vstd::prelude::*;

use crate::args::EncoderSettings;
use crate::heap_alloc::HeapAllocator;
use crate::rebox::Rebox;
use crate::text::{window_line, write_window_line};

verus! {

/// What a compression run starts from: its input and output buffers, and
/// the header line of the meta-block log when one is asked for.
pub struct CompressionSetup {
    pub input_buffer: Rebox<u8>,
    pub output_buffer: Rebox<u8>,
    pub log_header: Option<String>,
}

/// Sets up compression with `params`: input and output buffers of
/// `buffer_size` zero bytes each, and, when `params` asks for the log of
/// meta-blocks, the line that opens that log. The encoder that then runs
/// over the two buffers is the brotli crate's.
pub fn compress(buffer_size: usize, params: &EncoderSettings) -> (r: CompressionSetup)
    ensures
        r.input_buffer@ == Seq::new(buffer_size as nat, |i: int| 0u8),
        r.output_buffer@ == Seq::new(buffer_size as nat, |i: int| 0u8),
        match r.log_header {
            Some(line) => params.log_meta_block && line@ == window_line(params.lgwin),
            None => !params.log_meta_block,
        },
{
    let mut alloc_u8 = HeapAllocator::<u8> { default_value: 0 };
    let input_buffer = alloc_u8.alloc_cell(buffer_size);
    let output_buffer = alloc_u8.alloc_cell(buffer_size);
    assert(input_buffer@ =~= Seq::new(buffer_size as nat, |i: int| 0u8));
    assert(output_buffer@ =~= Seq::new(buffer_size as nat, |i: int| 0u8));
    let log_header = if params.log_meta_block {
        let mut line = String::new();
        write_window_line(&mut line, params.lgwin);
        assert(line@ =~= window_line(params.lgwin));
        Some(line)
    } else {
        None
    };
    CompressionSetup { input_buffer, output_buffer, log_header }
}

} // verus!
