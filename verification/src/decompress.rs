use vstd::prelude::*;

use crate::heap_alloc::HeapAllocator;
use crate::rebox::Rebox;

verus! {

/// What `brotli_decompressor::BrotliDecompressCustomIoCustomDict` writes
/// when it reads `input` through input and output buffers holding
/// `input_buffer` and `output_buffer`, with allocators filling new memory
/// with `u8_fill` and `u32_fill` and with the custom dictionary
/// `dictionary`: the bytes written, and whether it finished without error.
pub uninterp spec fn brotli_decoded(
    input: Seq<u8>,
    input_buffer: Seq<u8>,
    output_buffer: Seq<u8>,
    u8_fill: u8,
    u32_fill: u32,
    dictionary: Seq<u8>,
) -> (Seq<u8>, bool);

/// The header of a stored (uncompressed) meta-block of `len` bytes, from 1
/// to 65536, that is not the stream's last meta-block, as RFC 7932 lays it
/// out bit by bit from the least significant: ISLAST = 0, MNIBBLES = 4,
/// MLEN - 1 in 16 bits, ISUNCOMPRESSED = 1, then zero bits up to the byte
/// boundary. The first header is preceded by the stream's one-bit window
/// field `0` (a window of 2^16 bytes).
pub open spec fn stored_header(len: nat, first: bool) -> Seq<u8> {
    let m = (len - 1) as nat;
    if first {
        seq![((m % 16) * 16) as u8, ((m / 16) % 256) as u8, (m / 4096 + 16) as u8]
    } else {
        seq![((m % 32) * 8) as u8, ((m / 32) % 256) as u8, (m / 8192 + 8) as u8]
    }
}

/// The stored meta-blocks that hold `payloads`, one block each, in order.
pub open spec fn stored_blocks(payloads: Seq<Seq<u8>>) -> Seq<u8>
    decreases payloads.len(),
{
    if payloads.len() == 0 {
        Seq::empty()
    } else {
        stored_blocks(payloads.drop_last()) + stored_header(
            payloads.last().len(),
            payloads.len() == 1,
        ) + payloads.last()
    }
}

/// A brotli stream made of stored meta-blocks that hold `payloads`, ended
/// by an empty last meta-block (ISLAST = 1, ISLASTEMPTY = 1); with no
/// payload, the window field and that empty last meta-block alone.
pub open spec fn stored_stream(payloads: Seq<Seq<u8>>) -> Seq<u8> {
    if payloads.len() == 0 {
        seq![0x06u8]
    } else {
        stored_blocks(payloads) + seq![0x03u8]
    }
}

/// Each payload fits one stored meta-block with a four-nibble length.
pub open spec fn storable(payloads: Seq<Seq<u8>>) -> bool {
    forall|i: int| 0 <= i < payloads.len() ==> 1 <= #[trigger] payloads[i].len() <= 65536
}

/// Calls `brotli_decompressor::BrotliDecompressCustomIoCustomDict` on
/// `input`, writing into a vector, with `brotli_decompressor`'s own
/// `IoReaderWrapper` and `IoWriterWrapper` (which retry interrupted calls as
/// the tool's wrappers do) and this crate's allocators. The call asserts
/// that both buffers are non-empty, and it stores the dictionary's length as
/// an `i32`, so a dictionary of more than `i32::MAX` bytes makes it overflow
/// or read out of bounds. The contract also claims what the format
/// defines for a stream of stored meta-blocks (decode.rs copies their bytes
/// to the output unchanged): with allocators that fill with zeros, the call
/// succeeds and writes the blocks' payloads, in order. The contract claims that the
/// bytes written and whether the call returned `Ok` are a function of the
/// arguments (named `brotli_decoded`), and that the buffers keep their
/// lengths; their contents afterwards are left unsaid. Reading a slice and
/// writing a vector never fail, so the only error the call can return here
/// is the "Unexpected EOF" constant passed to it, which it returns for a
/// truncated or corrupt stream.
#[verifier::external_body]
fn decompress_custom_io_custom_dict(
    input: &[u8],
    input_buffer: &mut [u8],
    output_buffer: &mut [u8],
    alloc_u8: HeapAllocator<u8>,
    alloc_u32: HeapAllocator<u32>,
    custom_dictionary: Rebox<u8>,
) -> (r: (Vec<u8>, bool))
    requires
        old(input_buffer)@.len() > 0,
        old(output_buffer)@.len() > 0,
        custom_dictionary@.len() <= i32::MAX,
    ensures
        final(input_buffer)@.len() == old(input_buffer)@.len(),
        final(output_buffer)@.len() == old(output_buffer)@.len(),
        (r.0@, r.1) == brotli_decoded(
            input@,
            old(input_buffer)@,
            old(output_buffer)@,
            alloc_u8.default_value,
            alloc_u32.default_value,
            custom_dictionary@,
        ),
        alloc_u8.default_value == 0 && alloc_u32.default_value == 0 ==> forall|
            payloads: Seq<Seq<u8>>,
        |
            storable(payloads) && input@ == #[trigger] stored_stream(payloads) ==> r.0@
                == payloads.flatten() && r.1,
{
    let mut reader: &[u8] = input;
    let mut written: Vec<u8> = Vec::new();
    let result = brotli_decompressor::BrotliDecompressCustomIoCustomDict(
        &mut brotli_decompressor::IoReaderWrapper(&mut reader),
        &mut brotli_decompressor::IoWriterWrapper(&mut written),
        input_buffer,
        output_buffer,
        alloc_u8,
        alloc_u32,
        HeapAllocator { default_value: brotli_decompressor::HuffmanCode::default() },
        custom_dictionary,
        std::io::Error::new(std::io::ErrorKind::UnexpectedEof, "Unexpected EOF"),
    );
    (written, result.is_ok())
}

/// Why a stream could not be decompressed.
#[derive(PartialEq, Eq, Structural, Debug, Clone, Copy)]
pub enum DecompressError {
    /// The stream ended early or is not a valid brotli stream.
    UnexpectedEof,
}

impl DecompressError {
    /// The text of the error.
    pub fn message(&self) -> (s: &'static str)
        ensures
            s@ == "Unexpected EOF"@,
    {
        "Unexpected EOF"
    }
}

/// The bytes a decompression wrote, and how it ended. When it fails, the
/// bytes are those written before the failure.
pub struct Decompressed {
    pub output: Vec<u8>,
    pub status: Result<(), DecompressError>,
}

/// What a decompression hands back, given the bytes it wrote and whether
/// it finished: a failure is always the "Unexpected EOF" error.
pub fn finish_decompression(written: Vec<u8>, finished: bool) -> (r: Decompressed)
    ensures
        r.output@ == written@,
        r.status == if finished {
            Ok::<(), DecompressError>(())
        } else {
            Err(DecompressError::UnexpectedEof)
        },
{
    Decompressed {
        output: written,
        status: if finished {
            Ok(())
        } else {
            Err(DecompressError::UnexpectedEof)
        },
    }
}

/// `n` zero bytes.
pub open spec fn zeros(n: nat) -> Seq<u8> {
    Seq::new(n, |i: int| 0u8)
}

/// Decompresses `input` with the custom dictionary `custom_dictionary`,
/// through input and output buffers of `buffer_size` zero bytes and
/// allocators that fill new memory with zeros. The decoder needs non-empty
/// buffers and a dictionary of at most `i32::MAX` bytes.
/// A stream of stored meta-blocks decodes to their payloads, joined in
/// order, whatever the buffer size and the dictionary.
pub fn decompress(input: &[u8], buffer_size: usize, custom_dictionary: Rebox<u8>) -> (r:
    Decompressed)
    requires
        buffer_size > 0,
        custom_dictionary@.len() <= i32::MAX,
    ensures
        ({
            let (written, finished) = brotli_decoded(
                input@,
                zeros(buffer_size as nat),
                zeros(buffer_size as nat),
                0,
                0,
                custom_dictionary@,
            );
            &&& r.output@ == written
            &&& r.status == if finished {
                Ok::<(), DecompressError>(())
            } else {
                Err(DecompressError::UnexpectedEof)
            }
        }),
        forall|payloads: Seq<Seq<u8>>|
            storable(payloads) && input@ == #[trigger] stored_stream(payloads) ==> r.output@
                == payloads.flatten() && r.status == Ok::<(), DecompressError>(()),
{
    let mut alloc_u8 = HeapAllocator::<u8> { default_value: 0 };
    let mut input_buffer = alloc_u8.alloc_cell(buffer_size);
    let mut output_buffer = alloc_u8.alloc_cell(buffer_size);
    assert(input_buffer@ =~= zeros(buffer_size as nat));
    assert(output_buffer@ =~= zeros(buffer_size as nat));
    let (written, finished) = decompress_custom_io_custom_dict(
        input,
        input_buffer.slice_mut(),
        output_buffer.slice_mut(),
        alloc_u8,
        HeapAllocator::<u32> { default_value: 0 },
        custom_dictionary,
    );
    finish_decompression(written, finished)
}

} // verus!
