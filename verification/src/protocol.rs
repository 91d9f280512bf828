//! The wire format of the kitty graphics protocol: a payload in base64 is
//! cut into chunks, and each chunk travels in a frame of its own.
//!
//! A frame is `ESC _ G`, the header fields (first frame only), `m=1;` or
//! `m=0;`, the chunk, and `ESC \`. `m=1` says that more frames follow.

use crate::bytes::{decimal, push_decimal, push_str};
use vstd::prelude::*;
use vstd::string::*;

verus! {

/// How many payload bytes one frame carries at most.
pub const CHUNK_SIZE: usize = 4096;

/// One piece of the payload together with its continuation flag.
pub struct TransmissionChunk {
    pub data: Seq<u8>,
    pub more: bool,
}

/// The chunks of `payload`, in order: each but the last holds `size` bytes
/// and announces more; the last holds what is left and ends the run. An
/// empty payload has no chunks.
pub open spec fn chunks(payload: Seq<u8>, size: nat) -> Seq<TransmissionChunk>
    decreases payload.len(),
{
    if size == 0 || payload.len() == 0 {
        Seq::empty()
    } else if payload.len() <= size {
        seq![TransmissionChunk { data: payload, more: false }]
    } else {
        seq![TransmissionChunk { data: payload.take(size as int), more: true }] + chunks(
            payload.skip(size as int),
            size,
        )
    }
}

/// The frame that carries `chunk`. Only the first frame of a transmission
/// carries the header fields.
pub open spec fn frame(header: Seq<u8>, chunk: TransmissionChunk, first: bool) -> Seq<u8> {
    "\x1b_G".spec_bytes() + (if first {
        header
    } else {
        Seq::empty()
    }) + (if chunk.more {
        "m=1;".spec_bytes()
    } else {
        "m=0;".spec_bytes()
    }) + chunk.data + "\x1b\\".spec_bytes()
}

/// The frames of `cs` one after the other; `first` says whether `cs[0]`
/// opens the transmission.
pub open spec fn frames(header: Seq<u8>, cs: Seq<TransmissionChunk>, first: bool) -> Seq<u8>
    decreases cs.len(),
{
    if cs.len() == 0 {
        Seq::empty()
    } else {
        frame(header, cs[0], first) + frames(header, cs.skip(1), false)
    }
}

/// Everything that goes on the wire for `payload`: its frames and a final
/// newline, so that what the shell prints next starts on a fresh line.
pub open spec fn transmission(header: Seq<u8>, payload: Seq<u8>) -> Seq<u8> {
    frames(header, chunks(payload, CHUNK_SIZE as nat), true) + "\n".spec_bytes()
}

/// The header fields for a payload that is a PNG file.
pub open spec fn png_header() -> Seq<u8> {
    "a=T,f=100,".spec_bytes()
}

/// The header fields for a payload of RGBA samples, `width` by `height`
/// pixels. The field `o=z` says that the samples travel compressed with
/// zlib; over samples that travel as they are it is left out.
pub open spec fn rgba_header(width: nat, height: nat, compressed: bool) -> Seq<u8> {
    "a=T,f=32,s=".spec_bytes() + decimal(width) + ",v=".spec_bytes() + decimal(height) + (
    if compressed {
        ",o=z,".spec_bytes()
    } else {
        ",".spec_bytes()
    })
}

/// The command that removes the pictures on display.
pub open spec fn clear_sequence() -> Seq<u8> {
    "\x1b_Ga=d\x1b\\".spec_bytes()
}

/// The payloads of `cs` one after the other.
pub open spec fn joined(cs: Seq<TransmissionChunk>) -> Seq<u8>
    decreases cs.len(),
{
    if cs.len() == 0 {
        Seq::empty()
    } else {
        cs[0].data + joined(cs.skip(1))
    }
}

/// `n / d` rounded up.
pub open spec fn div_ceil(n: nat, d: nat) -> nat {
    ((n + d - 1) / (d as int)) as nat
}

/// A payload of length L goes out in ceil(L / size) chunks.
pub proof fn lemma_chunk_count(payload: Seq<u8>, size: nat)
    requires
        size > 0,
    ensures
        chunks(payload, size).len() == div_ceil(payload.len(), size),
    decreases payload.len(),
{
    let len = payload.len();
    if len == 0 {
        assert((size - 1) / (size as int) == 0) by (nonlinear_arith)
            requires
                size > 0,
        ;
    } else if len <= size {
        assert((len + size - 1) / (size as int) == 1) by (nonlinear_arith)
            requires
                0 < len <= size,
        ;
    } else {
        lemma_chunk_count(payload.skip(size as int), size);
        assert((len + size - 1) / (size as int) == (len - size + size - 1) / (size as int) + 1)
            by (nonlinear_arith)
            requires
                size > 0,
                len > size,
        ;
    }
}

/// Every chunk holds at least one byte and at most `size`.
pub proof fn lemma_chunk_sizes(payload: Seq<u8>, size: nat, i: int)
    requires
        size > 0,
        0 <= i < chunks(payload, size).len(),
    ensures
        1 <= chunks(payload, size)[i].data.len() <= size,
    decreases payload.len(),
{
    if payload.len() > size && i > 0 {
        lemma_chunk_sizes(payload.skip(size as int), size, i - 1);
    }
}

/// The continuation flag is set on every chunk but the last.
pub proof fn lemma_only_last_chunk_ends(payload: Seq<u8>, size: nat, i: int)
    requires
        size > 0,
        0 <= i < chunks(payload, size).len(),
    ensures
        chunks(payload, size)[i].more <==> i + 1 < chunks(payload, size).len(),
    decreases payload.len(),
{
    if payload.len() > size {
        let rest = payload.skip(size as int);
        if i > 0 {
            lemma_only_last_chunk_ends(rest, size, i - 1);
        } else {
            assert(chunks(rest, size).len() > 0);
        }
    }
}

/// The chunks, put together in the order they are sent, give the payload
/// back.
pub proof fn lemma_chunks_rejoin(payload: Seq<u8>, size: nat)
    requires
        size > 0,
    ensures
        joined(chunks(payload, size)) == payload,
    decreases payload.len(),
{
    let cs = chunks(payload, size);
    if payload.len() == 0 {
        assert(payload =~= Seq::empty());
    } else if payload.len() <= size {
        assert(cs.skip(1) =~= Seq::empty());
        assert(joined(cs.skip(1)) =~= Seq::empty());
        assert(payload + Seq::<u8>::empty() =~= payload);
    } else {
        let rest = payload.skip(size as int);
        lemma_chunks_rejoin(rest, size);
        assert(cs.skip(1) =~= chunks(rest, size));
        assert(payload.take(size as int) + rest =~= payload);
    }
}

/// The marks of the wire format, byte by byte: `ESC _ G` opens a frame,
/// `m=1;` and `m=0;` carry the continuation flag, `ESC \` closes the frame,
/// and a line feed ends the transmission.
pub proof fn lemma_frame_marks()
    ensures
        "\x1b_G".spec_bytes() == seq![0x1bu8, 0x5f, 0x47],
        "m=1;".spec_bytes() == seq![0x6du8, 0x3d, 0x31, 0x3b],
        "m=0;".spec_bytes() == seq![0x6du8, 0x3d, 0x30, 0x3b],
        "\x1b\\".spec_bytes() == seq![0x1bu8, 0x5c],
        "\n".spec_bytes() == seq![0x0au8],
        clear_sequence() == seq![0x1bu8, 0x5f, 0x47, 0x61, 0x3d, 0x64, 0x1b, 0x5c],
{
    reveal_strlit("\x1b_G");
    reveal_strlit("m=1;");
    reveal_strlit("m=0;");
    reveal_strlit("\x1b\\");
    reveal_strlit("\n");
    reveal_strlit("\x1b_Ga=d\x1b\\");
    assert(is_ascii("\x1b_G"));
    assert(is_ascii("m=1;"));
    assert(is_ascii("m=0;"));
    assert(is_ascii("\x1b\\"));
    assert(is_ascii("\n"));
    assert(is_ascii("\x1b_Ga=d\x1b\\"));
    is_ascii_spec_bytes("\x1b_G");
    is_ascii_spec_bytes("m=1;");
    is_ascii_spec_bytes("m=0;");
    is_ascii_spec_bytes("\x1b\\");
    is_ascii_spec_bytes("\n");
    is_ascii_spec_bytes("\x1b_Ga=d\x1b\\");
}

/// A payload that fits one chunk travels in one frame, which carries the
/// header and ends the transmission.
pub proof fn lemma_single_frame(header: Seq<u8>, payload: Seq<u8>)
    requires
        0 < payload.len() <= CHUNK_SIZE,
    ensures
        transmission(header, payload) == "\x1b_G".spec_bytes() + header + "m=0;".spec_bytes()
            + payload + "\x1b\\".spec_bytes() + "\n".spec_bytes(),
{
    let cs = chunks(payload, CHUNK_SIZE as nat);
    assert(cs.skip(1) =~= Seq::empty());
    assert(frames(header, cs.skip(1), false) =~= Seq::empty());
    assert(frames(header, cs, true) =~= frame(header, cs[0], true));
}

/// Appends the frame of the chunk `payload[start..end]` to `out`.
fn push_frame(
    out: &mut Vec<u8>,
    header: &[u8],
    payload: &[u8],
    start: usize,
    end: usize,
    first: bool,
    more: bool,
)
    requires
        start <= end <= payload@.len(),
    ensures
        final(out)@ == old(out)@ + frame(
            header@,
            (TransmissionChunk { data: payload@.subrange(start as int, end as int), more }),
            first,
        ),
{
    let ghost before = out@;
    push_str(out, "\x1b_G");
    if first {
        out.extend_from_slice(header);
    }
    if more {
        push_str(out, "m=1;");
    } else {
        push_str(out, "m=0;");
    }
    out.extend_from_slice(vstd::slice::slice_subrange(payload, start, end));
    push_str(out, "\x1b\\");
    assert(out@ =~= before + frame(
        header@,
        TransmissionChunk { data: payload@.subrange(start as int, end as int), more },
        first,
    ));
}

/// Frames `payload`, which is the base64 text to send, behind `header`.
pub fn encode_transmission(header: &[u8], payload: &[u8]) -> (out: Vec<u8>)
    ensures
        out@ == transmission(header@, payload@),
{
    let mut out: Vec<u8> = Vec::new();
    let total: usize = payload.len();
    let mut pos: usize = 0;
    assert(payload@.skip(0) =~= payload@);
    while pos < total
        invariant
            pos <= total == payload@.len(),
            out@ + frames(
                header@,
                chunks(payload@.skip(pos as int), CHUNK_SIZE as nat),
                pos == 0,
            ) == frames(header@, chunks(payload@, CHUNK_SIZE as nat), true),
        decreases total - pos,
    {
        let end: usize = if total - pos > CHUNK_SIZE {
            pos + CHUNK_SIZE
        } else {
            total
        };
        let more: bool = end < total;
        let ghost before = out@;
        let ghost rest = payload@.skip(pos as int);
        let ghost cs = chunks(rest, CHUNK_SIZE as nat);
        let ghost chunk = TransmissionChunk {
            data: payload@.subrange(pos as int, end as int),
            more,
        };
        push_frame(&mut out, header, payload, pos, end, pos == 0, more);
        proof {
            let tail = chunks(payload@.skip(end as int), CHUNK_SIZE as nat);
            if more {
                assert(rest.take(CHUNK_SIZE as int) =~= chunk.data);
                assert(rest.skip(CHUNK_SIZE as int) =~= payload@.skip(end as int));
            } else {
                assert(rest =~= chunk.data);
                assert(payload@.skip(end as int).len() == 0);
            }
            assert(cs =~= seq![chunk] + tail);
            assert(cs.skip(1) =~= tail);
            assert(cs[0] == chunk);
            assert(before + frames(header@, cs, pos == 0) =~= out@ + frames(header@, tail, false));
        }
        pos = end;
    }
    assert(payload@.skip(total as int).len() == 0);
    push_str(&mut out, "\n");
    out
}

/// The header fields for a PNG payload.
pub fn build_png_header() -> (out: Vec<u8>)
    ensures
        out@ == png_header(),
{
    let mut out: Vec<u8> = Vec::new();
    push_str(&mut out, "a=T,f=100,");
    assert(out@ =~= png_header());
    out
}

/// The header fields for a payload of RGBA samples; `compressed` says
/// whether the samples travel compressed with zlib.
pub fn build_rgba_header(width: u32, height: u32, compressed: bool) -> (out: Vec<u8>)
    ensures
        out@ == rgba_header(width as nat, height as nat, compressed),
{
    let mut out: Vec<u8> = Vec::new();
    push_str(&mut out, "a=T,f=32,s=");
    push_decimal(&mut out, width);
    push_str(&mut out, ",v=");
    push_decimal(&mut out, height);
    if compressed {
        push_str(&mut out, ",o=z,");
    } else {
        push_str(&mut out, ",");
    }
    assert(out@ =~= rgba_header(width as nat, height as nat, compressed));
    out
}

/// The command that removes the pictures on display.
pub fn clear_command() -> (out: Vec<u8>)
    ensures
        out@ == clear_sequence(),
{
    let mut out: Vec<u8> = Vec::new();
    push_str(&mut out, "\x1b_Ga=d\x1b\\");
    assert(out@ =~= clear_sequence());
    out
}

} // verus!
