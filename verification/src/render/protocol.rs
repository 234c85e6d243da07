//! The binary frame codec of the streaming protocol.
//!
//! Each frame starts with a four-byte magic number naming its kind; numbers
//! are little-endian and text is UTF-8 after its byte length. A graphics
//! frame travels as `GFX1`, then `frame_id` (8 bytes), `timestamp` (8),
//! `width` (2), `height` (2), the pixel count (4), the pixels, the byte
//! length of the shared-memory name (4) and that name. Proof steps (`PRF1`)
//! and progress reports (`PRG1`) are laid out alike; a heartbeat is `HEAR`
//! and a control message `CTRL`.

use vstd::prelude::*;
use vstd::slice::{slice_subrange, slice_to_vec};
use vstd::utf8::{decode_utf8, encode_utf8, valid_utf8};
use crate::render::stream::{
    ControlMessage, GraphicsFrameData, GraphicsFrameView, ProgressData, ProgressStatus, ProgressView,
    ProofStepData, ProofStepView, StepType, StreamError, StreamErrorView, StreamMessage,
    StreamMessageView,
};
use crate::text::{string_from_utf8, to_owned_string, utf8_error_text};
use crate::wire::{
    le_bytes, le_value, lemma_le_roundtrip, lemma_le_value_bound, lemma_pow256_values, push_bytes,
    push_le, read_le,
};

verus! {

/// The magic number of a graphics frame, `GFX1`.
pub open spec fn gfx_magic() -> Seq<u8> {
    seq![71u8, 70u8, 88u8, 49u8]
}

/// The bytes of an encoded graphics frame. The two length fields hold the
/// lengths modulo 2^32, as a cast to `u32` leaves them.
pub open spec fn graphics_frame_bytes(f: GraphicsFrameView) -> Seq<u8> {
    let name = encode_utf8(f.shm_id);
    gfx_magic() + le_bytes(f.frame_id as nat, 8) + le_bytes((f.timestamp as u64) as nat, 8)
        + le_bytes(f.width as nat, 2) + le_bytes(f.height as nat, 2) + le_bytes(
        f.pixels.len() % 0x1_0000_0000,
        4,
    ) + f.pixels + le_bytes(name.len() % 0x1_0000_0000, 4) + name
}

/// The pixel count field of a frame.
pub open spec fn gfx_pixel_len(d: Seq<u8>) -> nat {
    le_value(d.subrange(24, 28))
}

/// The name length field of a frame, which follows the pixels.
pub open spec fn gfx_name_len(d: Seq<u8>) -> nat {
    let pl = gfx_pixel_len(d) as int;
    le_value(d.subrange(28 + pl, 32 + pl))
}

/// A frame whose header is complete and whose magic is right, but whose length
/// fields point past the end of the data.
pub open spec fn graphics_frame_truncated(d: Seq<u8>) -> bool {
    let pl = gfx_pixel_len(d);
    &&& d.len() >= 28
    &&& d.subrange(0, 4) == gfx_magic()
    &&& (32 + pl > d.len() || 32 + pl + gfx_name_len(d) > d.len())
}

/// What decoding gives for a byte string that is not truncated.
pub open spec fn decode_graphics_frame_spec(d: Seq<u8>) -> Result<GraphicsFrameView, StreamErrorView> {
    if d.len() < 28 {
        Err(StreamErrorView::Serialization("Data too short"@))
    } else if d.subrange(0, 4) != gfx_magic() {
        Err(StreamErrorView::Serialization("Invalid magic"@))
    } else {
        let pl = gfx_pixel_len(d) as int;
        let name = d.subrange(32 + pl, 32 + pl + gfx_name_len(d));
        if valid_utf8(name) {
            Ok(
                GraphicsFrameView {
                    frame_id: le_value(d.subrange(4, 12)) as u64,
                    timestamp: (le_value(d.subrange(12, 20)) as u64) as i64,
                    width: le_value(d.subrange(20, 22)) as u16,
                    height: le_value(d.subrange(22, 24)) as u16,
                    pixels: d.subrange(28, 28 + pl),
                    shm_id: decode_utf8(name),
                },
            )
        } else {
            Err(StreamErrorView::Serialization(utf8_error_text(name)))
        }
    }
}

/// A decoding outcome as plain values.
pub open spec fn frame_result_view(r: Result<GraphicsFrameData, StreamError>) -> Result<
    GraphicsFrameView,
    StreamErrorView,
> {
    match r {
        Ok(f) => Ok(f@),
        Err(e) => Err(e@),
    }
}

/// Decoding an encoded graphics frame gives the frame back, whenever its pixel
/// count and the UTF-8 length of its shared-memory name fit in 32 bits.
pub proof fn lemma_graphics_frame_roundtrip(f: GraphicsFrameView)
    requires
        f.pixels.len() < 0x1_0000_0000,
        encode_utf8(f.shm_id).len() < 0x1_0000_0000,
    ensures
        !graphics_frame_truncated(graphics_frame_bytes(f)),
        decode_graphics_frame_spec(graphics_frame_bytes(f)) == Ok::<
            GraphicsFrameView,
            StreamErrorView,
        >(f),
{
    let name = encode_utf8(f.shm_id);
    let pl = f.pixels.len() as int;
    let nl = name.len() as int;
    let b = graphics_frame_bytes(f);
    lemma_pow256_values();
    lemma_le_roundtrip(f.frame_id as nat, 8);
    lemma_le_roundtrip((f.timestamp as u64) as nat, 8);
    lemma_le_roundtrip(f.width as nat, 2);
    lemma_le_roundtrip(f.height as nat, 2);
    lemma_le_roundtrip(pl as nat, 4);
    lemma_le_roundtrip(nl as nat, 4);
    assert(pl % 0x1_0000_0000 == pl);
    assert(nl % 0x1_0000_0000 == nl);
    assert(b.len() == 32 + pl + nl);
    assert(b.subrange(0, 4) =~= gfx_magic());
    assert(b.subrange(4, 12) =~= le_bytes(f.frame_id as nat, 8));
    assert(b.subrange(12, 20) =~= le_bytes((f.timestamp as u64) as nat, 8));
    assert(b.subrange(20, 22) =~= le_bytes(f.width as nat, 2));
    assert(b.subrange(22, 24) =~= le_bytes(f.height as nat, 2));
    assert(b.subrange(24, 28) =~= le_bytes(pl as nat, 4));
    assert(b.subrange(28, 28 + pl) =~= f.pixels);
    assert(b.subrange(28 + pl, 32 + pl) =~= le_bytes(nl as nat, 4));
    assert(b.subrange(32 + pl, 32 + pl + nl) =~= name);
    let t = f.timestamp;
    assert(((t as u64) as i64) == t) by (bit_vector);
    vstd::utf8::encode_utf8_valid_utf8(f.shm_id);
    vstd::utf8::encode_utf8_decode_utf8(f.shm_id);
}

/// The step type stored in a byte: its value modulo 8, in declaration order.
pub open spec fn step_type_of(v: u8) -> StepType {
    match v % 8 {
        0 => StepType::Axiom,
        1 => StepType::Definition,
        2 => StepType::Lemma,
        3 => StepType::Theorem,
        4 => StepType::Proof,
        5 => StepType::Corollary,
        6 => StepType::Computation,
        _ => StepType::Verification,
    }
}

/// The progress status stored in a byte: its value modulo 5, in declaration order.
pub open spec fn progress_status_of(v: u8) -> ProgressStatus {
    match v % 5 {
        0 => ProgressStatus::Pending,
        1 => ProgressStatus::Running,
        2 => ProgressStatus::Completed,
        3 => ProgressStatus::Failed,
        _ => ProgressStatus::Cancelled,
    }
}

impl StepType {
    /// The step type that a byte stands for (its value modulo 8).
    pub fn from_u8(val: u8) -> (r: Self)
        ensures
            r == step_type_of(val),
    {
        match val % 8 {
            0 => StepType::Axiom,
            1 => StepType::Definition,
            2 => StepType::Lemma,
            3 => StepType::Theorem,
            4 => StepType::Proof,
            5 => StepType::Corollary,
            6 => StepType::Computation,
            _ => StepType::Verification,
        }
    }
}

impl ProgressStatus {
    /// The progress status that a byte stands for (its value modulo 5).
    pub fn from_u8(val: u8) -> (r: Self)
        ensures
            r == progress_status_of(val),
    {
        match val % 5 {
            0 => ProgressStatus::Pending,
            1 => ProgressStatus::Running,
            2 => ProgressStatus::Completed,
            3 => ProgressStatus::Failed,
            _ => ProgressStatus::Cancelled,
        }
    }
}

/// Encodes stream messages into frames.
pub struct FrameEncoder {}

impl FrameEncoder {
    pub fn new() -> (r: Self) {
        FrameEncoder {  }
    }

    /// Encodes a graphics frame; this always succeeds.
    pub fn encode_graphics_frame(&self, frame: &GraphicsFrameData) -> (r: Result<
        Vec<u8>,
        StreamError,
    >)
        ensures
            r matches Ok(bytes) && bytes@ == graphics_frame_bytes(frame@),
    {
        let mut data: Vec<u8> = Vec::new();
        // "GFX1"
        data.push(71);
        data.push(70);
        data.push(88);
        data.push(49);
        push_le(&mut data, frame.frame_id, 8);
        push_le(&mut data, frame.timestamp as u64, 8);
        push_le(&mut data, frame.width as u64, 2);
        push_le(&mut data, frame.height as u64, 2);
        push_le(&mut data, frame.pixels.len() as u64 % 0x1_0000_0000, 4);
        push_bytes(&mut data, frame.pixels.as_slice());
        let name = frame.shm_id.as_str().as_bytes();
        push_le(&mut data, name.len() as u64 % 0x1_0000_0000, 4);
        push_bytes(&mut data, name);
        assert(data@ =~= graphics_frame_bytes(frame@));
        Ok(data)
    }
}

/// Whether the data begins with `GFX1`.
fn starts_with_gfx_magic(data: &[u8]) -> (r: bool)
    requires
        data@.len() >= 4,
    ensures
        r == (data@.subrange(0, 4) == gfx_magic()),
{
    let r = data[0] == 71 && data[1] == 70 && data[2] == 88 && data[3] == 49;
    proof {
        let head = data@.subrange(0, 4);
        if r {
            assert(head =~= gfx_magic());
        } else {
            assert(head[0] == data@[0] && head[1] == data@[1] && head[2] == data@[2] && head[3] == data@[3]);
            assert(head != gfx_magic()) by {
                if head == gfx_magic() {
                    assert(head[0] == gfx_magic()[0]);
                }
            }
        }
    }
    r
}

/// Whether a frame's length fields point past the end of the data; decoding
/// such a frame is not defined.
pub fn graphics_frame_is_truncated(data: &[u8]) -> (r: bool)
    ensures
        r == graphics_frame_truncated(data@),
{
    let len = data.len();
    if len < 28 || !starts_with_gfx_magic(data) {
        return false;
    }
    let pl = read_le(data, 24, 4);
    proof {
        lemma_le_value_bound(data@.subrange(24, 28));
        lemma_pow256_values();
    }
    if len < 32 || pl > (len - 32) as u64 {
        return true;
    }
    let pl = pl as usize;
    let nl = read_le(data, 28 + pl, 4);
    nl > (len - 32 - pl) as u64
}

/// Decodes frames into stream messages.
pub struct FrameDecoder {}

impl FrameDecoder {
    pub fn new() -> (r: Self) {
        FrameDecoder {  }
    }

    /// Decodes a graphics frame: too short data and a wrong magic are
    /// serialization errors, and so is a shared-memory name that is not UTF-8.
    pub fn decode_graphics_frame(&self, data: &[u8]) -> (r: Result<GraphicsFrameData, StreamError>)
        requires
            !graphics_frame_truncated(data@),
        ensures
            frame_result_view(r) == decode_graphics_frame_spec(data@),
    {
        let len = data.len();
        if len < 28 {
            return Err(StreamError::Serialization(to_owned_string("Data too short")));
        }
        if !starts_with_gfx_magic(data) {
            return Err(StreamError::Serialization(to_owned_string("Invalid magic")));
        }
        proof {
            lemma_pow256_values();
            lemma_le_value_bound(data@.subrange(4, 12));
            lemma_le_value_bound(data@.subrange(12, 20));
            lemma_le_value_bound(data@.subrange(20, 22));
            lemma_le_value_bound(data@.subrange(22, 24));
            lemma_le_value_bound(data@.subrange(24, 28));
        }
        let frame_id = read_le(data, 4, 8);
        let timestamp = read_le(data, 12, 8) as i64;
        let width = read_le(data, 20, 2) as u16;
        let height = read_le(data, 22, 2) as u16;
        let pl = read_le(data, 24, 4) as usize;
        let pixels = slice_to_vec(slice_subrange(data, 28, 28 + pl));
        let nl = read_le(data, 28 + pl, 4) as usize;
        let name = slice_subrange(data, 32 + pl, 32 + pl + nl);
        match string_from_utf8(name) {
            Ok(shm_id) => {
                proof {
                    vstd::utf8::encode_utf8_decode_utf8(shm_id@);
                }
                Ok(GraphicsFrameData { frame_id, timestamp, width, height, pixels, shm_id })
            },
            Err(m) => Err(StreamError::Serialization(m)),
        }
    }
}

/// The magic number of a proof step, `PRF1`.
pub open spec fn prf_magic() -> Seq<u8> {
    seq![80u8, 82u8, 70u8, 49u8]
}

/// The byte a step type is stored as: its position in declaration order.
pub open spec fn step_type_code(t: StepType) -> u8 {
    match t {
        StepType::Axiom => 0,
        StepType::Definition => 1,
        StepType::Lemma => 2,
        StepType::Theorem => 3,
        StepType::Proof => 4,
        StepType::Corollary => 5,
        StepType::Computation => 6,
        StepType::Verification => 7,
    }
}

/// The byte of a step type.
fn step_type_byte(t: StepType) -> (r: u8)
    ensures
        r == step_type_code(t),
{
    match t {
        StepType::Axiom => 0,
        StepType::Definition => 1,
        StepType::Lemma => 2,
        StepType::Theorem => 3,
        StepType::Proof => 4,
        StepType::Corollary => 5,
        StepType::Computation => 6,
        StepType::Verification => 7,
    }
}

/// The dependencies of a step, eight little-endian bytes each.
pub open spec fn deps_bytes(s: Seq<u64>) -> Seq<u8>
    decreases s.len(),
{
    if s.len() == 0 {
        Seq::empty()
    } else {
        deps_bytes(s.drop_last()) + le_bytes(s.last() as nat, 8)
    }
}

/// The bytes of an encoded proof step: `PRF1`, `step_id` (8), `proof_id` (8),
/// the content's byte length (4) and the content in UTF-8, the step type (1),
/// the dependency count (4) and the dependencies (8 each), `timestamp` (8)
/// and the confidence (4). The two length fields hold their values modulo 2^32.
pub open spec fn proof_step_bytes(p: ProofStepView) -> Seq<u8> {
    let c = encode_utf8(p.content);
    prf_magic() + le_bytes(p.step_id as nat, 8) + le_bytes(p.proof_id as nat, 8) + le_bytes(
        c.len() % 0x1_0000_0000,
        4,
    ) + c + seq![step_type_code(p.step_type)] + le_bytes(p.dependencies.len() % 0x1_0000_0000, 4)
        + deps_bytes(p.dependencies) + le_bytes((p.timestamp as u64) as nat, 8) + le_bytes(
        p.confidence_bits as nat,
        4,
    )
}

/// The content length field of a proof step.
pub open spec fn prf_content_len(d: Seq<u8>) -> nat {
    le_value(d.subrange(20, 24))
}

/// The dependency count field of a proof step, which follows the content and
/// the step type.
pub open spec fn prf_dep_count(d: Seq<u8>) -> nat {
    let cl = prf_content_len(d) as int;
    le_value(d.subrange(25 + cl, 29 + cl))
}

/// A proof step whose header is complete and whose magic is right, but whose
/// fields run past the end of the data (after a valid UTF-8 content, when the
/// content fits).
pub open spec fn proof_step_truncated(d: Seq<u8>) -> bool {
    let cl = prf_content_len(d) as int;
    &&& d.len() >= 24
    &&& d.subrange(0, 4) == prf_magic()
    &&& (24 + cl > d.len() || (valid_utf8(d.subrange(24, 24 + cl)) && 41 + cl + 8 * prf_dep_count(d) > d.len()))
}

/// The `n` little-endian 8-byte values from `off` on.
pub open spec fn dep_values(d: Seq<u8>, off: int, n: nat) -> Seq<u64> {
    Seq::new(n, |i: int| le_value(d.subrange(off + 8 * i, off + 8 * i + 8)) as u64)
}

/// What decoding gives for a proof step that is not truncated.
pub open spec fn decode_proof_step_spec(d: Seq<u8>) -> Result<ProofStepView, StreamErrorView> {
    if d.len() < 24 {
        Err(StreamErrorView::Serialization("Data too short"@))
    } else if d.subrange(0, 4) != prf_magic() {
        Err(StreamErrorView::Serialization("Invalid magic"@))
    } else {
        let cl = prf_content_len(d) as int;
        let content = d.subrange(24, 24 + cl);
        if valid_utf8(content) {
            let dc = prf_dep_count(d);
            let t = 29 + cl + 8 * dc;
            Ok(
                ProofStepView {
                    step_id: le_value(d.subrange(4, 12)) as u64,
                    proof_id: le_value(d.subrange(12, 20)) as u64,
                    content: decode_utf8(content),
                    step_type: step_type_of(d[24 + cl]),
                    dependencies: dep_values(d, 29 + cl, dc),
                    timestamp: (le_value(d.subrange(t, t + 8)) as u64) as i64,
                    confidence_bits: le_value(d.subrange(t + 8, t + 12)) as u32,
                },
            )
        } else {
            Err(StreamErrorView::Serialization(utf8_error_text(content)))
        }
    }
}

/// A proof step decoding outcome as plain values.
pub open spec fn step_result_view(r: Result<ProofStepData, StreamError>) -> Result<ProofStepView, StreamErrorView> {
    match r {
        Ok(p) => Ok(p@),
        Err(e) => Err(e@),
    }
}

/// The encoded dependencies take eight bytes each, in order.
pub proof fn lemma_deps_bytes(s: Seq<u64>)
    ensures
        deps_bytes(s).len() == 8 * s.len(),
        forall|i: int|
            0 <= i < s.len() ==> #[trigger] deps_bytes(s).subrange(8 * i, 8 * i + 8) == le_bytes(s[i] as nat, 8),
    decreases s.len(),
{
    if s.len() > 0 {
        let p = s.drop_last();
        lemma_deps_bytes(p);
        lemma_pow256_values();
        lemma_le_roundtrip(s.last() as nat, 8);
        let b = deps_bytes(s);
        assert forall|i: int| 0 <= i < s.len() implies #[trigger] b.subrange(8 * i, 8 * i + 8) == le_bytes(
            s[i] as nat,
            8,
        ) by {
            if i < p.len() {
                assert(b.subrange(8 * i, 8 * i + 8) =~= deps_bytes(p).subrange(8 * i, 8 * i + 8));
                assert(p[i] == s[i]);
            } else {
                assert(b.subrange(8 * i, 8 * i + 8) =~= le_bytes(s.last() as nat, 8));
            }
        }
    }
}

/// A step type's byte is its position in declaration order: axiom 0,
/// definition 1, lemma 2, theorem 3, proof 4, corollary 5, computation 6,
/// verification 7; a larger byte reads as its value modulo 8.
pub proof fn lemma_step_type_bytes()
    ensures
        step_type_code(StepType::Axiom) == 0,
        step_type_code(StepType::Definition) == 1,
        step_type_code(StepType::Lemma) == 2,
        step_type_code(StepType::Theorem) == 3,
        step_type_code(StepType::Proof) == 4,
        step_type_code(StepType::Corollary) == 5,
        step_type_code(StepType::Computation) == 6,
        step_type_code(StepType::Verification) == 7,
        step_type_of(0) == StepType::Axiom,
        step_type_of(1) == StepType::Definition,
        step_type_of(2) == StepType::Lemma,
        step_type_of(3) == StepType::Theorem,
        step_type_of(4) == StepType::Proof,
        step_type_of(5) == StepType::Corollary,
        step_type_of(6) == StepType::Computation,
        step_type_of(7) == StepType::Verification,
        forall|v: u8| #[trigger] step_type_of(v) == step_type_of(v % 8),
{
    assert forall|v: u8| #[trigger] step_type_of(v) == step_type_of(v % 8) by {
        assert((v % 8) % 8 == v % 8);
    }
}

/// The step type a byte is decoded to is the one it was encoded from.
pub proof fn lemma_step_type_code(t: StepType)
    ensures
        step_type_of(step_type_code(t)) == t,
{
}

/// Decoding an encoded proof step gives the step back, whenever the UTF-8
/// length of its content and its number of dependencies fit in 32 bits.
pub proof fn lemma_proof_step_roundtrip(p: ProofStepView)
    requires
        encode_utf8(p.content).len() < 0x1_0000_0000,
        p.dependencies.len() < 0x1_0000_0000,
    ensures
        !proof_step_truncated(proof_step_bytes(p)),
        decode_proof_step_spec(proof_step_bytes(p)) == Ok::<ProofStepView, StreamErrorView>(p),
{
    let c = encode_utf8(p.content);
    let cl = c.len() as int;
    let dc = p.dependencies.len() as int;
    let b = proof_step_bytes(p);
    lemma_pow256_values();
    lemma_deps_bytes(p.dependencies);
    lemma_le_roundtrip(p.step_id as nat, 8);
    lemma_le_roundtrip(p.proof_id as nat, 8);
    lemma_le_roundtrip(cl as nat, 4);
    lemma_le_roundtrip(dc as nat, 4);
    lemma_le_roundtrip((p.timestamp as u64) as nat, 8);
    lemma_le_roundtrip(p.confidence_bits as nat, 4);
    assert(cl % 0x1_0000_0000 == cl);
    assert(dc % 0x1_0000_0000 == dc);
    let t = 29 + cl + 8 * dc;
    assert(b.len() == t + 12);
    assert(b.subrange(0, 4) =~= prf_magic());
    assert(b.subrange(4, 12) =~= le_bytes(p.step_id as nat, 8));
    assert(b.subrange(12, 20) =~= le_bytes(p.proof_id as nat, 8));
    assert(b.subrange(20, 24) =~= le_bytes(cl as nat, 4));
    assert(b.subrange(24, 24 + cl) =~= c);
    assert(b[24 + cl] == step_type_code(p.step_type));
    assert(b.subrange(25 + cl, 29 + cl) =~= le_bytes(dc as nat, 4));
    assert(b.subrange(29 + cl, t) =~= deps_bytes(p.dependencies));
    assert(b.subrange(t, t + 8) =~= le_bytes((p.timestamp as u64) as nat, 8));
    assert(b.subrange(t + 8, t + 12) =~= le_bytes(p.confidence_bits as nat, 4));
    assert forall|i: int| 0 <= i < dc implies #[trigger] b.subrange(29 + cl + 8 * i, 29 + cl + 8 * i + 8)
        == le_bytes(p.dependencies[i] as nat, 8) by {
        assert(b.subrange(29 + cl + 8 * i, 29 + cl + 8 * i + 8) =~= deps_bytes(p.dependencies).subrange(
            8 * i,
            8 * i + 8,
        ));
        lemma_le_roundtrip(p.dependencies[i] as nat, 8);
    }
    assert forall|i: int| 0 <= i < dc implies #[trigger] dep_values(b, 29 + cl, dc as nat)[i]
        == p.dependencies[i] by {
        lemma_le_roundtrip(p.dependencies[i] as nat, 8);
    }
    assert(dep_values(b, 29 + cl, dc as nat) =~= p.dependencies);
    let ts = p.timestamp;
    assert(((ts as u64) as i64) == ts) by (bit_vector);
    lemma_step_type_code(p.step_type);
    vstd::utf8::encode_utf8_valid_utf8(p.content);
    vstd::utf8::encode_utf8_decode_utf8(p.content);
}

/// Whether the data begins with the four given bytes.
fn has_magic(data: &[u8], m0: u8, m1: u8, m2: u8, m3: u8) -> (r: bool)
    requires
        data@.len() >= 4,
    ensures
        r == (data@.subrange(0, 4) == seq![m0, m1, m2, m3]),
{
    let r = data[0] == m0 && data[1] == m1 && data[2] == m2 && data[3] == m3;
    proof {
        let head = data@.subrange(0, 4);
        if r {
            assert(head =~= seq![m0, m1, m2, m3]);
        } else if head == seq![m0, m1, m2, m3] {
            assert(head[0] == m0 && head[1] == m1 && head[2] == m2 && head[3] == m3);
        }
    }
    r
}

impl FrameEncoder {
    /// Encodes a proof step; this always succeeds.
    pub fn encode_proof_step(&self, step: &ProofStepData) -> (r: Result<Vec<u8>, StreamError>)
        ensures
            r matches Ok(bytes) && bytes@ == proof_step_bytes(step@),
    {
        let mut data: Vec<u8> = Vec::new();
        // "PRF1"
        data.push(80);
        data.push(82);
        data.push(70);
        data.push(49);
        push_le(&mut data, step.step_id, 8);
        push_le(&mut data, step.proof_id, 8);
        let content = step.content.as_str().as_bytes();
        push_le(&mut data, content.len() as u64 % 0x1_0000_0000, 4);
        push_bytes(&mut data, content);
        data.push(step_type_byte(step.step_type));
        let deps = &step.dependencies;
        push_le(&mut data, deps.len() as u64 % 0x1_0000_0000, 4);
        let ghost head = data@;
        let mut i: usize = 0;
        while i < deps.len()
            invariant
                i <= deps@.len(),
                data@ == head + deps_bytes(deps@.take(i as int)),
            decreases deps@.len() - i,
        {
            push_le(&mut data, deps[i], 8);
            proof {
                assert(deps@.take(i + 1).drop_last() =~= deps@.take(i as int));
                assert(data@ =~= head + deps_bytes(deps@.take(i + 1)));
            }
            i = i + 1;
        }
        assert(deps@.take(deps@.len() as int) =~= deps@);
        push_le(&mut data, step.timestamp as u64, 8);
        push_le(&mut data, step.confidence_bits as u64, 4);
        assert(data@ =~= proof_step_bytes(step@));
        Ok(data)
    }
}

/// Whether a proof step's fields run past the end of the data; decoding such a
/// step is not defined.
pub fn proof_step_is_truncated(data: &[u8]) -> (r: bool)
    ensures
        r == proof_step_truncated(data@),
{
    let len = data.len();
    if len < 24 || !has_magic(data, 80, 82, 70, 49) {
        return false;
    }
    proof {
        lemma_le_value_bound(data@.subrange(20, 24));
        lemma_pow256_values();
    }
    let cl = read_le(data, 20, 4);
    if cl > (len - 24) as u64 {
        return true;
    }
    let cl = cl as usize;
    let valid = string_from_utf8(slice_subrange(data, 24, 24 + cl)).is_ok();
    if !valid {
        return false;
    }
    let rest = len - 24 - cl;
    if rest < 5 {
        return true;
    }
    proof {
        lemma_le_value_bound(data@.subrange(25 + cl as int, 29 + cl as int));
    }
    let dc = read_le(data, 25 + cl, 4);
    8 * dc + 17 > rest as u64
}

impl FrameDecoder {
    /// Decodes a proof step: too short data and a wrong magic are
    /// serialization errors, and so is content that is not UTF-8.
    pub fn decode_proof_step(&self, data: &[u8]) -> (r: Result<ProofStepData, StreamError>)
        requires
            !proof_step_truncated(data@),
        ensures
            step_result_view(r) == decode_proof_step_spec(data@),
    {
        let len = data.len();
        if len < 24 {
            return Err(StreamError::Serialization(to_owned_string("Data too short")));
        }
        if !has_magic(data, 80, 82, 70, 49) {
            return Err(StreamError::Serialization(to_owned_string("Invalid magic")));
        }
        proof {
            lemma_pow256_values();
            lemma_le_value_bound(data@.subrange(4, 12));
            lemma_le_value_bound(data@.subrange(12, 20));
            lemma_le_value_bound(data@.subrange(20, 24));
        }
        let step_id = read_le(data, 4, 8);
        let proof_id = read_le(data, 12, 8);
        let cl = read_le(data, 20, 4) as usize;
        let content = match string_from_utf8(slice_subrange(data, 24, 24 + cl)) {
            Ok(s) => s,
            Err(m) => {
                return Err(StreamError::Serialization(m));
            },
        };
        proof {
            vstd::utf8::encode_utf8_decode_utf8(content@);
            lemma_le_value_bound(data@.subrange(25 + cl as int, 29 + cl as int));
        }
        let step_type = StepType::from_u8(data[24 + cl]);
        let dc = read_le(data, 25 + cl, 4) as usize;
        let base = 29 + cl;
        let mut deps: Vec<u64> = Vec::new();
        let mut i: usize = 0;
        while i < dc
            invariant
                i <= dc,
                base == 29 + cl,
                base + 8 * dc + 12 <= len,
                len == data@.len(),
                deps@ =~= dep_values(data@, base as int, i as nat),
            decreases dc - i,
        {
            proof {
                lemma_le_value_bound(data@.subrange(base + 8 * i, base + 8 * i + 8));
            }
            let dep = read_le(data, base + 8 * i, 8);
            deps.push(dep);
            i = i + 1;
            assert(deps@ =~= dep_values(data@, base as int, i as nat));
        }
        let t = base + 8 * dc;
        proof {
            lemma_le_value_bound(data@.subrange(t as int, t + 8));
            lemma_le_value_bound(data@.subrange(t + 8, t + 12));
        }
        let timestamp = read_le(data, t, 8) as i64;
        let confidence_bits = read_le(data, t + 8, 4) as u32;
        Ok(ProofStepData { step_id, proof_id, content, step_type, dependencies: deps, timestamp, confidence_bits })
    }
}

/// The magic number of a progress report, `PRG1`.
pub open spec fn prg_magic() -> Seq<u8> {
    seq![80u8, 82u8, 71u8, 49u8]
}

/// The byte a progress status is stored as: its position in declaration order.
pub open spec fn progress_status_code(s: ProgressStatus) -> u8 {
    match s {
        ProgressStatus::Pending => 0,
        ProgressStatus::Running => 1,
        ProgressStatus::Completed => 2,
        ProgressStatus::Failed => 3,
        ProgressStatus::Cancelled => 4,
    }
}

/// A progress status's byte is its position in declaration order: pending 0,
/// running 1, completed 2, failed 3, cancelled 4; a larger byte reads as its
/// value modulo 5.
pub proof fn lemma_progress_status_bytes()
    ensures
        progress_status_code(ProgressStatus::Pending) == 0,
        progress_status_code(ProgressStatus::Running) == 1,
        progress_status_code(ProgressStatus::Completed) == 2,
        progress_status_code(ProgressStatus::Failed) == 3,
        progress_status_code(ProgressStatus::Cancelled) == 4,
        progress_status_of(0) == ProgressStatus::Pending,
        progress_status_of(1) == ProgressStatus::Running,
        progress_status_of(2) == ProgressStatus::Completed,
        progress_status_of(3) == ProgressStatus::Failed,
        progress_status_of(4) == ProgressStatus::Cancelled,
        forall|v: u8| #[trigger] progress_status_of(v) == progress_status_of(v % 5),
{
    assert forall|v: u8| #[trigger] progress_status_of(v) == progress_status_of(v % 5) by {
        assert((v % 5) % 5 == v % 5);
    }
}


/// The byte of a progress status.
fn progress_status_byte(s: ProgressStatus) -> (r: u8)
    ensures
        r == progress_status_code(s),
{
    match s {
        ProgressStatus::Pending => 0,
        ProgressStatus::Running => 1,
        ProgressStatus::Completed => 2,
        ProgressStatus::Failed => 3,
        ProgressStatus::Cancelled => 4,
    }
}

/// The bytes of an encoded progress report: `PRG1`, `proof_id` (8),
/// `current_step` (8), `total_steps` (8), the percentage (4), the status (1),
/// the message's byte length (4) and the message in UTF-8, then `timestamp`
/// (8). The length field holds its value modulo 2^32.
pub open spec fn progress_bytes(p: ProgressView) -> Seq<u8> {
    let m = encode_utf8(p.message);
    prg_magic() + le_bytes(p.proof_id as nat, 8) + le_bytes(p.current_step as nat, 8) + le_bytes(
        p.total_steps as nat,
        8,
    ) + le_bytes(p.percentage_bits as nat, 4) + seq![progress_status_code(p.status)] + le_bytes(
        m.len() % 0x1_0000_0000,
        4,
    ) + m + le_bytes((p.timestamp as u64) as nat, 8)
}

/// The message length field of a progress report.
pub open spec fn prg_message_len(d: Seq<u8>) -> nat {
    le_value(d.subrange(33, 37))
}

/// A progress report whose header is complete and whose magic is right, but
/// whose fields run past the end of the data (after a valid UTF-8 message,
/// when the message fits).
pub open spec fn progress_truncated(d: Seq<u8>) -> bool {
    let ml = prg_message_len(d) as int;
    &&& d.len() >= 37
    &&& d.subrange(0, 4) == prg_magic()
    &&& (37 + ml > d.len() || (valid_utf8(d.subrange(37, 37 + ml)) && 45 + ml > d.len()))
}

/// What decoding gives for a progress report that is not truncated.
pub open spec fn decode_progress_spec(d: Seq<u8>) -> Result<ProgressView, StreamErrorView> {
    if d.len() < 37 {
        Err(StreamErrorView::Serialization("Data too short"@))
    } else if d.subrange(0, 4) != prg_magic() {
        Err(StreamErrorView::Serialization("Invalid magic"@))
    } else {
        let ml = prg_message_len(d) as int;
        let message = d.subrange(37, 37 + ml);
        if valid_utf8(message) {
            Ok(
                ProgressView {
                    proof_id: le_value(d.subrange(4, 12)) as u64,
                    current_step: le_value(d.subrange(12, 20)) as u64,
                    total_steps: le_value(d.subrange(20, 28)) as u64,
                    percentage_bits: le_value(d.subrange(28, 32)) as u32,
                    status: progress_status_of(d[32]),
                    message: decode_utf8(message),
                    timestamp: (le_value(d.subrange(37 + ml, 45 + ml)) as u64) as i64,
                },
            )
        } else {
            Err(StreamErrorView::Serialization(utf8_error_text(message)))
        }
    }
}

/// A progress decoding outcome as plain values.
pub open spec fn progress_result_view(r: Result<ProgressData, StreamError>) -> Result<ProgressView, StreamErrorView> {
    match r {
        Ok(p) => Ok(p@),
        Err(e) => Err(e@),
    }
}

/// Decoding an encoded progress report gives the report back, whenever the
/// UTF-8 length of its message fits in 32 bits.
pub proof fn lemma_progress_roundtrip(p: ProgressView)
    requires
        encode_utf8(p.message).len() < 0x1_0000_0000,
    ensures
        !progress_truncated(progress_bytes(p)),
        decode_progress_spec(progress_bytes(p)) == Ok::<ProgressView, StreamErrorView>(p),
{
    let m = encode_utf8(p.message);
    let ml = m.len() as int;
    let b = progress_bytes(p);
    lemma_pow256_values();
    lemma_le_roundtrip(p.proof_id as nat, 8);
    lemma_le_roundtrip(p.current_step as nat, 8);
    lemma_le_roundtrip(p.total_steps as nat, 8);
    lemma_le_roundtrip(p.percentage_bits as nat, 4);
    lemma_le_roundtrip(ml as nat, 4);
    lemma_le_roundtrip((p.timestamp as u64) as nat, 8);
    assert(ml % 0x1_0000_0000 == ml);
    assert(b.len() == 45 + ml);
    assert(b.subrange(0, 4) =~= prg_magic());
    assert(b.subrange(4, 12) =~= le_bytes(p.proof_id as nat, 8));
    assert(b.subrange(12, 20) =~= le_bytes(p.current_step as nat, 8));
    assert(b.subrange(20, 28) =~= le_bytes(p.total_steps as nat, 8));
    assert(b.subrange(28, 32) =~= le_bytes(p.percentage_bits as nat, 4));
    assert(b[32] == progress_status_code(p.status));
    assert(b.subrange(33, 37) =~= le_bytes(ml as nat, 4));
    assert(b.subrange(37, 37 + ml) =~= m);
    assert(b.subrange(37 + ml, 45 + ml) =~= le_bytes((p.timestamp as u64) as nat, 8));
    let ts = p.timestamp;
    assert(((ts as u64) as i64) == ts) by (bit_vector);
    vstd::utf8::encode_utf8_valid_utf8(p.message);
    vstd::utf8::encode_utf8_decode_utf8(p.message);
}

impl FrameEncoder {
    /// Encodes a progress report; this always succeeds.
    pub fn encode_progress(&self, progress: &ProgressData) -> (r: Result<Vec<u8>, StreamError>)
        ensures
            r matches Ok(bytes) && bytes@ == progress_bytes(progress@),
    {
        let mut data: Vec<u8> = Vec::new();
        // "PRG1"
        data.push(80);
        data.push(82);
        data.push(71);
        data.push(49);
        push_le(&mut data, progress.proof_id, 8);
        push_le(&mut data, progress.current_step, 8);
        push_le(&mut data, progress.total_steps, 8);
        push_le(&mut data, progress.percentage_bits as u64, 4);
        data.push(progress_status_byte(progress.status));
        let message = progress.message.as_str().as_bytes();
        push_le(&mut data, message.len() as u64 % 0x1_0000_0000, 4);
        push_bytes(&mut data, message);
        push_le(&mut data, progress.timestamp as u64, 8);
        assert(data@ =~= progress_bytes(progress@));
        Ok(data)
    }
}

/// Whether a progress report's fields run past the end of the data; decoding
/// such a report is not defined.
pub fn progress_is_truncated(data: &[u8]) -> (r: bool)
    ensures
        r == progress_truncated(data@),
{
    let len = data.len();
    if len < 37 || !has_magic(data, 80, 82, 71, 49) {
        return false;
    }
    proof {
        lemma_le_value_bound(data@.subrange(33, 37));
        lemma_pow256_values();
    }
    let ml = read_le(data, 33, 4);
    if ml > (len - 37) as u64 {
        return true;
    }
    let ml = ml as usize;
    let valid = string_from_utf8(slice_subrange(data, 37, 37 + ml)).is_ok();
    valid && len - 37 - ml < 8
}

impl FrameDecoder {
    /// Decodes a progress report: too short data and a wrong magic are
    /// serialization errors, and so is a message that is not UTF-8.
    pub fn decode_progress(&self, data: &[u8]) -> (r: Result<ProgressData, StreamError>)
        requires
            !progress_truncated(data@),
        ensures
            progress_result_view(r) == decode_progress_spec(data@),
    {
        let len = data.len();
        if len < 37 {
            return Err(StreamError::Serialization(to_owned_string("Data too short")));
        }
        if !has_magic(data, 80, 82, 71, 49) {
            return Err(StreamError::Serialization(to_owned_string("Invalid magic")));
        }
        proof {
            lemma_pow256_values();
            lemma_le_value_bound(data@.subrange(4, 12));
            lemma_le_value_bound(data@.subrange(12, 20));
            lemma_le_value_bound(data@.subrange(20, 28));
            lemma_le_value_bound(data@.subrange(28, 32));
            lemma_le_value_bound(data@.subrange(33, 37));
        }
        let proof_id = read_le(data, 4, 8);
        let current_step = read_le(data, 12, 8);
        let total_steps = read_le(data, 20, 8);
        let percentage_bits = read_le(data, 28, 4) as u32;
        let status = ProgressStatus::from_u8(data[32]);
        let ml = read_le(data, 33, 4) as usize;
        let message = match string_from_utf8(slice_subrange(data, 37, 37 + ml)) {
            Ok(s) => s,
            Err(m) => {
                return Err(StreamError::Serialization(m));
            },
        };
        proof {
            vstd::utf8::encode_utf8_decode_utf8(message@);
            lemma_le_value_bound(data@.subrange(37 + ml as int, 45 + ml as int));
        }
        let timestamp = read_le(data, 37 + ml, 8) as i64;
        Ok(ProgressData { proof_id, current_step, total_steps, percentage_bits, status, message, timestamp })
    }
}

/// The bytes of a heartbeat, `HEAR`.
pub open spec fn heartbeat_magic() -> Seq<u8> {
    seq![72u8, 69u8, 65u8, 82u8]
}

/// The bytes of a control message, `CTRL`; which control it was is not sent.
pub open spec fn control_magic() -> Seq<u8> {
    seq![67u8, 84u8, 82u8, 76u8]
}

/// The bytes of an encoded stream message.
pub open spec fn message_bytes(m: StreamMessageView) -> Seq<u8> {
    match m {
        StreamMessageView::ProofStep(p) => proof_step_bytes(p),
        StreamMessageView::GraphicsFrame(f) => graphics_frame_bytes(f),
        StreamMessageView::Progress(p) => progress_bytes(p),
        StreamMessageView::Heartbeat => heartbeat_magic(),
        StreamMessageView::Control(_) => control_magic(),
    }
}

/// A proof step, graphics frame or progress report whose fields run past the
/// end of the data.
pub open spec fn message_truncated(d: Seq<u8>) -> bool {
    proof_step_truncated(d) || graphics_frame_truncated(d) || progress_truncated(d)
}

/// What decoding gives for a message that is not truncated: the magic number
/// decides the kind; a control message always decodes as `Start`.
pub open spec fn decode_message_spec(d: Seq<u8>) -> Result<StreamMessageView, StreamErrorView> {
    if d.len() < 4 {
        Err(StreamErrorView::Serialization("Data too short"@))
    } else {
        let head = d.subrange(0, 4);
        if head == prf_magic() {
            match decode_proof_step_spec(d) {
                Ok(p) => Ok(StreamMessageView::ProofStep(p)),
                Err(e) => Err(e),
            }
        } else if head == gfx_magic() {
            match decode_graphics_frame_spec(d) {
                Ok(f) => Ok(StreamMessageView::GraphicsFrame(f)),
                Err(e) => Err(e),
            }
        } else if head == prg_magic() {
            match decode_progress_spec(d) {
                Ok(p) => Ok(StreamMessageView::Progress(p)),
                Err(e) => Err(e),
            }
        } else if head == heartbeat_magic() {
            Ok(StreamMessageView::Heartbeat)
        } else if head == control_magic() {
            Ok(StreamMessageView::Control(ControlMessage::Start))
        } else {
            Err(StreamErrorView::Serialization("Unknown message type"@))
        }
    }
}

/// A message decoding outcome as plain values.
pub open spec fn message_result_view(r: Result<StreamMessage, StreamError>) -> Result<StreamMessageView, StreamErrorView> {
    match r {
        Ok(m) => Ok(m@),
        Err(e) => Err(e@),
    }
}

/// Decoding an encoded stream message gives the message back, whenever its
/// variable-length fields fit their 32-bit lengths; of the control messages
/// only `Start` survives, since the kind of control is not sent.
pub proof fn lemma_message_roundtrip(m: StreamMessageView)
    requires
        match m {
            StreamMessageView::ProofStep(p) => encode_utf8(p.content).len() < 0x1_0000_0000
                && p.dependencies.len() < 0x1_0000_0000,
            StreamMessageView::GraphicsFrame(f) => f.pixels.len() < 0x1_0000_0000 && encode_utf8(f.shm_id).len()
                < 0x1_0000_0000,
            StreamMessageView::Progress(p) => encode_utf8(p.message).len() < 0x1_0000_0000,
            StreamMessageView::Heartbeat => true,
            StreamMessageView::Control(c) => c == ControlMessage::Start,
        },
    ensures
        !message_truncated(message_bytes(m)),
        decode_message_spec(message_bytes(m)) == Ok::<StreamMessageView, StreamErrorView>(m),
{
    let b = message_bytes(m);
    match m {
        StreamMessageView::ProofStep(p) => {
            lemma_proof_step_roundtrip(p);
            assert(b.subrange(0, 4) =~= prf_magic());
            assert(b.subrange(0, 4) != gfx_magic() && b.subrange(0, 4) != prg_magic()) by {
                assert(b.subrange(0, 4)[0] == 80 && b.subrange(0, 4)[2] == 70);
            }
        },
        StreamMessageView::GraphicsFrame(f) => {
            lemma_graphics_frame_roundtrip(f);
            assert(b.subrange(0, 4) =~= gfx_magic());
            assert(b.subrange(0, 4) != prf_magic() && b.subrange(0, 4) != prg_magic()) by {
                assert(b.subrange(0, 4)[0] == 71);
            }
        },
        StreamMessageView::Progress(p) => {
            lemma_progress_roundtrip(p);
            assert(b.subrange(0, 4) =~= prg_magic());
            assert(b.subrange(0, 4) != prf_magic() && b.subrange(0, 4) != gfx_magic()) by {
                assert(b.subrange(0, 4)[0] == 80 && b.subrange(0, 4)[2] == 71);
            }
        },
        StreamMessageView::Heartbeat => {
            assert(b.subrange(0, 4) =~= heartbeat_magic());
            assert(b.len() == 4);
        },
        StreamMessageView::Control(c) => {
            assert(b.subrange(0, 4) =~= control_magic());
            assert(b.len() == 4);
        },
    }
}

impl FrameEncoder {
    /// Encodes any stream message; this always succeeds.
    pub fn encode(&self, msg: &StreamMessage) -> (r: Result<Vec<u8>, StreamError>)
        ensures
            r matches Ok(bytes) && bytes@ == message_bytes(msg@),
    {
        match msg {
            StreamMessage::ProofStep(step) => self.encode_proof_step(step),
            StreamMessage::GraphicsFrame(frame) => self.encode_graphics_frame(frame),
            StreamMessage::Progress(progress) => self.encode_progress(progress),
            StreamMessage::Heartbeat => {
                let v: Vec<u8> = vec![72, 69, 65, 82];
                assert(v@ =~= heartbeat_magic());
                Ok(v)
            },
            StreamMessage::Control(_) => {
                let v: Vec<u8> = vec![67, 84, 82, 76];
                assert(v@ =~= control_magic());
                Ok(v)
            },
        }
    }
}

/// Whether a message's fields run past the end of the data; decoding such a
/// message is not defined.
pub fn message_is_truncated(data: &[u8]) -> (r: bool)
    ensures
        r == message_truncated(data@),
{
    proof_step_is_truncated(data) || graphics_frame_is_truncated(data) || progress_is_truncated(data)
}

impl FrameDecoder {
    /// Decodes any message, its kind told by its magic number; an unknown
    /// magic number is a serialization error.
    pub fn decode(&self, data: &[u8]) -> (r: Result<StreamMessage, StreamError>)
        requires
            !message_truncated(data@),
        ensures
            message_result_view(r) == decode_message_spec(data@),
    {
        if data.len() < 4 {
            return Err(StreamError::Serialization(to_owned_string("Data too short")));
        }
        if has_magic(data, 80, 82, 70, 49) {
            match self.decode_proof_step(data) {
                Ok(p) => Ok(StreamMessage::ProofStep(p)),
                Err(e) => Err(e),
            }
        } else if has_magic(data, 71, 70, 88, 49) {
            match self.decode_graphics_frame(data) {
                Ok(f) => Ok(StreamMessage::GraphicsFrame(f)),
                Err(e) => Err(e),
            }
        } else if has_magic(data, 80, 82, 71, 49) {
            match self.decode_progress(data) {
                Ok(p) => Ok(StreamMessage::Progress(p)),
                Err(e) => Err(e),
            }
        } else if has_magic(data, 72, 69, 65, 82) {
            Ok(StreamMessage::Heartbeat)
        } else if has_magic(data, 67, 84, 82, 76) {
            Ok(StreamMessage::Control(ControlMessage::Start))
        } else {
            Err(StreamError::Serialization(to_owned_string("Unknown message type")))
        }
    }
}

} // verus!
