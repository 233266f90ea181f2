//! Binary glTF (GLB) and Batched 3D Model (b3dm) containers, accessor layout,
//! and index-buffer decoding for the city-mesh loader.
use vstd::prelude::*;

use crate::json::{is_json_document, json_parses};

verus! {

/// Why a tile payload was rejected.
#[derive(Debug, PartialEq, Eq, Structural)]
pub enum ContainerError {
    /// Missing `glTF` magic or too short.
    NotGlb,
    /// A JSON chunk that does not parse.
    BadJson,
    /// The GLB holds no JSON chunk.
    NoJsonChunk,
    /// Missing `b3dm` magic or too short.
    NotB3dm,
}

/// The chunks of a GLB: the last JSON chunk and the last binary chunk.
pub struct GlbChunks {
    pub json: Vec<u8>,
    pub bin: Vec<u8>,
}

/// Little-endian `u32` at byte offset `o`.
pub open spec fn le_u32(s: Seq<u8>, o: int) -> nat {
    (s[o] + 256 * s[o + 1] + 65536 * s[o + 2] + 16777216 * s[o + 3]) as nat
}

/// Little-endian `u16` at byte offset `o`.
pub open spec fn le_u16(s: Seq<u8>, o: int) -> nat {
    (s[o] + 256 * s[o + 1]) as nat
}

/// `n` rounded up to a multiple of four.
pub open spec fn round4(n: nat) -> nat {
    ((n + 3) / 4 * 4) as nat
}

pub open spec fn has_tag(s: Seq<u8>, o: int, a: u8, b: u8, c: u8, d: u8) -> bool {
    s[o] == a && s[o + 1] == b && s[o + 2] == c && s[o + 3] == d
}

/// Walks the chunk list from byte `off`, keeping the last JSON and BIN bodies.
/// A chunk body stops at the end of the data when its length runs past it.
pub open spec fn glb_scan(data: Seq<u8>, off: nat, json: Option<Seq<u8>>, bin: Seq<u8>) -> Result<
    (Option<Seq<u8>>, Seq<u8>),
    ContainerError,
>
    decreases (if off <= data.len() { data.len() - off } else { 0 }),
{
    if off + 8 > data.len() {
        Ok((json, bin))
    } else {
        let clen = le_u32(data, off as int);
        let end = if off + 8 + clen <= data.len() { off + 8 + clen } else { data.len() as nat };
        let body = data.subrange((off + 8) as int, end as int);
        let next = off + 8 + round4(clen);
        if has_tag(data, (off + 4) as int, 0x4A, 0x53, 0x4F, 0x4E) {
            if is_json_document(body) {
                glb_scan(data, next, Some(body), bin)
            } else {
                Err(ContainerError::BadJson)
            }
        } else if has_tag(data, (off + 4) as int, 0x42, 0x49, 0x4E, 0x00) {
            glb_scan(data, next, json, body)
        } else {
            glb_scan(data, next, json, bin)
        }
    }
}

/// What a GLB holds: `Ok((json, bin))`, or why it was rejected.
pub open spec fn glb_spec(data: Seq<u8>) -> Result<(Seq<u8>, Seq<u8>), ContainerError> {
    if !(data.len() > 20 && has_tag(data, 0, 0x67, 0x6C, 0x54, 0x46)) {
        Err(ContainerError::NotGlb)
    } else {
        match glb_scan(data, 12, None, Seq::empty()) {
            Err(e) => Err(e),
            Ok((None, _)) => Err(ContainerError::NoJsonChunk),
            Ok((Some(j), b)) => Ok((j, b)),
        }
    }
}

pub fn read_le_u32(s: &[u8], o: usize) -> (r: u32)
    requires
        o + 4 <= s@.len(),
    ensures
        r == le_u32(s@, o as int),
{
    s[o] as u32 + 256 * (s[o + 1] as u32) + 65536 * (s[o + 2] as u32) + 16777216 * (s[o + 3] as u32)
}

pub fn read_le_u16(s: &[u8], o: usize) -> (r: u16)
    requires
        o + 2 <= s@.len(),
    ensures
        r == le_u16(s@, o as int),
{
    s[o] as u16 + 256 * (s[o + 1] as u16)
}

fn tag_at(s: &[u8], o: usize, a: u8, b: u8, c: u8, d: u8) -> (r: bool)
    requires
        o + 4 <= s@.len(),
    ensures
        r == has_tag(s@, o as int, a, b, c, d),
{
    s[o] == a && s[o + 1] == b && s[o + 2] == c && s[o + 3] == d
}

/// Splits a GLB into its JSON and binary chunks.
pub fn parse_glb(data: &[u8]) -> (r: Result<GlbChunks, ContainerError>)
    ensures
        match glb_spec(data@) {
            Ok((j, b)) => r matches Ok(c) && c.json@ == j && c.bin@ == b,
            Err(e) => r == Err::<GlbChunks, ContainerError>(e),
        },
{
    let len = data.len();
    if !(len > 20 && tag_at(data, 0, 0x67, 0x6C, 0x54, 0x46)) {
        return Err(ContainerError::NotGlb);
    }
    let mut off: u128 = 12;
    let mut json: Option<Vec<u8>> = None;
    let mut bin: Vec<u8> = Vec::new();
    let ghost json_view: Option<Seq<u8>> = None;
    while off + 8 <= len as u128
        invariant
            len == data@.len(),
            len > 20 && has_tag(data@, 0, 0x67, 0x6C, 0x54, 0x46),
            off <= len as u128 + 0x1_0000_0010,
            json_view == (match json {
                Some(v) => Some(v@),
                None => None,
            }),
            glb_scan(data@, off as nat, json_view, bin@) == glb_scan(
                data@,
                12,
                None,
                Seq::empty(),
            ),
        decreases len as u128 + 0x1_0000_0010 - off,
    {
        let o = off as usize;
        let clen = read_le_u32(data, o);
        let end: u128 = if off + 8 + clen as u128 <= len as u128 {
            off + 8 + clen as u128
        } else {
            len as u128
        };
        let body = vstd::slice::slice_subrange(data, o + 8, end as usize);
        let next: u128 = off + 8 + (clen as u128 + 3) / 4 * 4;
        if tag_at(data, o + 4, 0x4A, 0x53, 0x4F, 0x4E) {
            if !json_parses(body) {
                return Err(ContainerError::BadJson);
            }
            json = Some(vstd::slice::slice_to_vec(body));
            proof {
                json_view = Some(body@);
            }
        } else if tag_at(data, o + 4, 0x42, 0x49, 0x4E, 0x00) {
            bin = vstd::slice::slice_to_vec(body);
        }
        off = next;
    }
    match json {
        None => Err(ContainerError::NoJsonChunk),
        Some(j) => Ok(GlbChunks { json: j, bin }),
    }
}

/// Byte offset of the GLB inside a b3dm: the 28-byte header plus the four
/// feature/batch table lengths it declares.
pub open spec fn b3dm_glb_start(bytes: Seq<u8>) -> nat {
    28 + le_u32(bytes, 12) + le_u32(bytes, 16) + le_u32(bytes, 20) + le_u32(bytes, 24)
}

pub open spec fn b3dm_header_ok(bytes: Seq<u8>) -> bool {
    bytes.len() > 28 && has_tag(bytes, 0, 0x62, 0x33, 0x64, 0x6D)
}

/// What a b3dm tile yields: the chunks of the GLB it carries, or why not.
pub open spec fn b3dm_result(bytes: Seq<u8>) -> Result<(Seq<u8>, Seq<u8>), ContainerError> {
    if !b3dm_header_ok(bytes) {
        Err(ContainerError::NotB3dm)
    } else {
        glb_spec(bytes.subrange(b3dm_glb_start(bytes) as int, bytes.len() as int))
    }
}

/// Unwraps the GLB carried by a b3dm tile and splits it into chunks.
pub fn parse_b3dm(bytes: &[u8]) -> (r: Result<GlbChunks, ContainerError>)
    requires
        b3dm_header_ok(bytes@) ==> b3dm_glb_start(bytes@) <= bytes@.len(),
    ensures
        !b3dm_header_ok(bytes@) ==> r == Err::<GlbChunks, ContainerError>(ContainerError::NotB3dm),
        b3dm_header_ok(bytes@) ==> match glb_spec(
            bytes@.subrange(b3dm_glb_start(bytes@) as int, bytes@.len() as int),
        ) {
            Ok((j, b)) => r matches Ok(c) && c.json@ == j && c.bin@ == b,
            Err(e) => r == Err::<GlbChunks, ContainerError>(e),
        },
        match b3dm_result(bytes@) {
            Ok((j, b)) => r matches Ok(c) && c.json@ == j && c.bin@ == b,
            Err(e) => r == Err::<GlbChunks, ContainerError>(e),
        },
{
    if !(bytes.len() > 28 && tag_at(bytes, 0, 0x62, 0x33, 0x64, 0x6D)) {
        return Err(ContainerError::NotB3dm);
    }
    let start = 28 + read_le_u32(bytes, 12) as u64 + read_le_u32(bytes, 16) as u64 + read_le_u32(
        bytes,
        20,
    ) as u64 + read_le_u32(bytes, 24) as u64;
    let glb = vstd::slice::slice_subrange(bytes, start as usize, bytes.len());
    parse_glb(glb)
}

/// Why an accessor could not be laid out or read.
#[derive(Debug, PartialEq, Eq, Structural)]
pub enum AccessorError {
    MissingCount,
    MissingComponentType,
    /// The `type` is not SCALAR, VEC2, VEC3 or VEC4.
    UnknownType,
    MissingBufferView,
    UnknownComponentType,
    /// An index accessor whose component type is not u8, u16 or u32.
    UnknownIndexType,
    /// A position accessor that is not a float3.
    NotFloat3,
    /// A batch-id accessor whose component type is not f32, u16 or u32.
    UnknownBatchIdType,
}

/// The fields of a glTF accessor and of the buffer view it names, as read from
/// the JSON chunk (`None` where a field is absent or not an unsigned integer).
pub struct AccessorDesc {
    pub count: Option<u64>,
    pub component_type: Option<u64>,
    /// The accessor's `type`, empty when absent.
    pub kind: String,
    pub buffer_view: Option<u64>,
    pub view_byte_offset: Option<u64>,
    pub view_byte_stride: Option<u64>,
    pub byte_offset: Option<u64>,
}

/// Where an accessor's elements live in the binary chunk.
#[derive(Clone, Copy, Debug, PartialEq, Eq, Structural)]
pub struct AccessorLayout {
    pub offset: usize,
    pub count: usize,
    pub component_type: usize,
    pub components: usize,
    pub stride: usize,
}

/// Components per element for an accessor `type`.
pub open spec fn components_of(kind: Seq<char>) -> Option<nat> {
    if kind == "SCALAR"@ {
        Some(1)
    } else if kind == "VEC2"@ {
        Some(2)
    } else if kind == "VEC3"@ {
        Some(3)
    } else if kind == "VEC4"@ {
        Some(4)
    } else {
        None
    }
}

/// Bytes per component for a glTF component type.
pub open spec fn component_size(ct: nat) -> Option<nat> {
    if ct == 5120 || ct == 5121 {
        Some(1)
    } else if ct == 5122 || ct == 5123 {
        Some(2)
    } else if ct == 5125 || ct == 5126 {
        Some(4)
    } else {
        None
    }
}

/// The layout of an accessor, or the first missing or unknown field.
pub open spec fn layout_spec(d: &AccessorDesc) -> Result<AccessorLayout, AccessorError> {
    if d.count is None {
        Err(AccessorError::MissingCount)
    } else if d.component_type is None {
        Err(AccessorError::MissingComponentType)
    } else if components_of(d.kind@) is None {
        Err(AccessorError::UnknownType)
    } else if d.buffer_view is None {
        Err(AccessorError::MissingBufferView)
    } else {
        let ct = d.component_type.unwrap() as usize;
        let comps = components_of(d.kind@).unwrap();
        let vo = (match d.view_byte_offset {
            Some(v) => v,
            None => 0,
        }) as usize;
        let ao = (match d.byte_offset {
            Some(v) => v,
            None => 0,
        }) as usize;
        match component_size(ct as nat) {
            None => Err(AccessorError::UnknownComponentType),
            Some(cs) => Ok(
                AccessorLayout {
                    offset: (vo + ao) as usize,
                    count: d.count.unwrap() as usize,
                    component_type: ct,
                    components: comps as usize,
                    stride: (match d.view_byte_stride {
                        Some(v) => v,
                        None => (cs * comps) as u64,
                    }) as usize,
                },
            ),
        }
    }
}

/// Whether the two byte offsets of an accessor add up within `usize`.
pub open spec fn offsets_fit(d: &AccessorDesc) -> bool {
    (match d.view_byte_offset {
        Some(v) => v,
        None => 0,
    }) as usize + (match d.byte_offset {
        Some(v) => v,
        None => 0,
    }) as usize <= usize::MAX
}

fn kind_is(kind: &String, lit: &str) -> (r: bool)
    ensures
        r == (kind@ == lit@),
{
    *kind == String::from_str(lit)
}

fn opt_or_zero(v: Option<u64>) -> (r: u64)
    ensures
        r == (match v {
            Some(x) => x,
            None => 0,
        }),
{
    match v {
        Some(x) => x,
        None => 0,
    }
}

/// Lays out an accessor from its JSON fields.
pub fn accessor_layout(d: &AccessorDesc) -> (r: Result<AccessorLayout, AccessorError>)
    requires
        d.buffer_view is Some ==> offsets_fit(d),
    ensures
        r == layout_spec(d),
{
    let count = match d.count {
        Some(c) => c,
        None => return Err(AccessorError::MissingCount),
    };
    let ct = match d.component_type {
        Some(c) => c as usize,
        None => return Err(AccessorError::MissingComponentType),
    };
    let comps: usize = if kind_is(&d.kind, "SCALAR") {
        1
    } else if kind_is(&d.kind, "VEC2") {
        2
    } else if kind_is(&d.kind, "VEC3") {
        3
    } else if kind_is(&d.kind, "VEC4") {
        4
    } else {
        return Err(AccessorError::UnknownType);
    };
    if d.buffer_view.is_none() {
        return Err(AccessorError::MissingBufferView);
    }
    let vo = opt_or_zero(d.view_byte_offset) as usize;
    let ao = opt_or_zero(d.byte_offset) as usize;
    let cs: usize = if ct == 5120 || ct == 5121 {
        1
    } else if ct == 5122 || ct == 5123 {
        2
    } else if ct == 5125 || ct == 5126 {
        4
    } else {
        return Err(AccessorError::UnknownComponentType);
    };
    let stride = match d.view_byte_stride {
        Some(v) => v as usize,
        None => ((cs * comps) as u64) as usize,
    };
    Ok(AccessorLayout { offset: vo + ao, count: count as usize, component_type: ct, components: comps, stride })
}

pub open spec fn is_index_type(ct: nat) -> bool {
    ct == 5121 || ct == 5123 || ct == 5125
}

pub open spec fn index_width(ct: nat) -> nat {
    if ct == 5121 {
        1
    } else if ct == 5123 {
        2
    } else {
        4
    }
}

/// The index stored at byte `p` with component type `ct`.
pub open spec fn index_value(bin: Seq<u8>, p: int, ct: nat) -> nat {
    if ct == 5121 {
        bin[p] as nat
    } else if ct == 5123 {
        le_u16(bin, p)
    } else {
        le_u32(bin, p)
    }
}

/// Every element an index read touches lies inside the binary chunk.
pub open spec fn indices_in_bounds(bin_len: nat, l: AccessorLayout) -> bool {
    l.count == 0 || !is_index_type(l.component_type as nat) || l.offset + (l.count - 1) * l.stride
        + index_width(l.component_type as nat) <= bin_len
}

/// Decodes an index accessor: element `i` is read at `offset + i * stride`.
pub fn read_indices(bin: &[u8], l: AccessorLayout) -> (r: Result<Vec<u32>, AccessorError>)
    requires
        indices_in_bounds(bin@.len(), l),
    ensures
        l.count > 0 && !is_index_type(l.component_type as nat) ==> r == Err::<
            Vec<u32>,
            AccessorError,
        >(AccessorError::UnknownIndexType),
        l.count == 0 || is_index_type(l.component_type as nat) ==> (r matches Ok(v) && v@.len()
            == l.count && forall|i: int|
            0 <= i < l.count ==> #[trigger] v@[i] == index_value(
                bin@,
                l.offset + i * l.stride,
                l.component_type as nat,
            )),
{
    let ct = l.component_type;
    if l.count > 0 && !(ct == 5121 || ct == 5123 || ct == 5125) {
        return Err(AccessorError::UnknownIndexType);
    }
    let mut out: Vec<u32> = Vec::new();
    let mut i: usize = 0;
    let blen = bin.len();
    while i < l.count
        invariant
            blen == bin@.len(),
            i <= l.count,
            ct == l.component_type,
            l.count == 0 || is_index_type(ct as nat),
            indices_in_bounds(bin@.len(), l),
            out@.len() == i,
            forall|k: int|
                0 <= k < i ==> #[trigger] out@[k] == index_value(
                    bin@,
                    l.offset + k * l.stride,
                    ct as nat,
                ),
        decreases l.count - i,
    {
        proof {
            let (a, b, c) = (i as int, l.count as int, l.stride as int);
            assert(a * c <= (b - 1) * c) by (nonlinear_arith)
                requires
                    0 <= a < b,
                    0 <= c,
            ;
        }
        let p = l.offset + i * l.stride;
        let v: u32 = if ct == 5121 {
            bin[p] as u32
        } else if ct == 5123 {
            read_le_u16(bin, p) as u32
        } else {
            read_le_u32(bin, p)
        };
        out.push(v);
        i = i + 1;
    }
    Ok(out)
}

/// Appends `local` shifted by `base`: a primitive's indices rebased onto the
/// vertices already in the merged mesh.
pub fn append_rebased(out: &mut Vec<u32>, base: u32, local: &[u32])
    requires
        forall|i: int| 0 <= i < local@.len() ==> base + #[trigger] local@[i] <= u32::MAX,
    ensures
        final(out)@.len() == old(out)@.len() + local@.len(),
        final(out)@.subrange(0, old(out)@.len() as int) == old(out)@,
        forall|i: int|
            0 <= i < local@.len() ==> #[trigger] final(out)@[old(out)@.len() + i] == base + local@[i],
{
    let ghost start = out@;
    let mut i: usize = 0;
    while i < local.len()
        invariant
            i <= local@.len(),
            forall|k: int| 0 <= k < local@.len() ==> base + #[trigger] local@[k] <= u32::MAX,
            out@.len() == start.len() + i,
            out@.subrange(0, start.len() as int) == start,
            forall|k: int| 0 <= k < i ==> #[trigger] out@[start.len() + k] == base + local@[k],
        decreases local@.len() - i,
    {
        out.push(base + local[i]);
        i = i + 1;
        proof {
            assert(out@.subrange(0, start.len() as int) =~= start);
        }
    }
}

/// Appends `base, base + 1, ..., base + n - 1`: the implicit indices of a
/// primitive without an index accessor.
pub fn append_sequential(out: &mut Vec<u32>, base: u32, n: u32)
    requires
        base + n <= u32::MAX + 1,
    ensures
        final(out)@.len() == old(out)@.len() + n,
        final(out)@.subrange(0, old(out)@.len() as int) == old(out)@,
        forall|i: int| 0 <= i < n ==> #[trigger] final(out)@[old(out)@.len() + i] == base + i,
{
    let ghost start = out@;
    let mut i: u32 = 0;
    while i < n
        invariant
            i <= n,
            base + n <= u32::MAX + 1,
            out@.len() == start.len() + i,
            out@.subrange(0, start.len() as int) == start,
            forall|k: int| 0 <= k < i ==> #[trigger] out@[start.len() + k] == base + k,
        decreases n - i,
    {
        out.push(base + i);
        i = i + 1;
        proof {
            assert(out@.subrange(0, start.len() as int) =~= start);
        }
    }
}

/// Element `i` of a float3 accessor as raw IEEE-754 bit patterns.
pub open spec fn vec3_bits_at(bin: Seq<u8>, l: AccessorLayout, i: int) -> [u32; 3] {
    let p = l.offset + i * l.stride;
    [le_u32(bin, p) as u32, le_u32(bin, p + 4) as u32, le_u32(bin, p + 8) as u32]
}

/// Every float3 element lies inside the binary chunk.
pub open spec fn vec3_in_bounds(bin_len: nat, l: AccessorLayout) -> bool {
    l.count == 0 || !(l.component_type == 5126 && l.components == 3) || l.offset + (l.count - 1)
        * l.stride + 12 <= bin_len
}

/// Reads a POSITION accessor: `count` float3 elements, each returned as the
/// three little-endian bit patterns (the caller turns them into `f32`).
pub fn read_vec3_bits(bin: &[u8], l: AccessorLayout) -> (r: Result<Vec<[u32; 3]>, AccessorError>)
    requires
        vec3_in_bounds(bin@.len(), l),
    ensures
        !(l.component_type == 5126 && l.components == 3) ==> r == Err::<
            Vec<[u32; 3]>,
            AccessorError,
        >(AccessorError::NotFloat3),
        l.component_type == 5126 && l.components == 3 ==> (r matches Ok(v) && v@.len() == l.count
            && forall|i: int| 0 <= i < l.count ==> #[trigger] v@[i] == vec3_bits_at(bin@, l, i)),
{
    if !(l.component_type == 5126 && l.components == 3) {
        return Err(AccessorError::NotFloat3);
    }
    let mut out: Vec<[u32; 3]> = Vec::new();
    let mut i: usize = 0;
    let blen = bin.len();
    while i < l.count
        invariant
            blen == bin@.len(),
            i <= l.count,
            l.component_type == 5126 && l.components == 3,
            vec3_in_bounds(bin@.len(), l),
            out@.len() == i,
            forall|k: int| 0 <= k < i ==> #[trigger] out@[k] == vec3_bits_at(bin@, l, k),
        decreases l.count - i,
    {
        proof {
            let (a, b, c) = (i as int, l.count as int, l.stride as int);
            assert(a * c <= (b - 1) * c) by (nonlinear_arith)
                requires
                    0 <= a < b,
                    0 <= c,
            ;
        }
        let p = l.offset + i * l.stride;
        let e = [read_le_u32(bin, p), read_le_u32(bin, p + 4), read_le_u32(bin, p + 8)];
        assert(e == vec3_bits_at(bin@, l, i as int));
        out.push(e);
        i = i + 1;
    }
    Ok(out)
}

/// A batch id as stored: a float bit pattern (component type 5126) or an
/// unsigned integer (5123, 5125).
#[derive(Clone, Copy, Debug, PartialEq, Eq, Structural)]
pub enum BatchId {
    FloatBits(u32),
    Int(u32),
}

pub open spec fn is_batch_type(ct: nat) -> bool {
    ct == 5126 || ct == 5123 || ct == 5125
}

pub open spec fn batch_width(ct: nat) -> nat {
    if ct == 5123 {
        2
    } else {
        4
    }
}

pub open spec fn batch_id_at(bin: Seq<u8>, p: int, ct: nat) -> BatchId {
    if ct == 5126 {
        BatchId::FloatBits(le_u32(bin, p) as u32)
    } else if ct == 5123 {
        BatchId::Int(le_u16(bin, p) as u32)
    } else {
        BatchId::Int(le_u32(bin, p) as u32)
    }
}

pub open spec fn batch_in_bounds(bin_len: nat, l: AccessorLayout) -> bool {
    l.count == 0 || !is_batch_type(l.component_type as nat) || l.offset + (l.count - 1) * l.stride
        + batch_width(l.component_type as nat) <= bin_len
}

/// Reads a `_BATCHID` accessor.
pub fn read_batch_ids(bin: &[u8], l: AccessorLayout) -> (r: Result<Vec<BatchId>, AccessorError>)
    requires
        batch_in_bounds(bin@.len(), l),
    ensures
        l.count > 0 && !is_batch_type(l.component_type as nat) ==> r == Err::<
            Vec<BatchId>,
            AccessorError,
        >(AccessorError::UnknownBatchIdType),
        l.count == 0 || is_batch_type(l.component_type as nat) ==> (r matches Ok(v) && v@.len()
            == l.count && forall|i: int|
            0 <= i < l.count ==> #[trigger] v@[i] == batch_id_at(
                bin@,
                l.offset + i * l.stride,
                l.component_type as nat,
            )),
{
    let ct = l.component_type;
    if l.count > 0 && !(ct == 5126 || ct == 5123 || ct == 5125) {
        return Err(AccessorError::UnknownBatchIdType);
    }
    let mut out: Vec<BatchId> = Vec::new();
    let mut i: usize = 0;
    let blen = bin.len();
    while i < l.count
        invariant
            blen == bin@.len(),
            i <= l.count,
            ct == l.component_type,
            l.count == 0 || is_batch_type(ct as nat),
            batch_in_bounds(bin@.len(), l),
            out@.len() == i,
            forall|k: int|
                0 <= k < i ==> #[trigger] out@[k] == batch_id_at(
                    bin@,
                    l.offset + k * l.stride,
                    ct as nat,
                ),
        decreases l.count - i,
    {
        proof {
            let (a, b, c) = (i as int, l.count as int, l.stride as int);
            assert(a * c <= (b - 1) * c) by (nonlinear_arith)
                requires
                    0 <= a < b,
                    0 <= c,
            ;
        }
        let p = l.offset + i * l.stride;
        let v = if ct == 5126 {
            BatchId::FloatBits(read_le_u32(bin, p))
        } else if ct == 5123 {
            BatchId::Int(read_le_u16(bin, p) as u32)
        } else {
            BatchId::Int(read_le_u32(bin, p))
        };
        out.push(v);
        i = i + 1;
    }
    Ok(out)
}

/// The parts of a glTF mesh primitive the city loader reads: its draw mode
/// and the accessors behind `POSITION`, `_BATCHID` and `indices` (`None`
/// where absent or not an unsigned integer).
pub struct PrimitiveDesc {
    pub mode: Option<u64>,
    pub position: Option<AccessorDesc>,
    pub batch_id: Option<AccessorDesc>,
    pub indices: Option<AccessorDesc>,
}

/// What one primitive contributes: its positions as float bit patterns, its
/// batch ids when they read, and its index list (`Ok(None)` without an index
/// accessor, the error when the index accessor does not read).
pub struct PrimitiveData {
    pub positions: Vec<[u32; 3]>,
    pub batch_ids: Option<Vec<BatchId>>,
    pub indices: Result<Option<Vec<u32>>, AccessorError>,
}

/// A primitive is merged when it is a triangle list (mode 4, the glTF
/// default) and has a `POSITION` accessor.
pub open spec fn primitive_used(p: &PrimitiveDesc) -> bool {
    (match p.mode {
        Some(m) => m,
        None => 4,
    }) == 4 && p.position is Some
}

/// An accessor whose layout can be computed without overflow and whose
/// elements, if it lays out, satisfy `inb`.
pub open spec fn desc_in_bounds(
    d: AccessorDesc,
    bin_len: nat,
    inb: spec_fn(nat, AccessorLayout) -> bool,
) -> bool {
    &&& d.buffer_view is Some ==> offsets_fit(&d)
    &&& layout_spec(&d) matches Ok(l) ==> inb(bin_len, l)
}

/// Every read the primitive leads to stays inside the binary chunk.
pub open spec fn primitive_in_bounds(bin_len: nat, p: &PrimitiveDesc) -> bool {
    primitive_used(p) ==> {
        let d = p.position.unwrap();
        &&& desc_in_bounds(d, bin_len, |n: nat, l: AccessorLayout| vec3_in_bounds(n, l))
        &&& (layout_spec(&d) matches Ok(l) && l.component_type == 5126 && l.components == 3) ==> {
            &&& p.batch_id matches Some(b) ==> desc_in_bounds(
                b,
                bin_len,
                |n: nat, l: AccessorLayout| batch_in_bounds(n, l),
            )
            &&& p.indices matches Some(x) ==> desc_in_bounds(
                x,
                bin_len,
                |n: nat, l: AccessorLayout| indices_in_bounds(n, l),
            )
        }
    }
}

/// The batch ids a primitive yields: `None` without a `_BATCHID` accessor or
/// when it does not lay out or has an unknown component type.
pub open spec fn batch_ids_ok(bin: Seq<u8>, d: Option<AccessorDesc>, r: Option<Vec<BatchId>>) -> bool {
    match d {
        None => r is None,
        Some(b) => match layout_spec(&b) {
            Err(_) => r is None,
            Ok(l) => if l.count > 0 && !is_batch_type(l.component_type as nat) {
                r is None
            } else {
                r matches Some(v) && v@.len() == l.count && forall|i: int|
                    0 <= i < l.count ==> #[trigger] v@[i] == batch_id_at(
                        bin,
                        l.offset + i * l.stride,
                        l.component_type as nat,
                    )
            },
        },
    }
}

/// The index list a primitive yields.
pub open spec fn indices_ok(
    bin: Seq<u8>,
    d: Option<AccessorDesc>,
    r: Result<Option<Vec<u32>>, AccessorError>,
) -> bool {
    match d {
        None => r matches Ok(None),
        Some(x) => match layout_spec(&x) {
            Err(e) => r == Err::<Option<Vec<u32>>, AccessorError>(e),
            Ok(l) => if l.count > 0 && !is_index_type(l.component_type as nat) {
                r == Err::<Option<Vec<u32>>, AccessorError>(AccessorError::UnknownIndexType)
            } else {
                r matches Ok(Some(v)) && v@.len() == l.count && forall|i: int|
                    0 <= i < l.count ==> #[trigger] v@[i] == index_value(
                        bin,
                        l.offset + i * l.stride,
                        l.component_type as nat,
                    )
            },
        },
    }
}

/// Reads one mesh primitive: `Ok(None)` for a primitive that is not merged,
/// the error when its positions do not read (which rejects the tile), else
/// its positions, batch ids and index list.
pub fn read_primitive(bin: &[u8], p: &PrimitiveDesc) -> (r: Result<Option<PrimitiveData>, AccessorError>)
    requires
        primitive_in_bounds(bin@.len(), p),
    ensures
        !primitive_used(p) ==> r matches Ok(None),
        primitive_used(p) ==> match layout_spec(&p.position.unwrap()) {
            Err(e) => r == Err::<Option<PrimitiveData>, AccessorError>(e),
            Ok(l) => if !(l.component_type == 5126 && l.components == 3) {
                r == Err::<Option<PrimitiveData>, AccessorError>(AccessorError::NotFloat3)
            } else {
                r matches Ok(Some(data)) && data.positions@.len() == l.count && (forall|i: int|
                    0 <= i < l.count ==> #[trigger] data.positions@[i] == vec3_bits_at(bin@, l, i))
                    && batch_ids_ok(bin@, p.batch_id, data.batch_ids) && indices_ok(
                    bin@,
                    p.indices,
                    data.indices,
                )
            },
        },
{
    let mode = match p.mode {
        Some(m) => m,
        None => 4,
    };
    if mode != 4 {
        return Ok(None);
    }
    let pos = match &p.position {
        None => return Ok(None),
        Some(d) => d,
    };
    let lp = match accessor_layout(pos) {
        Err(e) => return Err(e),
        Ok(l) => l,
    };
    let positions = match read_vec3_bits(bin, lp) {
        Err(e) => return Err(e),
        Ok(v) => v,
    };
    let batch_ids = match &p.batch_id {
        None => None,
        Some(b) => match accessor_layout(b) {
            Err(_) => None,
            Ok(lb) => match read_batch_ids(bin, lb) {
                Err(_) => None,
                Ok(v) => Some(v),
            },
        },
    };
    let indices = match &p.indices {
        None => Ok(None),
        Some(x) => match accessor_layout(x) {
            Err(e) => Err(e),
            Ok(li) => match read_indices(bin, li) {
                Err(e) => Err(e),
                Ok(v) => Ok(Some(v)),
            },
        },
    };
    Ok(Some(PrimitiveData { positions, batch_ids, indices }))
}

/// Law: a b3dm tile made of a 28-byte header (magic `b3dm`, the four table
/// lengths at bytes 12, 16, 20 and 24), the four tables of those lengths and
/// a GLB yields exactly what that GLB yields on its own.
pub proof fn b3dm_unwraps_glb(
    header: Seq<u8>,
    ftj: Seq<u8>,
    ftb: Seq<u8>,
    btj: Seq<u8>,
    btb: Seq<u8>,
    glb: Seq<u8>,
)
    requires
        header.len() == 28,
        header[0] == 0x62 && header[1] == 0x33 && header[2] == 0x64 && header[3] == 0x6D,
        header[12] + 256 * header[13] + 65536 * header[14] + 16777216 * header[15] == ftj.len(),
        header[16] + 256 * header[17] + 65536 * header[18] + 16777216 * header[19] == ftb.len(),
        header[20] + 256 * header[21] + 65536 * header[22] + 16777216 * header[23] == btj.len(),
        header[24] + 256 * header[25] + 65536 * header[26] + 16777216 * header[27] == btb.len(),
        glb.len() > 0,
    ensures
        b3dm_result(header + ftj + ftb + btj + btb + glb) == glb_spec(glb),
        b3dm_header_ok(header + ftj + ftb + btj + btb + glb),
        b3dm_glb_start(header + ftj + ftb + btj + btb + glb) <= (header + ftj + ftb + btj + btb
            + glb).len(),
{
    let bytes = header + ftj + ftb + btj + btb + glb;
    assert forall|k: int| 0 <= k < 28 implies bytes[k] == header[k] by {}
    let start = 28 + ftj.len() + ftb.len() + btj.len() + btb.len();
    assert(b3dm_glb_start(bytes) == start);
    assert(bytes.subrange(start as int, bytes.len() as int) =~= glb);
}

/// Law: without a `byteStride` an accessor's elements are packed. The stride
/// is the component size in bytes (1 for BYTE and UNSIGNED_BYTE, 2 for SHORT
/// and UNSIGNED_SHORT, 4 for UNSIGNED_INT and FLOAT) times the component
/// count of its type (SCALAR 1, VEC2 2, VEC3 3, VEC4 4); the offset is the
/// buffer view's offset plus the accessor's, and the count is the declared
/// one (each taken as `usize`). Every such accessor with a count, a buffer
/// view, a known type and a known component type lays out.
pub proof fn accessor_packed_layout(d: AccessorDesc)
    requires
        d.view_byte_stride is None,
        d.count is Some,
        d.buffer_view is Some,
        offsets_fit(&d),
    ensures
        ({
            let n: int = if d.kind@ == "SCALAR"@ {
                1
            } else if d.kind@ == "VEC2"@ {
                2
            } else if d.kind@ == "VEC3"@ {
                3
            } else if d.kind@ == "VEC4"@ {
                4
            } else {
                0
            };
            let size: int = match d.component_type {
                Some(ct) => if ct == 5120 || ct == 5121 {
                    1
                } else if ct == 5122 || ct == 5123 {
                    2
                } else if ct == 5125 || ct == 5126 {
                    4
                } else {
                    0
                },
                None => 0,
            };
            n > 0 && size > 0 ==> (layout_spec(&d) matches Ok(l) && l.stride == size * n
                && l.components == n && l.count == d.count.unwrap() as usize && l.component_type
                == d.component_type.unwrap() && l.offset == (match d.view_byte_offset {
                Some(v) => v as usize,
                None => 0usize,
            }) + (match d.byte_offset {
                Some(v) => v as usize,
                None => 0usize,
            }))
        }),
{
    reveal_strlit("SCALAR");
    reveal_strlit("VEC2");
    reveal_strlit("VEC3");
    reveal_strlit("VEC4");
}

/// Law: how batch ids and indices are read from their bytes. UNSIGNED_INT
/// (5125) and UNSIGNED_SHORT (5123) batch ids are integer ids, FLOAT (5126)
/// ones are float bit patterns; all little-endian. Indices of
/// UNSIGNED_BYTE, UNSIGNED_SHORT and UNSIGNED_INT are the byte, the
/// little-endian 16-bit and the little-endian 32-bit value.
pub proof fn element_decoding(bin: Seq<u8>, p: int)
    ensures
        batch_id_at(bin, p, 5125) == BatchId::Int(
            (bin[p] + 256 * bin[p + 1] + 65536 * bin[p + 2] + 16777216 * bin[p + 3]) as u32,
        ),
        batch_id_at(bin, p, 5123) == BatchId::Int((bin[p] + 256 * bin[p + 1]) as u32),
        batch_id_at(bin, p, 5126) == BatchId::FloatBits(
            (bin[p] + 256 * bin[p + 1] + 65536 * bin[p + 2] + 16777216 * bin[p + 3]) as u32,
        ),
        index_value(bin, p, 5121) == bin[p],
        index_value(bin, p, 5123) == bin[p] + 256 * bin[p + 1],
        index_value(bin, p, 5125) == bin[p] + 256 * bin[p + 1] + 65536 * bin[p + 2] + 16777216
            * bin[p + 3],
{
}

} // verus!
