//! The binary point-cloud codec: a PLY file with an ASCII header and
//! fixed-size 59-byte little-endian records.
//!
//! The header is newline-terminated ASCII text closed by the line
//! `end_header`; it declares the vertex count. The body is exactly one
//! 59-byte record per point: position (12 bytes), a zero normal (12),
//! color (3), opacity (4), scale (12) and rotation (16), all little-endian.
use vstd::prelude::*;
use vstd::bytes::{spec_u32_to_le_bytes, spec_u32_from_le_bytes, lemma_auto_spec_u32_to_from_le_bytes, u32_to_le_bytes, u32_from_le_bytes};
use vstd::slice::slice_subrange;
use crate::cloud::{GaussianCloud, Float3, Quat, Color3, SplatRecord};
use crate::error::Error;
use crate::text::{lit_bytes, dec_digits, dec_value, digits_part, is_digit, all_digits, push_ascii, push_decimal, bytes_match_at, parse_usize, lemma_dec_digits_shape, lemma_dec_digits_value};

verus! {

/// The number of bytes of one point record.
pub const RECORD_SIZE: usize = 59;

/// The bytes of one record: the field layout of the binary format.
pub open spec fn record_bytes(r: SplatRecord) -> Seq<u8> {
    spec_u32_to_le_bytes(r.position.x) + spec_u32_to_le_bytes(r.position.y)
        + spec_u32_to_le_bytes(r.position.z) + spec_u32_to_le_bytes(0) + spec_u32_to_le_bytes(0)
        + spec_u32_to_le_bytes(0) + seq![r.color.r, r.color.g, r.color.b] + spec_u32_to_le_bytes(
        r.opacity,
    ) + spec_u32_to_le_bytes(r.scale.x) + spec_u32_to_le_bytes(r.scale.y) + spec_u32_to_le_bytes(
        r.scale.z,
    ) + spec_u32_to_le_bytes(r.rotation.w) + spec_u32_to_le_bytes(r.rotation.x)
        + spec_u32_to_le_bytes(r.rotation.y) + spec_u32_to_le_bytes(r.rotation.z)
}

/// The concatenated records of the binary body.
pub open spec fn body_bytes(rs: Seq<SplatRecord>) -> Seq<u8>
    decreases rs.len(),
{
    if rs.len() == 0 {
        Seq::empty()
    } else {
        body_bytes(rs.drop_last()) + record_bytes(rs.last())
    }
}

/// The complete file: header with the record count, then the body.
pub open spec fn ply_bytes(rs: Seq<SplatRecord>) -> Seq<u8> {
    header_prefix() + dec_digits(rs.len()) + header_suffix() + body_bytes(rs)
}

/// Each record encodes to exactly `RECORD_SIZE` bytes.
pub proof fn lemma_record_bytes_len(r: SplatRecord)
    ensures
        record_bytes(r).len() == RECORD_SIZE,
{
    lemma_auto_spec_u32_to_from_le_bytes();
}

/// The body holds `RECORD_SIZE` bytes per record.
pub proof fn lemma_body_bytes_len(rs: Seq<SplatRecord>)
    ensures
        body_bytes(rs).len() == RECORD_SIZE * rs.len(),
    decreases rs.len(),
{
    if rs.len() > 0 {
        lemma_body_bytes_len(rs.drop_last());
        lemma_record_bytes_len(rs.last());
    }
}

/// The marker line that closes the header.
pub open spec fn end_marker() -> Seq<u8> {
    lit_bytes("end_header"@)
}

/// The header text before the vertex count.
pub open spec fn header_prefix() -> Seq<u8> {
    lit_bytes("ply\nformat binary_little_endian 1.0\nelement vertex "@)
}

/// The header text after the vertex count: the property list and the
/// end-of-header marker, each on its own line.
pub open spec fn header_suffix() -> Seq<u8> {
    lit_bytes(
        "\nproperty float x\nproperty float y\nproperty float z\nproperty float nx\nproperty float ny\nproperty float nz\nproperty uchar red\nproperty uchar green\nproperty uchar blue\nproperty float opacity\nproperty float scale_0\nproperty float scale_1\nproperty float scale_2\nproperty float rot_0\nproperty float rot_1\nproperty float rot_2\nproperty float rot_3\nend_header\n"@,
    )
}

/// True when the end-of-header marker stands at position `i` of `b`.
pub open spec fn is_end_at(b: Seq<u8>, i: int) -> bool {
    0 <= i && i + 10 <= b.len() && b.subrange(i, i + 10) == end_marker()
}

#[verifier::rlimit(60)]
#[verifier::spinoff_prover]
proof fn lemma_header_shape()
    ensures
        end_marker().len() == 10,
        header_prefix().len() == 51,
        header_suffix().len() == 353,
        forall|j: int| 0 <= j < 10 ==> end_marker()[j] != 10 && !is_digit(#[trigger] end_marker()[j]),
        header_suffix().subrange(342, 352) == end_marker(),
        forall|i: int| 0 <= i < 42 ==> !is_end_at(header_prefix(), i),
        forall|i: int| 0 <= i < 342 ==> !is_end_at(header_suffix(), i),
{
    reveal_strlit("end_header");
    reveal_strlit("ply\nformat binary_little_endian 1.0\nelement vertex ");
    reveal_strlit(
        "\nproperty float x\nproperty float y\nproperty float z\nproperty float nx\nproperty float ny\nproperty float nz\nproperty uchar red\nproperty uchar green\nproperty uchar blue\nproperty float opacity\nproperty float scale_0\nproperty float scale_1\nproperty float scale_2\nproperty float rot_0\nproperty float rot_1\nproperty float rot_2\nproperty float rot_3\nend_header\n",
    );
    assert(end_marker().len() == 10);
    assert(header_prefix().len() == 51);
    assert(header_suffix().len() == 353);
    assert(header_suffix().subrange(342, 352) =~= end_marker());
    assert(end_marker()[3] == 95 && end_marker()[4] == 104);
    let p = header_prefix();
    assert forall|i: int| 0 <= i < 42 implies !is_end_at(p, i) by {
        if is_end_at(p, i) {
            assert(p.subrange(i, i + 10)[3] == end_marker()[3]);
            assert(p.subrange(i, i + 10)[4] == end_marker()[4]);
            assert(p[i + 3] == 95 && p[i + 4] == 104);
            assert(false);
        }
    }
    let s = header_suffix();
    assert forall|i: int| 0 <= i < 342 implies !is_end_at(s, i) by {
        if is_end_at(s, i) {
            assert(s.subrange(i, i + 10)[3] == end_marker()[3]);
            assert(s.subrange(i, i + 10)[4] == end_marker()[4]);
            assert(s[i + 3] == 95 && s[i + 4] == 104);
            assert(false);
        }
    }
}

/// Appends the four little-endian bytes of `x`.
fn push_u32_le(out: &mut Vec<u8>, x: u32)
    ensures
        final(out)@ == old(out)@ + spec_u32_to_le_bytes(x),
{
    let mut b = u32_to_le_bytes(x);
    out.append(&mut b);
}

/// Appends the 59 bytes of one record.
fn push_record(out: &mut Vec<u8>, r: SplatRecord)
    ensures
        final(out)@ == old(out)@ + record_bytes(r),
{
    push_u32_le(out, r.position.x);
    push_u32_le(out, r.position.y);
    push_u32_le(out, r.position.z);
    push_u32_le(out, 0);
    push_u32_le(out, 0);
    push_u32_le(out, 0);
    out.push(r.color.r);
    out.push(r.color.g);
    out.push(r.color.b);
    push_u32_le(out, r.opacity);
    push_u32_le(out, r.scale.x);
    push_u32_le(out, r.scale.y);
    push_u32_le(out, r.scale.z);
    push_u32_le(out, r.rotation.w);
    push_u32_le(out, r.rotation.x);
    push_u32_le(out, r.rotation.y);
    push_u32_le(out, r.rotation.z);
    proof {
        assert(out@ =~= old(out)@ + record_bytes(r));
    }
}

impl GaussianCloud {
    /// Serializes the cloud into the binary format: the header carries the
    /// real point count, and each point becomes one record in order. The
    /// spherical-harmonics coefficients, if present, are not written.
    /// Serialization itself cannot fail; the `Result` mirrors the signature
    /// callers consume.
    pub fn to_ply(&self) -> (r: Result<Vec<u8>, Error>)
        requires
            self.positions@.len() >= self.count,
            self.scales@.len() >= self.count,
            self.rotations@.len() >= self.count,
            self.colors@.len() >= self.count,
            self.opacity@.len() >= self.count,
        ensures
            (r matches Ok(v) && v@ == ply_bytes(self.records())),
    {
        let mut out: Vec<u8> = Vec::new();
        push_ascii(&mut out, "ply\nformat binary_little_endian 1.0\nelement vertex ");
        push_decimal(&mut out, self.count as u64);
        push_ascii(
            &mut out,
            "\nproperty float x\nproperty float y\nproperty float z\nproperty float nx\nproperty float ny\nproperty float nz\nproperty uchar red\nproperty uchar green\nproperty uchar blue\nproperty float opacity\nproperty float scale_0\nproperty float scale_1\nproperty float scale_2\nproperty float rot_0\nproperty float rot_1\nproperty float rot_2\nproperty float rot_3\nend_header\n",
        );
        let ghost header = out@;
        proof {
            assert(self.records().len() == self.count);
            assert(header =~= header_prefix() + dec_digits(self.count as nat) + header_suffix());
            assert(body_bytes(self.records().subrange(0, 0)) =~= Seq::<u8>::empty());
            assert(out@ =~= header + body_bytes(self.records().subrange(0, 0)));
        }
        let mut i: usize = 0;
        while i < self.count
            invariant
                self.positions@.len() >= self.count,
                self.scales@.len() >= self.count,
                self.rotations@.len() >= self.count,
                self.colors@.len() >= self.count,
                self.opacity@.len() >= self.count,
                0 <= i <= self.count,
                out@ == header + body_bytes(self.records().subrange(0, i as int)),
                header == header_prefix() + dec_digits(self.count as nat) + header_suffix(),
            decreases self.count - i,
        {
            let rec = SplatRecord {
                position: self.positions[i],
                scale: self.scales[i],
                rotation: self.rotations[i],
                color: self.colors[i],
                opacity: self.opacity[i],
            };
            push_record(&mut out, rec);
            proof {
                let rs = self.records();
                assert(rs[i as int] == rec);
                assert(rs.subrange(0, i as int + 1).drop_last() =~= rs.subrange(0, i as int));
                assert(rs.subrange(0, i as int + 1).last() == rec);
                assert(body_bytes(rs.subrange(0, i as int + 1)) == body_bytes(
                    rs.subrange(0, i as int),
                ) + record_bytes(rec));
                assert(out@ =~= header + body_bytes(rs.subrange(0, i as int + 1)));
            }
            i += 1;
        }
        proof {
            assert(self.records().subrange(0, self.count as int) =~= self.records());
            assert(out@ =~= ply_bytes(self.records()));
        }
        Ok(out)
    }
}

/// True when the marker stands at `h` and nowhere earlier: the position the
/// decoder locates.
pub open spec fn found_end(b: Seq<u8>, h: int) -> bool {
    is_end_at(b, h) && forall|j: int| 0 <= j < h ==> !is_end_at(b, j)
}

/// True when the marker stands somewhere in `b`.
pub open spec fn has_end(b: Seq<u8>) -> bool {
    exists|i: int| is_end_at(b, i)
}

/// The first position of the marker (meaningful only when `has_end`).
pub open spec fn end_pos(b: Seq<u8>) -> int {
    choose|h: int| found_end(b, h)
}

proof fn lemma_least_end_from(b: Seq<u8>, w: int)
    requires
        is_end_at(b, w),
    ensures
        exists|h: int| found_end(b, h),
    decreases w,
{
    if exists|j: int| 0 <= j < w && is_end_at(b, j) {
        let j = choose|j: int| 0 <= j < w && is_end_at(b, j);
        lemma_least_end_from(b, j);
    } else {
        assert(found_end(b, w));
    }
}

/// When the marker occurs at all, the decoder's position is its first
/// occurrence, and that position is unique.
pub proof fn lemma_end_pos(b: Seq<u8>)
    requires
        has_end(b),
    ensures
        found_end(b, end_pos(b)),
{
    let w = choose|i: int| is_end_at(b, i);
    lemma_least_end_from(b, w);
    let h = choose|h: int| found_end(b, h);
    assert(found_end(b, h));
}

proof fn lemma_found_end_unique(b: Seq<u8>, h1: int, h2: int)
    requires
        found_end(b, h1),
        found_end(b, h2),
    ensures
        h1 == h2,
{
}

/// True when byte `b` is ASCII whitespace, as the header tokenizer sees it.
pub open spec fn is_ws(b: u8) -> bool {
    b == 9 || b == 10 || b == 11 || b == 12 || b == 13 || b == 32
}

/// The position of the newline that ends the line holding position `i`, or
/// the end of `h` when no newline follows.
pub open spec fn line_end(h: Seq<u8>, i: int) -> int
    decreases h.len() - i,
    when 0 <= i <= h.len()
{
    if i >= h.len() {
        i
    } else if h[i] == 10 {
        i
    } else {
        line_end(h, i + 1)
    }
}

/// A line runs from its start to its ending newline: the end lies in range,
/// sits on a newline unless it is the end of the text, and nothing before it
/// is a newline.
pub proof fn lemma_line_end_bounds(h: Seq<u8>, i: int)
    requires
        0 <= i <= h.len(),
    ensures
        i <= line_end(h, i) <= h.len(),
        line_end(h, i) < h.len() ==> h[line_end(h, i)] == 10,
        forall|j: int| i <= j < line_end(h, i) ==> h[j] != 10,
    decreases h.len() - i,
{
    if i < h.len() && h[i] != 10 {
        lemma_line_end_bounds(h, i + 1);
    }
}

/// One past the last non-whitespace byte of `l` below `e`.
pub open spec fn skip_ws_back(l: Seq<u8>, e: int) -> int
    decreases e,
    when 0 <= e <= l.len()
{
    if e <= 0 {
        0
    } else if is_ws(l[e - 1]) {
        skip_ws_back(l, e - 1)
    } else {
        e
    }
}

/// The start of the whitespace-delimited token that ends at `e`.
pub open spec fn token_start(l: Seq<u8>, e: int) -> int
    decreases e,
    when 0 <= e <= l.len()
{
    if e <= 0 {
        0
    } else if is_ws(l[e - 1]) {
        e
    } else {
        token_start(l, e - 1)
    }
}

/// The last whitespace-separated token of the line `l`, if it has one.
pub open spec fn last_token(l: Seq<u8>) -> Option<Seq<u8>> {
    let e = skip_ws_back(l, l.len() as int);
    if e == 0 {
        None
    } else {
        Some(l.subrange(token_start(l, e), e))
    }
}

/// True when `l` begins with the bytes `pat`.
pub open spec fn starts_with(l: Seq<u8>, pat: Seq<u8>) -> bool {
    pat.len() <= l.len() && l.subrange(0, pat.len() as int) == pat
}

/// The content of the first header line, at or after the line start `i`,
/// that begins with `element vertex`.
pub open spec fn ev_line_from(h: Seq<u8>, i: int) -> Option<Seq<u8>>
    decreases h.len() - i,
    when 0 <= i <= h.len()
    via ev_line_from_decreases
{
    if i >= h.len() {
        None
    } else {
        let e = line_end(h, i);
        let l = h.subrange(i, e);
        if starts_with(l, lit_bytes("element vertex"@)) {
            Some(l)
        } else if e >= h.len() {
            None
        } else {
            ev_line_from(h, e + 1)
        }
    }
}

#[via_fn]
proof fn ev_line_from_decreases(h: Seq<u8>, i: int) {
    if 0 <= i <= h.len() {
        lemma_line_end_bounds(h, i);
    }
}

/// The vertex count declared by the header `h`: the value of the last token
/// of the first `element vertex` line, when that token is a decimal number
/// (an optional leading plus sign, then digits) that fits in `usize`.
pub open spec fn vertex_count_of(h: Seq<u8>) -> Option<int> {
    match ev_line_from(h, 0) {
        Some(l) => match last_token(l) {
            Some(t) => {
                let d = digits_part(t);
                if d.len() > 0 && all_digits(d) && dec_value(d) <= usize::MAX {
                    Some(dec_value(d))
                } else {
                    None
                }
            },
            None => None,
        },
        None => None,
    }
}

/// The fields of the record that starts at byte `o`.
pub open spec fn parse_record(b: Seq<u8>, o: int) -> SplatRecord {
    SplatRecord {
        position: Float3 {
            x: spec_u32_from_le_bytes(b.subrange(o, o + 4)),
            y: spec_u32_from_le_bytes(b.subrange(o + 4, o + 8)),
            z: spec_u32_from_le_bytes(b.subrange(o + 8, o + 12)),
        },
        scale: Float3 {
            x: spec_u32_from_le_bytes(b.subrange(o + 31, o + 35)),
            y: spec_u32_from_le_bytes(b.subrange(o + 35, o + 39)),
            z: spec_u32_from_le_bytes(b.subrange(o + 39, o + 43)),
        },
        rotation: Quat {
            w: spec_u32_from_le_bytes(b.subrange(o + 43, o + 47)),
            x: spec_u32_from_le_bytes(b.subrange(o + 47, o + 51)),
            y: spec_u32_from_le_bytes(b.subrange(o + 51, o + 55)),
            z: spec_u32_from_le_bytes(b.subrange(o + 55, o + 59)),
        },
        color: Color3 { r: b[o + 24], g: b[o + 25], b: b[o + 26] },
        opacity: spec_u32_from_le_bytes(b.subrange(o + 27, o + 31)),
    }
}

/// The first byte of the binary body: one past the marker's ending newline.
pub open spec fn body_start(b: Seq<u8>) -> int {
    end_pos(b) + 11
}

/// How many records the decoder reads: the declared count, capped by the
/// number of whole records the body holds.
pub open spec fn decoded_count(b: Seq<u8>, n: int) -> int {
    let avail = if body_start(b) <= b.len() {
        b.len() - body_start(b)
    } else {
        0
    };
    if n <= avail / 59 {
        n
    } else {
        avail / 59
    }
}

/// The records the decoder reads from `b` under the declared count `n`.
pub open spec fn parsed_records(b: Seq<u8>, n: int) -> Seq<SplatRecord> {
    Seq::new(
        if decoded_count(b, n) >= 0 {
            decoded_count(b, n) as nat
        } else {
            0
        },
        |i: int| parse_record(b, body_start(b) + 59 * i),
    )
}

/// Pins `line_end` to `e` when nothing before `e` is a newline and `e` is
/// one (or the end of the text).
proof fn lemma_line_end_is(h: Seq<u8>, i: int, e: int)
    requires
        0 <= i <= e <= h.len(),
        forall|j: int| i <= j < e ==> h[j] != 10,
        e == h.len() || h[e] == 10,
    ensures
        line_end(h, i) == e,
    decreases e - i,
{
    if i < e {
        lemma_line_end_is(h, i + 1, e);
    }
}

/// Pins `token_start` to `s` when `[s, e)` holds no whitespace and `s` sits
/// at the line start or after a whitespace byte.
proof fn lemma_token_start_is(l: Seq<u8>, s: int, e: int)
    requires
        0 <= s <= e <= l.len(),
        forall|j: int| s <= j < e ==> !is_ws(#[trigger] l[j]),
        s == 0 || is_ws(l[s - 1]),
    ensures
        token_start(l, e) == s,
    decreases e - s,
{
    if s < e {
        lemma_token_start_is(l, s, e - 1);
    }
}

/// Each record of the body can be sliced back out at its 59-byte stride.
proof fn lemma_body_slice(rs: Seq<SplatRecord>, i: int)
    requires
        0 <= i < rs.len(),
    ensures
        body_bytes(rs).subrange(59 * i, 59 * i + 59) == record_bytes(rs[i]),
    decreases rs.len(),
{
    lemma_body_bytes_len(rs);
    lemma_body_bytes_len(rs.drop_last());
    lemma_record_bytes_len(rs.last());
    if i == rs.len() - 1 {
        assert(body_bytes(rs).subrange(59 * i, 59 * i + 59) =~= record_bytes(rs.last()));
    } else {
        lemma_body_slice(rs.drop_last(), i);
        assert(body_bytes(rs).subrange(59 * i, 59 * i + 59) =~= body_bytes(
            rs.drop_last(),
        ).subrange(59 * i, 59 * i + 59));
        assert(rs.drop_last()[i] == rs[i]);
    }
}

/// Reading a record's bytes back gives the record.
proof fn lemma_parse_record(b: Seq<u8>, o: int, r: SplatRecord)
    requires
        0 <= o,
        o + 59 <= b.len(),
        b.subrange(o, o + 59) == record_bytes(r),
    ensures
        parse_record(b, o) == r,
{
    lemma_auto_spec_u32_to_from_le_bytes();
    let t = record_bytes(r);
    assert(b.subrange(o, o + 4) =~= t.subrange(0, 4));
    assert(t.subrange(0, 4) =~= spec_u32_to_le_bytes(r.position.x));
    assert(b.subrange(o + 4, o + 8) =~= t.subrange(4, 8));
    assert(t.subrange(4, 8) =~= spec_u32_to_le_bytes(r.position.y));
    assert(b.subrange(o + 8, o + 12) =~= t.subrange(8, 12));
    assert(t.subrange(8, 12) =~= spec_u32_to_le_bytes(r.position.z));
    assert(b[o + 24] == t[24] && t[24] == r.color.r);
    assert(b[o + 25] == t[25] && t[25] == r.color.g);
    assert(b[o + 26] == t[26] && t[26] == r.color.b);
    assert(b.subrange(o + 27, o + 31) =~= t.subrange(27, 31));
    assert(t.subrange(27, 31) =~= spec_u32_to_le_bytes(r.opacity));
    assert(b.subrange(o + 31, o + 35) =~= t.subrange(31, 35));
    assert(t.subrange(31, 35) =~= spec_u32_to_le_bytes(r.scale.x));
    assert(b.subrange(o + 35, o + 39) =~= t.subrange(35, 39));
    assert(t.subrange(35, 39) =~= spec_u32_to_le_bytes(r.scale.y));
    assert(b.subrange(o + 39, o + 43) =~= t.subrange(39, 43));
    assert(t.subrange(39, 43) =~= spec_u32_to_le_bytes(r.scale.z));
    assert(b.subrange(o + 43, o + 47) =~= t.subrange(43, 47));
    assert(t.subrange(43, 47) =~= spec_u32_to_le_bytes(r.rotation.w));
    assert(b.subrange(o + 47, o + 51) =~= t.subrange(47, 51));
    assert(t.subrange(47, 51) =~= spec_u32_to_le_bytes(r.rotation.x));
    assert(b.subrange(o + 51, o + 55) =~= t.subrange(51, 55));
    assert(t.subrange(51, 55) =~= spec_u32_to_le_bytes(r.rotation.y));
    assert(b.subrange(o + 55, o + 59) =~= t.subrange(55, 59));
    assert(t.subrange(55, 59) =~= spec_u32_to_le_bytes(r.rotation.z));
}

fn is_ws_byte(b: u8) -> (r: bool)
    ensures
        r == is_ws(b),
{
    b == 9 || b == 10 || b == 11 || b == 12 || b == 13 || b == 32
}

/// Locates the first occurrence of the end-of-header marker.
fn find_end(data: &[u8]) -> (r: Option<usize>)
    ensures
        match r {
            Some(h) => found_end(data@, h as int),
            None => !has_end(data@),
        },
{
    let dl = data.len();
    if dl < 10 {
        return None;
    }
    let mut i: usize = 0;
    while i <= dl - 10
        invariant
            dl == data@.len(),
            dl >= 10,
            0 <= i <= dl - 10 + 1,
            forall|j: int| 0 <= j < i ==> !is_end_at(data@, j),
        decreases dl - i,
    {
        proof {
            reveal_strlit("end_header");
            assert(lit_bytes("end_header"@).len() == 10);
        }
        if bytes_match_at(data, i, "end_header") {
            proof {
                assert(is_end_at(data@, i as int));
            }
            return Some(i);
        }
        proof {
            assert(!is_end_at(data@, i as int));
        }
        i += 1;
    }
    proof {
        assert forall|j: int| !is_end_at(data@, j) by {
            if is_end_at(data@, j) {
                assert(0 <= j && j + 10 <= dl);
                assert(j < i);
            }
        }
    }
    None
}

/// Finds the newline (or the end of `h`) that closes the line at `i`.
fn find_line_end(h: &[u8], i: usize) -> (e: usize)
    requires
        i <= h@.len(),
    ensures
        e == line_end(h@, i as int),
        i <= e <= h@.len(),
{
    let hl = h.len();
    let mut j = i;
    while j < hl
        invariant
            hl == h@.len(),
            i <= j <= hl,
            line_end(h@, i as int) == line_end(h@, j as int),
        decreases hl - j,
    {
        if *vstd::slice::slice_index_get(h, j) == 10 {
            return j;
        }
        j += 1;
    }
    j
}

/// Scans the header for the vertex count: finds the first line that begins
/// with `element vertex` and parses that line's last token as a decimal
/// number.
fn scan_vertex_count(h: &[u8]) -> (r: Option<usize>)
    ensures
        match r {
            Some(v) => vertex_count_of(h@) == Some(v as int),
            None => vertex_count_of(h@) is None,
        },
{
    proof {
        reveal_strlit("element vertex");
        assert(lit_bytes("element vertex"@).len() == 14);
        assert(forall|k: int| 0 <= k < 14 ==> lit_bytes("element vertex"@)[k] != 10);
    }
    let hl = h.len();
    let mut i: usize = 0;
    while i < hl
        invariant
            hl == h@.len(),
            0 <= i <= hl,
            ev_line_from(h@, 0) == ev_line_from(h@, i as int),
        decreases hl - i,
    {
        let e = find_line_end(h, i);
        let ghost l = h@.subrange(i as int, e as int);
        proof {
            reveal_strlit("element vertex");
            assert(lit_bytes("element vertex"@).len() == 14);
            assert(forall|k: int| 0 <= k < 14 ==> lit_bytes("element vertex"@)[k] != 10);
            lemma_line_end_bounds(h@, i as int);
        }
        if bytes_match_at(h, i, "element vertex") {
            proof {
                let pat = lit_bytes("element vertex"@);
                assert(i + 14 <= e) by {
                    if e < i + 14 {
                        assert(e < h@.len() ==> h@[e as int] == 10);
                        assert(h@.subrange(i as int, i + 14)[e - i as int] == pat[e - i as int]);
                        assert(false);
                    }
                }
                assert(l.subrange(0, 14) =~= h@.subrange(i as int, i + 14));
                assert(starts_with(l, pat));
                assert(ev_line_from(h@, i as int) == Some(l));
            }
            // The last whitespace-separated token of the line.
            let mut k = e;
            while k > i && is_ws_byte(*vstd::slice::slice_index_get(h, k - 1))
                invariant
                    i <= k <= e,
                    e <= h@.len(),
                    l == h@.subrange(i as int, e as int),
                    skip_ws_back(l, e - i as int) == skip_ws_back(l, k - i as int),
                decreases k,
            {
                proof {
                    assert(l[k - 1 - i as int] == h@[k - 1]);
                }
                k -= 1;
            }
            proof {
                if k > i {
                    assert(l[k - 1 - i as int] == h@[k - 1]);
                }
                assert(skip_ws_back(l, e - i as int) == k - i as int);
            }
            if k == i {
                proof {
                    assert(last_token(l) is None);
                }
                return None;
            }
            let mut s = k;
            while s > i && !is_ws_byte(*vstd::slice::slice_index_get(h, s - 1))
                invariant
                    i <= s <= k,
                    k <= e <= h@.len(),
                    l == h@.subrange(i as int, e as int),
                    token_start(l, k - i as int) == token_start(l, s - i as int),
                decreases s,
            {
                proof {
                    assert(l[s - 1 - i as int] == h@[s - 1]);
                }
                s -= 1;
            }
            proof {
                if s > i {
                    assert(l[s - 1 - i as int] == h@[s - 1]);
                }
                assert(token_start(l, k - i as int) == s - i as int);
            }
            let tok = slice_subrange(h, s, k);
            proof {
                assert(tok@ =~= l.subrange(s - i as int, k - i as int));
                assert(last_token(l) == Some(tok@));
            }
            return parse_usize(tok);
        } else {
            proof {
                let pat = lit_bytes("element vertex"@);
                assert(!starts_with(l, pat)) by {
                    if starts_with(l, pat) {
                        assert(l.subrange(0, 14) == pat);
                        assert(h@.subrange(i as int, i + 14) =~= l.subrange(0, 14));
                    }
                }
            }
            if e >= hl {
                proof {
                    assert(ev_line_from(h@, i as int) is None);
                }
                return None;
            }
            i = e + 1;
        }
    }
    None
}

/// Law: the codec round-trips. For any record sequence that fits in memory,
/// the encoded file carries the end-of-header marker first at the header's
/// own marker, declares the exact record count, and decodes to exactly the
/// records that were encoded. Together with the contracts of `to_ply` and
/// `from_ply` this says `from_ply` of `to_ply` of a consistent cloud yields
/// a cloud with the same count, positions, scales, rotations, colors and
/// opacity, and no spherical-harmonics data.
#[verifier::rlimit(100)]
#[verifier::spinoff_prover]
pub proof fn lemma_codec_round_trip(rs: Seq<SplatRecord>)
    requires
        rs.len() <= usize::MAX,
    ensures
        ({
            let b = ply_bytes(rs);
            &&& has_end(b)
            &&& vertex_count_of(b.subrange(0, end_pos(b))) == Some(rs.len() as int)
            &&& parsed_records(b, rs.len() as int) == rs
        }),
{
    lemma_header_shape();
    let n = rs.len() as int;
    let pre = header_prefix();
    let dd = dec_digits(rs.len());
    let suf = header_suffix();
    let body = body_bytes(rs);
    let b = ply_bytes(rs);
    let d = dd.len() as int;
    lemma_dec_digits_shape(rs.len());
    lemma_dec_digits_value(rs.len());
    lemma_body_bytes_len(rs);
    let hh: int = 51 + d + 342;
    // The marker occurs at the header's own end-of-header line...
    assert(b.subrange(hh, hh + 10) =~= suf.subrange(342, 352));
    assert(is_end_at(b, hh));
    // ...and nowhere earlier.
    assert forall|j: int| 0 <= j < hh implies !is_end_at(b, j) by {
        if is_end_at(b, j) {
            if j + 10 <= 51 {
                assert(b.subrange(j, j + 10) =~= pre.subrange(j, j + 10));
                assert(is_end_at(pre, j));
                assert(false);
            } else if j < 51 {
                // The window covers the first count digit.
                assert(b.subrange(j, j + 10)[51 - j] == end_marker()[51 - j]);
                assert(b[51] == dd[0]);
                assert(is_digit(dd[0]));
                assert(false);
            } else if j < 51 + d {
                // The window starts on a count digit.
                assert(b.subrange(j, j + 10)[0] == end_marker()[0]);
                assert(b[j] == dd[j - 51]);
                assert(is_digit(dd[j - 51]));
                assert(false);
            } else {
                let r = j - (51 + d);
                assert(0 <= r < 342);
                assert(b.subrange(j, j + 10) =~= suf.subrange(r, r + 10));
                assert(is_end_at(suf, r));
                assert(false);
            }
        }
    }
    assert(found_end(b, hh));
    lemma_end_pos(b);
    lemma_found_end_unique(b, end_pos(b), hh);
    // The header parse finds the count line and reads the digits back.
    let hdr = b.subrange(0, hh);
    reveal_strlit("ply\nformat binary_little_endian 1.0\nelement vertex ");
    reveal_strlit("element vertex");
    reveal_strlit(
        "\nproperty float x\nproperty float y\nproperty float z\nproperty float nx\nproperty float ny\nproperty float nz\nproperty uchar red\nproperty uchar green\nproperty uchar blue\nproperty float opacity\nproperty float scale_0\nproperty float scale_1\nproperty float scale_2\nproperty float rot_0\nproperty float rot_1\nproperty float rot_2\nproperty float rot_3\nend_header\n",
    );
    let pat = lit_bytes("element vertex"@);
    assert(pat.len() == 14);
    lemma_line_end_is(hdr, 0, 3);
    let l0 = hdr.subrange(0, 3);
    assert(!starts_with(l0, pat));
    assert(ev_line_from(hdr, 0) == ev_line_from(hdr, 4));
    lemma_line_end_is(hdr, 4, 35);
    let l1 = hdr.subrange(4, 35);
    assert(!starts_with(l1, pat)) by {
        if starts_with(l1, pat) {
            assert(l1.subrange(0, 14)[0] == pat[0]);
        }
    }
    assert(ev_line_from(hdr, 4) == ev_line_from(hdr, 36));
    assert forall|j: int| 36 <= j < 51 + d implies hdr[j] != 10 by {
        if j >= 51 {
            assert(hdr[j] == dd[j - 51]);
            assert(is_digit(dd[j - 51]));
        }
    }
    assert(hdr[51 + d] == suf[0]);
    assert(suf[0] == 10);
    lemma_line_end_is(hdr, 36, 51 + d);
    let l2 = hdr.subrange(36, 51 + d);
    assert(l2.subrange(0, 14) =~= pre.subrange(36, 50));
    assert(pre.subrange(36, 50) =~= pat);
    assert(starts_with(l2, pat));
    assert(ev_line_from(hdr, 36) == Some(l2));
    // The last token of that line is exactly the printed digits.
    assert(l2.len() == 15 + d);
    assert forall|j: int| 15 <= j < 15 + d implies !is_ws(#[trigger] l2[j]) by {
        assert(l2[j] == dd[j - 15]);
        assert(is_digit(dd[j - 15]));
    }
    assert(!is_ws(l2[15 + d - 1]));
    assert(skip_ws_back(l2, 15 + d) == 15 + d);
    assert(is_ws(l2[14])) by {
        assert(l2[14] == pre[50]);
    }
    lemma_token_start_is(l2, 15, 15 + d);
    assert(l2.subrange(15, 15 + d) =~= dd);
    assert(last_token(l2) == Some(dd));
    assert(digits_part(dd) == dd) by {
        assert(is_digit(dd[0]));
    }
    assert(vertex_count_of(hdr) == Some(n));
    // The body begins right after the header and holds the records whole.
    assert(body_start(b) == hh + 11);
    assert(b.len() - body_start(b) == 59 * n);
    assert((59 * n) / 59 == n) by (nonlinear_arith)
        requires
            n >= 0,
    ;
    assert(decoded_count(b, n) == n);
    let parsed = parsed_records(b, n);
    assert forall|i: int| 0 <= i < n implies parsed[i] == rs[i] by {
        lemma_body_slice(rs, i);
        lemma_record_bytes_len(rs[i]);
        assert(b.subrange(hh + 11 + 59 * i, hh + 11 + 59 * i + 59) =~= body.subrange(
            59 * i,
            59 * i + 59,
        ));
        lemma_parse_record(b, hh + 11 + 59 * i, rs[i]);
    }
    assert(parsed =~= rs);
}

impl GaussianCloud {
    /// Parses the binary format. Fails when the end-of-header marker is
    /// missing or the header declares no usable vertex count; otherwise
    /// yields the records of the body, stopping early (without error) when
    /// the body holds fewer whole records than the header declares.
    pub fn from_ply(data: &[u8]) -> (r: Result<GaussianCloud, Error>)
        ensures
            match r {
                Ok(c) => {
                    &&& has_end(data@)
                    &&& (vertex_count_of(data@.subrange(0, end_pos(data@))) matches Some(n)
                        && c.holds_records(parsed_records(data@, n)))
                },
                Err(e) => {
                    ||| (!has_end(data@) && (e matches Error::InvalidGaussianCloud(m) && m@
                        == "No end_header found"@))
                    ||| (has_end(data@) && vertex_count_of(data@.subrange(0, end_pos(data@)))
                        is None && (e matches Error::InvalidGaussianCloud(m) && m@
                        == "No vertex count found"@))
                },
            },
    {
        let dl = data.len();
        let h = match find_end(data) {
            None => {
                return Err(Error::InvalidGaussianCloud("No end_header found".to_owned()));
            },
            Some(h) => h,
        };
        proof {
            lemma_end_pos(data@);
            lemma_found_end_unique(data@, end_pos(data@), h as int);
        }
        let header = slice_subrange(data, 0, h);
        proof {
            assert(header@ =~= data@.subrange(0, end_pos(data@)));
        }
        let n = match scan_vertex_count(header) {
            None => {
                return Err(Error::InvalidGaussianCloud("No vertex count found".to_owned()));
            },
            Some(n) => n,
        };
        // The body begins one byte past the marker's newline.
        let avail = dl - (h + 10);
        let avail = if avail >= 1 {
            avail - 1
        } else {
            0
        };
        let whole = avail / 59;
        let kn = if n <= whole {
            n
        } else {
            whole
        };
        proof {
            assert(kn == decoded_count(data@, n as int));
            assert(59 * (avail / 59) <= avail) by (nonlinear_arith)
                requires
                    avail >= 0,
            ;
            assert(59 * kn <= avail) by (nonlinear_arith)
                requires
                    0 <= kn <= avail / 59,
                    59 * (avail / 59) <= avail,
            ;
        }
        let mut cloud = GaussianCloud::with_capacity(kn);
        let ghost recs = parsed_records(data@, n as int);
        proof {
            assert(recs.len() == kn);
            assert(cloud.records() =~= recs.subrange(0, 0));
        }
        let mut idx: usize = 0;
        while idx < kn
            invariant
                dl == data@.len(),
                found_end(data@, h as int),
                h == end_pos(data@),
                kn == decoded_count(data@, n as int),
                recs == parsed_records(data@, n as int),
                recs.len() == kn,
                h + 11 + 59 * kn <= dl || kn == 0,
                0 <= idx <= kn,
                cloud.count == idx,
                cloud.wf(),
                cloud.sh_coefficients is None,
                cloud.records() == recs.subrange(0, idx as int),
            decreases kn - idx,
        {
            let off = h + 11 + idx * 59;
            proof {
                assert(59 * idx + 59 <= 59 * kn) by (nonlinear_arith)
                    requires
                        idx < kn,
                ;
                assert(off + 59 <= dl);
            }
            let px = u32_from_le_bytes(slice_subrange(data, off, off + 4));
            let py = u32_from_le_bytes(slice_subrange(data, off + 4, off + 8));
            let pz = u32_from_le_bytes(slice_subrange(data, off + 8, off + 12));
            let cr = *vstd::slice::slice_index_get(data, off + 24);
            let cg = *vstd::slice::slice_index_get(data, off + 25);
            let cb = *vstd::slice::slice_index_get(data, off + 26);
            let op = u32_from_le_bytes(slice_subrange(data, off + 27, off + 31));
            let sx = u32_from_le_bytes(slice_subrange(data, off + 31, off + 35));
            let sy = u32_from_le_bytes(slice_subrange(data, off + 35, off + 39));
            let sz = u32_from_le_bytes(slice_subrange(data, off + 39, off + 43));
            let rw = u32_from_le_bytes(slice_subrange(data, off + 43, off + 47));
            let rx = u32_from_le_bytes(slice_subrange(data, off + 47, off + 51));
            let ry = u32_from_le_bytes(slice_subrange(data, off + 51, off + 55));
            let rz = u32_from_le_bytes(slice_subrange(data, off + 55, off + 59));
            proof {
                assert(recs[idx as int] == parse_record(data@, off as int));
            }
            cloud.add_gaussian(
                Float3 { x: px, y: py, z: pz },
                Float3 { x: sx, y: sy, z: sz },
                Quat { w: rw, x: rx, y: ry, z: rz },
                Color3 { r: cr, g: cg, b: cb },
                op,
            );
            proof {
                assert(cloud.records() =~= recs.subrange(0, idx as int + 1));
            }
            idx += 1;
        }
        proof {
            assert(recs.subrange(0, kn as int) =~= recs);
        }
        Ok(cloud)
    }
}

} // verus!
