//! The ASCII geometry parser.
//!
//! Geometry source is line-oriented text. A line is classified by its first
//! token: `v` supplies a position, `vt` a texture coordinate, `vn` a normal,
//! `f` a face of three or four corners; comment lines (starting `#`) and
//! grouping or material-reference lines (`o`, `s`, `usemtl`, `mtllib`) are
//! ignored; a blank line is skipped; anything else is a parse error. The
//! parser aborts on the first malformed line.
//!
//! The parse is modeled by spec functions over the byte sequence of the
//! source: `spec_lines` splits it into lines, `spec_tokens` splits a line
//! into whitespace-separated tokens, and `spec_line_step` folds one line
//! into the accumulated `ObjData`.

use vstd::prelude::*;

verus! {

use crate::numeric::face_normal_of;
use crate::numeric::parse_scalar_bits;
use crate::numeric::scalar_of_token;
use crate::numeric::normalize_vector;
use crate::numeric::unit_of;
use crate::numeric::normal_from_points;
use crate::error::RendError;
use vstd::string::StringExecFns;

/// One parsed face triangle: three corner references into the attribute
/// arrays. `points` indexes positions; `textures` and `normals` are absent
/// when any corner of the source face lacked that segment (the whole face
/// is then treated as uv-less or normal-less); `calculated_normal` indexes
/// the computed face normal to fall back on.
#[derive(Clone, Copy, Debug)]
pub struct Triangle {
    pub points: [usize; 3],
    pub normals: Option<[usize; 3]>,
    pub calculated_normal: usize,
    pub textures: Option<[usize; 3]>,
}

impl Triangle {
    /// A degenerate triangle referencing position 0 everywhere.
    pub fn new() -> (r: Triangle)
        ensures
            r.points == [0usize, 0usize, 0usize],
            r.normals is None,
            r.textures is None,
            r.calculated_normal == 0,
    {
        Triangle { points: [0, 0, 0], normals: None, calculated_normal: 0, textures: None }
    }
}

/// The parse state: the raw attribute arrays, the computed face normals,
/// and the triangles parsed so far.
pub ghost struct ObjData {
    pub vs: Seq<[u32; 3]>,
    pub vts: Seq<[u32; 3]>,
    pub vns: Seq<[u32; 3]>,
    pub calc: Seq<[u32; 3]>,
    pub tris: Seq<Triangle>,
}

/// A triangle's references all lie inside arrays of the given lengths.
pub open spec fn tri_wf(t: Triangle, nv: int, nvt: int, nvn: int, ncalc: int) -> bool {
    &&& forall|i: int| 0 <= i < 3 ==> t.points[i] < nv
    &&& t.calculated_normal < ncalc
    &&& (t.textures matches Some(tx) ==> forall|i: int| 0 <= i < 3 ==> tx[i] < nvt)
    &&& (t.normals matches Some(ns) ==> forall|i: int| 0 <= i < 3 ==> ns[i] < nvn)
}

/// Every triangle's references lie inside the data's own arrays.
pub open spec fn obj_wf(d: ObjData) -> bool {
    forall|j: int|
        0 <= j < d.tris.len() ==> #[trigger] tri_wf(
            d.tris[j],
            d.vs.len() as int,
            d.vts.len() as int,
            d.vns.len() as int,
            d.calc.len() as int,
        )
}

/// The empty parse state.
pub open spec fn empty_obj() -> ObjData {
    ObjData {
        vs: Seq::empty(),
        vts: Seq::empty(),
        vns: Seq::empty(),
        calc: Seq::empty(),
        tris: Seq::empty(),
    }
}

// ---------------------------------------------------------------------------
// Lines and tokens
// ---------------------------------------------------------------------------

/// ASCII whitespace, as the original format treats it inside a line.
pub open spec fn is_space(b: u8) -> bool {
    b == 0x20 || b == 0x09 || b == 0x0A || b == 0x0C || b == 0x0D
}

/// Scanning state after reading `s`: the lines completed by a newline, and
/// the bytes of the line still open.
pub open spec fn lines_state(s: Seq<u8>) -> (Seq<Seq<u8>>, Seq<u8>)
    decreases s.len(),
{
    if s.len() == 0 {
        (Seq::empty(), Seq::empty())
    } else {
        let r = lines_state(s.drop_last());
        if s.last() == 0x0A {
            (r.0.push(r.1), Seq::empty())
        } else {
            (r.0, r.1.push(s.last()))
        }
    }
}

/// The lines of the source, the final unterminated line included.
pub open spec fn spec_lines(s: Seq<u8>) -> Seq<Seq<u8>> {
    let r = lines_state(s);
    r.0.push(r.1)
}

/// Scanning state after reading `s`: the tokens completed by whitespace,
/// and the token still open.
pub open spec fn split_state(s: Seq<u8>) -> (Seq<Seq<u8>>, Seq<u8>)
    decreases s.len(),
{
    if s.len() == 0 {
        (Seq::empty(), Seq::empty())
    } else {
        let r = split_state(s.drop_last());
        if is_space(s.last()) {
            if r.1.len() == 0 {
                (r.0, Seq::empty())
            } else {
                (r.0.push(r.1), Seq::empty())
            }
        } else {
            (r.0, r.1.push(s.last()))
        }
    }
}

/// The whitespace-separated tokens of a line.
pub open spec fn spec_tokens(s: Seq<u8>) -> Seq<Seq<u8>> {
    let r = split_state(s);
    if r.1.len() == 0 {
        r.0
    } else {
        r.0.push(r.1)
    }
}

/// Split a line into its whitespace-separated tokens.
pub fn tokenize(line: &[u8]) -> (r: Vec<Vec<u8>>)
    ensures
        r.deep_view() == spec_tokens(line@),
{
    let mut toks: Vec<Vec<u8>> = Vec::new();
    let mut cur: Vec<u8> = Vec::new();
    let n = line.len();
    let mut i: usize = 0;
    while i < n
        invariant
            i <= n,
            n == line@.len(),
            toks.deep_view() == split_state(line@.take(i as int)).0,
            cur@ == split_state(line@.take(i as int)).1,
        decreases n - i,
    {
        let b = line[i];
        proof {
            assert(line@.take(i + 1).drop_last() =~= line@.take(i as int));
            assert(line@.take(i + 1).last() == b);
        }
        let ghost prev_toks = toks.deep_view();
        if b == 0x20 || b == 0x09 || b == 0x0A || b == 0x0C || b == 0x0D {
            if cur.len() > 0 {
                let ghost prev_cur = cur@;
                toks.push(cur);
                cur = Vec::new();
                proof {
                    assert(toks.deep_view() =~~= prev_toks.push(prev_cur));
                }
            }
        } else {
            cur.push(b);
        }
        i += 1;
    }
    proof {
        assert(line@.take(n as int) =~= line@);
    }
    if cur.len() > 0 {
        let ghost prev_toks = toks.deep_view();
        let ghost prev_cur = cur@;
        toks.push(cur);
        proof {
            assert(toks.deep_view() =~~= prev_toks.push(prev_cur));
        }
    }
    toks
}

/// Split the source into lines at each newline byte.
pub fn split_source_lines(src: &[u8]) -> (r: Vec<Vec<u8>>)
    ensures
        r.deep_view() == spec_lines(src@),
{
    let mut lines: Vec<Vec<u8>> = Vec::new();
    let mut cur: Vec<u8> = Vec::new();
    let n = src.len();
    let mut i: usize = 0;
    while i < n
        invariant
            i <= n,
            n == src@.len(),
            lines.deep_view() == lines_state(src@.take(i as int)).0,
            cur@ == lines_state(src@.take(i as int)).1,
        decreases n - i,
    {
        let b = src[i];
        proof {
            assert(src@.take(i + 1).drop_last() =~= src@.take(i as int));
            assert(src@.take(i + 1).last() == b);
        }
        let ghost prev_lines = lines.deep_view();
        if b == 0x0A {
            let ghost prev_cur = cur@;
            lines.push(cur);
            cur = Vec::new();
            proof {
                assert(lines.deep_view() =~~= prev_lines.push(prev_cur));
            }
        } else {
            cur.push(b);
        }
        i += 1;
    }
    proof {
        assert(src@.take(n as int) =~= src@);
    }
    let ghost prev_lines = lines.deep_view();
    let ghost prev_cur = cur@;
    lines.push(cur);
    proof {
        assert(lines.deep_view() =~~= prev_lines.push(prev_cur));
    }
    lines
}

// ---------------------------------------------------------------------------
// Indices and corner tokens
// ---------------------------------------------------------------------------

/// A decimal digit byte.
pub open spec fn is_digit(b: u8) -> bool {
    0x30 <= b && b <= 0x39
}

/// The value of a sequence of decimal digit bytes.
pub open spec fn digits_value(s: Seq<u8>) -> nat
    decreases s.len(),
{
    if s.len() == 0 {
        0
    } else {
        digits_value(s.drop_last()) * 10 + (s.last() - 0x30) as nat
    }
}

/// A non-empty sequence of decimal digit bytes.
pub open spec fn all_digits(s: Seq<u8>) -> bool {
    s.len() > 0 && forall|i: int| 0 <= i < s.len() ==> is_digit(s[i])
}

/// The parse of an unsigned decimal token as the standard library accepts
/// it: an optional leading `+`, then digits, with the value in range.
pub open spec fn spec_parse_usize(t: Seq<u8>) -> Option<usize> {
    let digits = if t.len() > 0 && t[0] == 0x2B {
        t.drop_first()
    } else {
        t
    };
    if all_digits(digits) && digits_value(digits) <= usize::MAX {
        Some(digits_value(digits) as usize)
    } else {
        None
    }
}

/// The value of a digit sequence only grows as digits are appended.
proof fn lemma_digits_prefix_le(s: Seq<u8>, k: int)
    requires
        0 <= k <= s.len(),
    ensures
        digits_value(s.take(k)) <= digits_value(s),
    decreases s.len() - k,
{
    if k < s.len() {
        assert(s.take(k + 1).drop_last() =~= s.take(k));
        assert(digits_value(s.take(k)) <= digits_value(s.take(k + 1)));
        lemma_digits_prefix_le(s, k + 1);
    } else {
        assert(s.take(k) =~= s);
    }
}

/// Parse an unsigned decimal token.
pub fn parse_usize(t: &Vec<u8>) -> (r: Option<usize>)
    ensures
        r == spec_parse_usize(t@),
{
    let n = t.len();
    let start: usize = if n > 0 && t[0] == 0x2B {
        1
    } else {
        0
    };
    let ghost digits = if t@.len() > 0 && t@[0] == 0x2B {
        t@.drop_first()
    } else {
        t@
    };
    proof {
        assert(digits =~= t@.skip(start as int));
    }
    if start >= n {
        return None;
    }
    let mut acc: usize = 0;
    let mut i: usize = start;
    while i < n
        invariant
            start <= i <= n,
            n == t@.len(),
            start < n,
            digits == (if t@.len() > 0 && t@[0] == 0x2B {
                t@.drop_first()
            } else {
                t@
            }),
            digits =~= t@.skip(start as int),
            forall|j: int| 0 <= j < i - start ==> is_digit(digits[j]),
            acc == digits_value(digits.take(i - start)),
        decreases n - i,
    {
        let b = t[i];
        if !(0x30 <= b && b <= 0x39) {
            proof {
                assert(!is_digit(digits[i - start]));
                assert(!all_digits(digits));
                assert(spec_parse_usize(t@) is None);
            }
            return None;
        }
        let d: usize = (b - 0x30) as usize;
        proof {
            assert(digits.take(i + 1 - start).drop_last() =~= digits.take(i - start));
            assert(digits.take(i + 1 - start).last() == b);
        }
        let step = match acc.checked_mul(10) {
            Some(m) => m.checked_add(d),
            None => None,
        };
        match step {
            Some(next) => {
                acc = next;
            },
            None => {
                proof {
                    assert(digits_value(digits.take(i + 1 - start)) > usize::MAX);
                    lemma_digits_prefix_le(digits, i + 1 - start);
                    assert(digits_value(digits) > usize::MAX);
                    assert(spec_parse_usize(t@) is None);
                }
                return None;
            },
        }
        i += 1;
    }
    proof {
        assert(digits.take(n - start) =~= digits);
    }
    Some(acc)
}

/// The 0-based index a 1-based corner-token segment resolves to against an
/// array of `limit` entries; `None` when the segment is malformed, zero, or
/// beyond the array.
pub open spec fn spec_parse_index(t: Seq<u8>, limit: int) -> Option<usize> {
    match spec_parse_usize(t) {
        Some(v) => if 1 <= v && v <= limit {
            Some((v - 1) as usize)
        } else {
            None
        },
        None => None,
    }
}

/// Resolve a 1-based index segment against an array length.
pub fn parse_index(t: &Vec<u8>, limit: usize) -> (r: Option<usize>)
    ensures
        r == spec_parse_index(t@, limit as int),
{
    match parse_usize(t) {
        Some(v) => if 1 <= v && v <= limit {
            Some(v - 1)
        } else {
            None
        },
        None => None,
    }
}

/// Scanning state after reading `s`: the corner-token segments completed by
/// a slash, and the segment still open. Unlike whitespace splitting, every
/// slash closes a segment, so empty segments are kept.
pub open spec fn seg_state(s: Seq<u8>) -> (Seq<Seq<u8>>, Seq<u8>)
    decreases s.len(),
{
    if s.len() == 0 {
        (Seq::empty(), Seq::empty())
    } else {
        let r = seg_state(s.drop_last());
        if s.last() == 0x2F {
            (r.0.push(r.1), Seq::empty())
        } else {
            (r.0, r.1.push(s.last()))
        }
    }
}

/// The slash-separated segments of a corner token; always at least one.
pub open spec fn spec_segments(s: Seq<u8>) -> Seq<Seq<u8>> {
    let r = seg_state(s);
    r.0.push(r.1)
}

/// Split a corner token into its slash-separated segments.
pub fn split_slashes(t: &Vec<u8>) -> (r: Vec<Vec<u8>>)
    ensures
        r.deep_view() == spec_segments(t@),
        r.len() >= 1,
{
    let mut segs: Vec<Vec<u8>> = Vec::new();
    let mut cur: Vec<u8> = Vec::new();
    let n = t.len();
    let mut i: usize = 0;
    while i < n
        invariant
            i <= n,
            n == t@.len(),
            segs.deep_view() == seg_state(t@.take(i as int)).0,
            cur@ == seg_state(t@.take(i as int)).1,
        decreases n - i,
    {
        let b = t[i];
        proof {
            assert(t@.take(i + 1).drop_last() =~= t@.take(i as int));
            assert(t@.take(i + 1).last() == b);
        }
        let ghost prev_segs = segs.deep_view();
        if b == 0x2F {
            let ghost prev_cur = cur@;
            segs.push(cur);
            cur = Vec::new();
            proof {
                assert(segs.deep_view() =~~= prev_segs.push(prev_cur));
            }
        } else {
            cur.push(b);
        }
        i += 1;
    }
    proof {
        assert(t@.take(n as int) =~= t@);
    }
    let ghost prev_segs = segs.deep_view();
    let ghost prev_cur = cur@;
    segs.push(cur);
    proof {
        assert(segs.deep_view() =~~= prev_segs.push(prev_cur));
    }
    segs
}

/// One validated face corner: a 0-based position index, and optional
/// 0-based texture-coordinate and normal indices.
#[derive(Clone, Copy, Debug)]
pub struct CornerIdx {
    pub p: usize,
    pub uv: Option<usize>,
    pub nm: Option<usize>,
}

/// The parse of one corner token `position[/uv[/normal]]` against attribute
/// arrays of the given lengths. A missing or empty segment yields no index
/// for it; segments past the third are ignored; a segment that is present,
/// non-empty and does not resolve makes the corner malformed.
pub open spec fn spec_corner(t: Seq<u8>, nv: int, nvt: int, nvn: int) -> Option<CornerIdx> {
    let segs = spec_segments(t);
    if spec_parse_index(segs[0], nv) is None {
        None
    } else if !(segs.len() < 2 || segs[1].len() == 0 || spec_parse_index(segs[1], nvt) is Some) {
        None
    } else if !(segs.len() < 3 || segs[2].len() == 0 || spec_parse_index(segs[2], nvn) is Some) {
        None
    } else {
        Some(
            CornerIdx {
                p: spec_parse_index(segs[0], nv).unwrap(),
                uv: if segs.len() < 2 || segs[1].len() == 0 {
                    None
                } else {
                    Some(spec_parse_index(segs[1], nvt).unwrap())
                },
                nm: if segs.len() < 3 || segs[2].len() == 0 {
                    None
                } else {
                    Some(spec_parse_index(segs[2], nvn).unwrap())
                },
            },
        )
    }
}

/// Parse and validate one corner token.
pub fn parse_corner(t: &Vec<u8>, nv: usize, nvt: usize, nvn: usize) -> (r: Option<CornerIdx>)
    ensures
        r == spec_corner(t@, nv as int, nvt as int, nvn as int),
        r matches Some(c) ==> c.p < nv,
        r matches Some(c) ==> (c.uv matches Some(u) ==> u < nvt),
        r matches Some(c) ==> (c.nm matches Some(m) ==> m < nvn),
{
    let segs = split_slashes(t);
    proof {
        assert(segs@[0]@ =~= spec_segments(t@)[0]);
        if segs@.len() >= 2 {
            assert(segs@[1]@ =~= spec_segments(t@)[1]);
        }
        if segs@.len() >= 3 {
            assert(segs@[2]@ =~= spec_segments(t@)[2]);
        }
    }
    let p = match parse_index(&segs[0], nv) {
        Some(p) => p,
        None => {
            return None;
        },
    };
    let uv: Option<usize> = if segs.len() < 2 || segs[1].len() == 0 {
        None
    } else {
        match parse_index(&segs[1], nvt) {
            Some(u) => Some(u),
            None => {
                return None;
            },
        }
    };
    let nm: Option<usize> = if segs.len() < 3 || segs[2].len() == 0 {
        None
    } else {
        match parse_index(&segs[2], nvn) {
            Some(m) => Some(m),
            None => {
                return None;
            },
        }
    };
    Some(CornerIdx { p, uv, nm })
}

// ---------------------------------------------------------------------------
// Line classification
// ---------------------------------------------------------------------------

/// The token `v`.
pub open spec fn kw_v() -> Seq<u8> {
    seq![0x76u8]
}

/// The token `vt`.
pub open spec fn kw_vt() -> Seq<u8> {
    seq![0x76u8, 0x74u8]
}

/// The token `vn`.
pub open spec fn kw_vn() -> Seq<u8> {
    seq![0x76u8, 0x6Eu8]
}

/// The token `f`.
pub open spec fn kw_f() -> Seq<u8> {
    seq![0x66u8]
}

/// A leading token whose line is recognized and ignored: a comment, an
/// object or smoothing group, or a material reference.
pub open spec fn is_ignored_kw(t: Seq<u8>) -> bool {
    ||| t.len() > 0 && t[0] == 0x23  // '#'
    ||| t == seq![0x6Fu8]  // o
    ||| t == seq![0x73u8]  // s
    ||| t == seq![0x75u8, 0x73u8, 0x65u8, 0x6Du8, 0x74u8, 0x6Cu8]  // usemtl
    ||| t == seq![0x6Du8, 0x74u8, 0x6Cu8, 0x6Cu8, 0x69u8, 0x62u8]  // mtllib
}

/// Whether `t` is the one-byte token `b`.
fn is_single(t: &Vec<u8>, b: u8) -> (r: bool)
    ensures
        r == (t@ == seq![b]),
{
    let r = t.len() == 1 && t[0] == b;
    proof {
        if r {
            assert(t@ =~= seq![b]);
        }
    }
    r
}

/// Whether `t` is the two-byte token `b0 b1`.
fn is_pair(t: &Vec<u8>, b0: u8, b1: u8) -> (r: bool)
    ensures
        r == (t@ == seq![b0, b1]),
{
    let r = t.len() == 2 && t[0] == b0 && t[1] == b1;
    proof {
        if r {
            assert(t@ =~= seq![b0, b1]);
        }
    }
    r
}

/// Whether `t` leads a line that is recognized and ignored.
fn is_ignored_token(t: &Vec<u8>) -> (r: bool)
    ensures
        r == is_ignored_kw(t@),
{
    if t.len() > 0 && t[0] == 0x23 {
        return true;
    }
    if is_single(t, 0x6F) || is_single(t, 0x73) {
        return true;
    }
    let usemtl = t.len() == 6 && t[0] == 0x75 && t[1] == 0x73 && t[2] == 0x65 && t[3] == 0x6D
        && t[4] == 0x74 && t[5] == 0x6C;
    if usemtl {
        proof {
            assert(t@ =~= seq![0x75u8, 0x73u8, 0x65u8, 0x6Du8, 0x74u8, 0x6Cu8]);
        }
        return true;
    }
    let mtllib = t.len() == 6 && t[0] == 0x6D && t[1] == 0x74 && t[2] == 0x6C && t[3] == 0x6C
        && t[4] == 0x69 && t[5] == 0x62;
    if mtllib {
        proof {
            assert(t@ =~= seq![0x6Du8, 0x74u8, 0x6Cu8, 0x6Cu8, 0x69u8, 0x62u8]);
        }
        return true;
    }
    proof {
        assert(t@ != seq![0x75u8, 0x73u8, 0x65u8, 0x6Du8, 0x74u8, 0x6Cu8]);
        assert(t@ != seq![0x6Du8, 0x74u8, 0x6Cu8, 0x6Cu8, 0x69u8, 0x62u8]);
    }
    false
}

// ---------------------------------------------------------------------------
// Attribute lines
// ---------------------------------------------------------------------------

/// The parse of component `i` of an attribute line: a token that must be
/// float text when present, and zero when the line has fewer components.
pub open spec fn spec_component(toks: Seq<Seq<u8>>, i: int) -> Option<u32> {
    if i < toks.len() {
        scalar_of_token(toks[i])
    } else {
        Some(0u32)
    }
}

/// The three components supplied by an attribute line (tokens past the
/// third component are ignored), or `None` when one is malformed.
pub open spec fn spec_vec3_components(toks: Seq<Seq<u8>>) -> Option<[u32; 3]> {
    if spec_component(toks, 1) is Some && spec_component(toks, 2) is Some && spec_component(
        toks,
        3,
    ) is Some {
        Some(
            [
                spec_component(toks, 1).unwrap(),
                spec_component(toks, 2).unwrap(),
                spec_component(toks, 3).unwrap(),
            ],
        )
    } else {
        None
    }
}

/// Parse the up-to-three components of an attribute line.
fn parse_components(toks: &Vec<Vec<u8>>) -> (r: Option<[u32; 3]>)
    ensures
        r == spec_vec3_components(toks.deep_view()),
{
    let ghost gtoks = toks.deep_view();
    let c0 = if toks.len() > 1 {
        proof {
            assert(toks@[1]@ =~= gtoks[1]);
        }
        parse_scalar_bits(&toks[1])
    } else {
        Some(0u32)
    };
    let c1 = if toks.len() > 2 {
        proof {
            assert(toks@[2]@ =~= gtoks[2]);
        }
        parse_scalar_bits(&toks[2])
    } else {
        Some(0u32)
    };
    let c2 = if toks.len() > 3 {
        proof {
            assert(toks@[3]@ =~= gtoks[3]);
        }
        parse_scalar_bits(&toks[3])
    } else {
        Some(0u32)
    };
    match (c0, c1, c2) {
        (Some(a), Some(b), Some(c)) => Some([a, b, c]),
        _ => None,
    }
}

// ---------------------------------------------------------------------------
// Face lines
// ---------------------------------------------------------------------------

/// Whether every corner of the face carries a texture-coordinate index.
pub open spec fn face_all_uv(cs: Seq<CornerIdx>) -> bool {
    forall|i: int| 0 <= i < cs.len() ==> (#[trigger] cs[i]).uv is Some
}

/// Whether every corner of the face carries a normal index.
pub open spec fn face_all_nm(cs: Seq<CornerIdx>) -> bool {
    forall|i: int| 0 <= i < cs.len() ==> (#[trigger] cs[i]).nm is Some
}

/// The triangle made of corners `a`, `b`, `c` of the face, falling back to
/// the computed face normal at `calc_idx`. The whole face is uv-less or
/// normal-less as soon as one of its corners is.
pub open spec fn spec_tri(cs: Seq<CornerIdx>, a: int, b: int, c: int, calc_idx: int) -> Triangle {
    Triangle {
        points: [cs[a].p, cs[b].p, cs[c].p],
        textures: if face_all_uv(cs) {
            Some([cs[a].uv.unwrap(), cs[b].uv.unwrap(), cs[c].uv.unwrap()])
        } else {
            None
        },
        normals: if face_all_nm(cs) {
            Some([cs[a].nm.unwrap(), cs[b].nm.unwrap(), cs[c].nm.unwrap()])
        } else {
            None
        },
        calculated_normal: calc_idx as usize,
    }
}

/// The parse of corner token `k` of a face line against the current arrays.
pub open spec fn spec_corner_k(toks: Seq<Seq<u8>>, st: ObjData, k: int) -> Option<CornerIdx> {
    spec_corner(toks[k], st.vs.len() as int, st.vts.len() as int, st.vns.len() as int)
}

/// The effect of a face line on the parse state: three corners yield one
/// triangle, four corners yield two triangles fanned from the shared edge
/// (corners 0-1-2, then 0-2-3), each with its computed face normal.
pub open spec fn spec_face_step(st: ObjData, toks: Seq<Seq<u8>>) -> Option<ObjData> {
    if toks.len() < 4 || toks.len() > 5 {
        None
    } else if !(forall|k: int| 1 <= k < toks.len() ==> spec_corner_k(toks, st, k) is Some) {
        None
    } else {
        let cs = Seq::new((toks.len() - 1) as nat, |k: int| spec_corner_k(toks, st, k + 1).unwrap());
        let t1 = spec_tri(cs, 0, 1, 2, st.calc.len() as int);
        let n1 = face_normal_of(st.vs[cs[0].p as int], st.vs[cs[1].p as int], st.vs[cs[2].p as int]);
        if cs.len() == 3 {
            Some(ObjData { tris: st.tris.push(t1), calc: st.calc.push(n1), ..st })
        } else {
            let t2 = spec_tri(cs, 0, 2, 3, st.calc.len() + 1 as int);
            let n2 = face_normal_of(
                st.vs[cs[0].p as int],
                st.vs[cs[2].p as int],
                st.vs[cs[3].p as int],
            );
            Some(
                ObjData { tris: st.tris.push(t1).push(t2), calc: st.calc.push(n1).push(n2), ..st },
            )
        }
    }
}

// ---------------------------------------------------------------------------
// Whole lines and whole sources
// ---------------------------------------------------------------------------

/// The effect of one source line on the parse state, or `None` when the
/// line is malformed.
pub open spec fn spec_line_step(st: ObjData, line: Seq<u8>) -> Option<ObjData> {
    let toks = spec_tokens(line);
    if toks.len() == 0 {
        Some(st)
    } else if is_ignored_kw(toks[0]) {
        Some(st)
    } else if toks[0] == kw_v() {
        match spec_vec3_components(toks) {
            Some(v) => Some(ObjData { vs: st.vs.push(v), ..st }),
            None => None,
        }
    } else if toks[0] == kw_vt() {
        match spec_vec3_components(toks) {
            Some(v) => Some(ObjData { vts: st.vts.push(v), ..st }),
            None => None,
        }
    } else if toks[0] == kw_vn() {
        match spec_vec3_components(toks) {
            Some(v) => Some(ObjData { vns: st.vns.push(unit_of(v)), ..st }),
            None => None,
        }
    } else if toks[0] == kw_f() {
        spec_face_step(st, toks)
    } else {
        None
    }
}

/// The fold of the remaining lines over the parse state; `None` as soon as
/// one line is malformed (the parse aborts there).
pub open spec fn spec_parse_rest(st: ObjData, lines: Seq<Seq<u8>>) -> Option<ObjData>
    decreases lines.len(),
{
    if lines.len() == 0 {
        Some(st)
    } else {
        match spec_line_step(st, lines[0]) {
            None => None,
            Some(st2) => spec_parse_rest(st2, lines.drop_first()),
        }
    }
}

/// The parse of a whole geometry source from the empty state.
pub open spec fn spec_parse_source(src: Seq<u8>) -> Option<ObjData> {
    spec_parse_rest(empty_obj(), spec_lines(src))
}

/// The in-progress result of parsing a geometry source: the raw attribute
/// arrays, the computed per-face normals, and the triangle list.
#[derive(Debug)]
pub struct OBJMesh {
    pub vertices: Vec<[u32; 3]>,
    pub uvs: Vec<[u32; 3]>,
    pub normals: Vec<[u32; 3]>,
    pub calculated: Vec<[u32; 3]>,
    pub triangles: Vec<Triangle>,
}

impl View for OBJMesh {
    type V = ObjData;

    open spec fn view(&self) -> ObjData {
        ObjData {
            vs: self.vertices@,
            vts: self.uvs@,
            vns: self.normals@,
            calc: self.calculated@,
            tris: self.triangles@,
        }
    }
}

impl OBJMesh {
    /// An empty mesh, ready to parse into.
    pub fn new() -> (r: OBJMesh)
        ensures
            r@ == empty_obj(),
    {
        let m = OBJMesh {
            vertices: Vec::new(),
            uvs: Vec::new(),
            normals: Vec::new(),
            calculated: Vec::new(),
            triangles: Vec::new(),
        };
        proof {
            assert(m@.vs =~= empty_obj().vs);
            assert(m@.vts =~= empty_obj().vts);
            assert(m@.vns =~= empty_obj().vns);
            assert(m@.calc =~= empty_obj().calc);
            assert(m@.tris =~= empty_obj().tris);
        }
        m
    }

    /// Process one face line. A malformed line changes nothing.
    fn parse_face(&mut self, toks: &Vec<Vec<u8>>) -> (ok: bool)
        ensures
            ok <==> spec_face_step(old(self)@, toks.deep_view()) is Some,
            ok ==> Some(final(self)@) == spec_face_step(old(self)@, toks.deep_view()),
            !ok ==> *final(self) == *old(self),
    {
        let ghost gtoks = toks.deep_view();
        let k = toks.len();
        if k < 4 || k > 5 {
            return false;
        }
        let mut cs: Vec<CornerIdx> = Vec::new();
        let mut ki: usize = 1;
        while ki < k
            invariant
                1 <= ki <= k,
                k == gtoks.len(),
                4 <= k <= 5,
                gtoks == toks.deep_view(),
                *self == *old(self),
                cs@.len() == ki - 1,
                forall|j: int|
                    0 <= j < ki - 1 ==> Some(#[trigger] cs@[j]) == spec_corner_k(
                        gtoks,
                        old(self)@,
                        j + 1,
                    ),
                forall|j: int| 0 <= j < ki - 1 ==> (#[trigger] cs@[j]).p < old(self)@.vs.len(),
                forall|j: int|
                    0 <= j < ki - 1 ==> ((#[trigger] cs@[j]).uv matches Some(u) ==> u < old(
                        self,
                    )@.vts.len()),
                forall|j: int|
                    0 <= j < ki - 1 ==> ((#[trigger] cs@[j]).nm matches Some(m) ==> m < old(
                        self,
                    )@.vns.len()),
            decreases k - ki,
        {
            proof {
                assert(toks@[ki as int]@ =~= gtoks[ki as int]);
            }
            match parse_corner(&toks[ki], self.vertices.len(), self.uvs.len(), self.normals.len()) {
                Some(c) => {
                    cs.push(c);
                },
                None => {
                    assert(spec_corner_k(gtoks, old(self)@, ki as int) is None);
                    return false;
                },
            }
            ki += 1;
        }
        let ghost gcs = Seq::new(
            (gtoks.len() - 1) as nat,
            |j: int| spec_corner_k(gtoks, old(self)@, j + 1).unwrap(),
        );
        proof {
            assert(cs@ =~= gcs);
        }
        let mut all_uv = true;
        let mut all_nm = true;
        let mut ci: usize = 0;
        while ci < cs.len()
            invariant
                0 <= ci <= cs@.len(),
                all_uv == (forall|i: int| 0 <= i < ci ==> (#[trigger] cs@[i]).uv is Some),
                all_nm == (forall|i: int| 0 <= i < ci ==> (#[trigger] cs@[i]).nm is Some),
            decreases cs@.len() - ci,
        {
            if cs[ci].uv.is_none() {
                all_uv = false;
            }
            if cs[ci].nm.is_none() {
                all_nm = false;
            }
            ci += 1;
        }
        assert(all_uv == face_all_uv(gcs));
        assert(all_nm == face_all_nm(gcs));
        let c0 = cs[0];
        let c1 = cs[1];
        let c2 = cs[2];
        let t1 = Triangle {
            points: [c0.p, c1.p, c2.p],
            textures: if all_uv {
                Some([c0.uv.unwrap(), c1.uv.unwrap(), c2.uv.unwrap()])
            } else {
                None
            },
            normals: if all_nm {
                Some([c0.nm.unwrap(), c1.nm.unwrap(), c2.nm.unwrap()])
            } else {
                None
            },
            calculated_normal: self.calculated.len(),
        };
        assert(t1 == spec_tri(gcs, 0, 1, 2, old(self)@.calc.len() as int));
        let n1 = normal_from_points(self.vertices[c0.p], self.vertices[c1.p], self.vertices[c2.p]);
        if k == 5 {
            let c3 = cs[3];
            self.calculated.push(n1);
            let t2 = Triangle {
                points: [c0.p, c2.p, c3.p],
                textures: if all_uv {
                    Some([c0.uv.unwrap(), c2.uv.unwrap(), c3.uv.unwrap()])
                } else {
                    None
                },
                normals: if all_nm {
                    Some([c0.nm.unwrap(), c2.nm.unwrap(), c3.nm.unwrap()])
                } else {
                    None
                },
                calculated_normal: self.calculated.len(),
            };
            assert(t2 == spec_tri(gcs, 0, 2, 3, old(self)@.calc.len() + 1 as int));
            let n2 = normal_from_points(
                self.vertices[c0.p],
                self.vertices[c2.p],
                self.vertices[c3.p],
            );
            self.triangles.push(t1);
            self.triangles.push(t2);
            self.calculated.push(n2);
            proof {
                let stepped = spec_face_step(old(self)@, gtoks).unwrap();
                assert(self@.tris =~= stepped.tris);
                assert(self@.calc =~= stepped.calc);
            }
        } else {
            self.triangles.push(t1);
            self.calculated.push(n1);
            proof {
                let stepped = spec_face_step(old(self)@, gtoks).unwrap();
                assert(self@.tris =~= stepped.tris);
                assert(self@.calc =~= stepped.calc);
            }
        }
        true
    }

    /// Process one source line, reporting whether it was well-formed. A
    /// malformed line changes nothing.
    fn parse_line(&mut self, line: &Vec<u8>) -> (ok: bool)
        ensures
            ok <==> spec_line_step(old(self)@, line@) is Some,
            ok ==> Some(final(self)@) == spec_line_step(old(self)@, line@),
            !ok ==> *final(self) == *old(self),
    {
        let toks = tokenize(line.as_slice());
        let ghost gtoks = spec_tokens(line@);
        if toks.len() == 0 {
            return true;
        }
        proof {
            assert(toks@[0]@ =~= gtoks[0]);
        }
        if is_ignored_token(&toks[0]) {
            return true;
        }
        if is_single(&toks[0], 0x76) {
            // v
            match parse_components(&toks) {
                Some(v) => {
                    self.vertices.push(v);
                    return true;
                },
                None => {
                    return false;
                },
            }
        }
        if is_pair(&toks[0], 0x76, 0x74) {
            // vt
            match parse_components(&toks) {
                Some(v) => {
                    self.uvs.push(v);
                    return true;
                },
                None => {
                    return false;
                },
            }
        }
        if is_pair(&toks[0], 0x76, 0x6E) {
            // vn
            match parse_components(&toks) {
                Some(v) => {
                    self.normals.push(normalize_vector(v));
                    return true;
                },
                None => {
                    return false;
                },
            }
        }
        if is_single(&toks[0], 0x66) {
            // f
            return self.parse_face(&toks);
        }
        false
    }

    /// Parse a whole geometry source into this mesh, aborting at the first
    /// malformed line; the error quotes the line that failed. On failure
    /// the mesh holds exactly what the lines before the malformed one
    /// built, and must be discarded, not used as a partial parse.
    #[verifier::rlimit(100)]
    pub fn load_obj(&mut self, source: &[u8]) -> (r: Result<(), RendError>)
        ensures
            r is Ok <==> spec_parse_rest(old(self)@, spec_lines(source@)) is Some,
            r is Ok ==> Some(final(self)@) == spec_parse_rest(old(self)@, spec_lines(source@)),
            r is Err ==> exists|k: int|
                {
                    &&& 0 <= k < spec_lines(source@).len()
                    &&& #[trigger] spec_line_step(final(self)@, spec_lines(source@)[k]) is None
                    &&& spec_parse_rest(old(self)@, spec_lines(source@)) == spec_parse_rest(
                        final(self)@,
                        spec_lines(source@).skip(k),
                    )
                },
    {
        let lines = split_source_lines(source);
        let ghost glines = spec_lines(source@);
        let n = lines.len();
        let mut li: usize = 0;
        proof {
            assert(glines.skip(0) =~= glines);
        }
        while li < n
            invariant
                li <= n,
                n == glines.len(),
                glines == spec_lines(source@),
                lines.deep_view() == glines,
                spec_parse_rest(old(self)@, glines) == spec_parse_rest(
                    self@,
                    glines.skip(li as int),
                ),
            decreases n - li,
        {
            proof {
                assert(glines.skip(li as int)[0] == glines[li as int]);
                assert(glines.skip(li as int).drop_first() =~= glines.skip(li + 1));
                assert(lines@[li as int]@ =~= glines[li as int]);
            }
            let ghost pre = self@;
            let ok = self.parse_line(&lines[li]);
            if !ok {
                proof {
                    assert(spec_line_step(pre, glines[li as int]) is None);
                    assert(spec_parse_rest(pre, glines.skip(li as int)) is None);
                    assert(self@ == pre);
                    assert(spec_line_step(self@, spec_lines(source@)[li as int]) is None);
                }
                let mut msg = String::from_str("invalid geometry line: ");
                msg.append(crate::error::ascii_text_of(&lines[li]).as_str());
                return Err(RendError::new(msg.as_str()));
            }
            li += 1;
        }
        proof {
            assert(glines.skip(n as int) =~= Seq::<Seq<u8>>::empty());
        }
        Ok(())
    }
}

/// A successfully parsed corner's indices lie inside the arrays it was
/// validated against.
pub proof fn lemma_corner_bounds(t: Seq<u8>, nv: int, nvt: int, nvn: int)
    requires
        spec_corner(t, nv, nvt, nvn) is Some,
    ensures
        spec_corner(t, nv, nvt, nvn).unwrap().p < nv,
        spec_corner(t, nv, nvt, nvn).unwrap().uv matches Some(u) ==> u < nvt,
        spec_corner(t, nv, nvt, nvn).unwrap().nm matches Some(m) ==> m < nvn,
{
}

/// One well-formed line keeps the parse state well formed: the attribute
/// arrays only grow, and a face line's new triangles were validated
/// against the current array lengths.
#[verifier::rlimit(60)]
pub proof fn lemma_line_step_wf(st: ObjData, line: Seq<u8>)
    requires
        obj_wf(st),
        spec_line_step(st, line) is Some,
    ensures
        obj_wf(spec_line_step(st, line).unwrap()),
{
    let st2 = spec_line_step(st, line).unwrap();
    let toks = spec_tokens(line);
    if toks.len() == 0 || is_ignored_kw(toks[0]) {
    } else if toks[0] == kw_v() || toks[0] == kw_vt() || toks[0] == kw_vn() {
        assert forall|j: int| 0 <= j < st2.tris.len() implies #[trigger] tri_wf(
            st2.tris[j],
            st2.vs.len() as int,
            st2.vts.len() as int,
            st2.vns.len() as int,
            st2.calc.len() as int,
        ) by {
            assert(tri_wf(
                st.tris[j],
                st.vs.len() as int,
                st.vts.len() as int,
                st.vns.len() as int,
                st.calc.len() as int,
            ));
        }
    } else {
        let cs = Seq::new((toks.len() - 1) as nat, |k: int| spec_corner_k(toks, st, k + 1).unwrap());
        assert forall|k: int| 0 <= k < cs.len() implies (#[trigger] cs[k]).p < st.vs.len() && (
        cs[k].uv matches Some(u) ==> u < st.vts.len()) && (cs[k].nm matches Some(m) ==> m
            < st.vns.len()) by {
            assert(spec_corner_k(toks, st, k + 1) is Some);
            lemma_corner_bounds(
                toks[k + 1],
                st.vs.len() as int,
                st.vts.len() as int,
                st.vns.len() as int,
            );
        }
        let t1 = spec_tri(cs, 0, 1, 2, st.calc.len() as int);
        assert(tri_wf(
            t1,
            st2.vs.len() as int,
            st2.vts.len() as int,
            st2.vns.len() as int,
            st2.calc.len() as int,
        )) by {
            assert(t1.points[0] == cs[0].p && t1.points[1] == cs[1].p && t1.points[2] == cs[2].p);
            if face_all_uv(cs) {
                let tx = t1.textures.unwrap();
                assert(tx[0] == cs[0].uv.unwrap() && tx[1] == cs[1].uv.unwrap() && tx[2]
                    == cs[2].uv.unwrap());
            }
            if face_all_nm(cs) {
                let ns = t1.normals.unwrap();
                assert(ns[0] == cs[0].nm.unwrap() && ns[1] == cs[1].nm.unwrap() && ns[2]
                    == cs[2].nm.unwrap());
            }
        }
        if cs.len() == 4 {
            let t2 = spec_tri(cs, 0, 2, 3, st.calc.len() + 1 as int);
            assert(tri_wf(
                t2,
                st2.vs.len() as int,
                st2.vts.len() as int,
                st2.vns.len() as int,
                st2.calc.len() as int,
            )) by {
                assert(t2.points[0] == cs[0].p && t2.points[1] == cs[2].p && t2.points[2]
                    == cs[3].p);
                if face_all_uv(cs) {
                    let tx = t2.textures.unwrap();
                    assert(tx[0] == cs[0].uv.unwrap() && tx[1] == cs[2].uv.unwrap() && tx[2]
                        == cs[3].uv.unwrap());
                }
                if face_all_nm(cs) {
                    let ns = t2.normals.unwrap();
                    assert(ns[0] == cs[0].nm.unwrap() && ns[1] == cs[2].nm.unwrap() && ns[2]
                        == cs[3].nm.unwrap());
                }
            }
        }
        assert forall|j: int| 0 <= j < st2.tris.len() implies #[trigger] tri_wf(
            st2.tris[j],
            st2.vs.len() as int,
            st2.vts.len() as int,
            st2.vns.len() as int,
            st2.calc.len() as int,
        ) by {
            if j < st.tris.len() {
                assert(st2.tris[j] == st.tris[j]);
                assert(tri_wf(
                    st.tris[j],
                    st.vs.len() as int,
                    st.vts.len() as int,
                    st.vns.len() as int,
                    st.calc.len() as int,
                ));
            }
        }
    }
}

/// A whole well-formed parse keeps the state well formed.
pub proof fn lemma_parse_rest_wf(st: ObjData, lines: Seq<Seq<u8>>)
    requires
        obj_wf(st),
        spec_parse_rest(st, lines) is Some,
    ensures
        obj_wf(spec_parse_rest(st, lines).unwrap()),
    decreases lines.len(),
{
    if lines.len() > 0 {
        lemma_line_step_wf(st, lines[0]);
        lemma_parse_rest_wf(spec_line_step(st, lines[0]).unwrap(), lines.drop_first());
    }
}

/// The empty parse state is well formed.
pub proof fn lemma_empty_obj_wf()
    ensures
        obj_wf(empty_obj()),
{
}

/// Triangulation count: a well-formed face line of three corners adds one
/// triangle to the parse state, and one of four corners adds two.
pub proof fn lemma_triangulation_count(st: ObjData, toks: Seq<Seq<u8>>)
    requires
        spec_face_step(st, toks) is Some,
    ensures
        toks.len() == 4 ==> spec_face_step(st, toks).unwrap().tris.len() == st.tris.len() + 1,
        toks.len() == 5 ==> spec_face_step(st, toks).unwrap().tris.len() == st.tris.len() + 2,
{
}

} // verus!
