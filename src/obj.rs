use vstd::prelude::*;

verus! {

/// The whitespace that separates the fields of a line: the ASCII characters that
/// `char::is_whitespace` accepts.
pub open spec fn is_space(b: u8) -> bool {
    b == 9 || b == 10 || b == 11 || b == 12 || b == 13 || b == 32
}

pub open spec fn is_digit(b: u8) -> bool {
    48 <= b <= 57
}

/// The end of the run of non-space bytes of `t` that starts at `i`, within `[i, end)`.
pub open spec fn token_end(t: Seq<u8>, i: int, end: int) -> int
    decreases end - i,
{
    if i >= end || is_space(t[i]) {
        i
    } else {
        token_end(t, i + 1, end)
    }
}

/// The first field of `t` within `[from, end)`, as a range of byte positions.
pub open spec fn first_token(t: Seq<u8>, from: int, end: int) -> Option<(int, int)>
    decreases end - from,
{
    if from >= end {
        None
    } else if is_space(t[from]) {
        first_token(t, from + 1, end)
    } else {
        Some((from, token_end(t, from, end)))
    }
}

/// The first field of `text` within `[from, end)`.
fn next_token(text: &[u8], from: usize, end: usize) -> (r: Option<(usize, usize)>)
    requires
        from <= end <= text@.len(),
    ensures
        match first_token(text@, from as int, end as int) {
            None => r is None,
            Some(k) => r == Some((k.0 as usize, k.1 as usize)) && from <= k.0 < k.1 <= end,
        },
{
    let mut i = from;
    while i < end && is_space_byte(text[i])
        invariant
            from <= i <= end <= text@.len(),
            first_token(text@, from as int, end as int) == first_token(text@, i as int, end as int),
        decreases end - i,
    {
        i = i + 1;
    }
    if i >= end {
        return None;
    }
    let start = i;
    while i < end && !is_space_byte(text[i])
        invariant
            start < end <= text@.len(),
            start <= i <= end,
            !is_space(text@[start as int]),
            token_end(text@, start as int, end as int) == token_end(text@, i as int, end as int),
        decreases end - i,
    {
        i = i + 1;
    }
    Some((start, i))
}

fn is_space_byte(b: u8) -> (r: bool)
    ensures
        r == is_space(b),
{
    b == 9 || b == 10 || b == 11 || b == 12 || b == 13 || b == 32
}

/// All bytes of `t` in `[s, e)` are decimal digits.
pub open spec fn all_digits(t: Seq<u8>, s: int, e: int) -> bool {
    forall|i: int| s <= i < e ==> is_digit(#[trigger] t[i])
}

/// The number that the decimal digits of `t` in `[s, e)` spell.
pub open spec fn digits_value(t: Seq<u8>, s: int, e: int) -> nat
    decreases e - s,
{
    if e <= s {
        0
    } else {
        digits_value(t, s, e - 1) * 10 + (t[e - 1] - 48) as nat
    }
}

/// What `usize::from_str` gives for the bytes of `t` in `[s, e)`: an optional `+`, then
/// one or more decimal digits whose value fits in a `usize`.
pub open spec fn index_value(t: Seq<u8>, s: int, e: int) -> Option<usize> {
    let d = if s < e && t[s] == 43 {
        s + 1
    } else {
        s
    };
    if d < e && all_digits(t, d, e) && digits_value(t, d, e) <= usize::MAX {
        Some(digits_value(t, d, e) as usize)
    } else {
        None
    }
}

proof fn lemma_digits_grow(t: Seq<u8>, s: int, i: int, e: int)
    requires
        s <= i <= e,
        all_digits(t, s, e),
    ensures
        digits_value(t, s, i) <= digits_value(t, s, e),
    decreases e - i,
{
    if i < e {
        lemma_digits_grow(t, s, i, e - 1);
        assert(digits_value(t, s, e) == digits_value(t, s, e - 1) * 10 + (t[e - 1] - 48) as nat);
    }
}

/// Reads the unsigned decimal in `text[s..e]`.
fn parse_index(text: &[u8], s: usize, e: usize) -> (r: Option<usize>)
    requires
        s <= e <= text@.len(),
    ensures
        r == index_value(text@, s as int, e as int),
{
    let d = if s < e && text[s] == 43 {
        s + 1
    } else {
        s
    };
    if d >= e {
        return None;
    }
    let mut acc: usize = 0;
    let mut i = d;
    while i < e
        invariant
            d <= i <= e <= text@.len(),
            d < e,
            all_digits(text@, d as int, i as int),
            acc == digits_value(text@, d as int, i as int),
            d as int == (if s < e && text@[s as int] == 43 { s + 1 } else { s as int }),
        decreases e - i,
    {
        let b = text[i];
        if b < 48 || b > 57 {
            assert(!all_digits(text@, d as int, e as int));
            return None;
        }
        let digit = (b - 48) as usize;
        match acc.checked_mul(10) {
            None => {
                proof {
                    if all_digits(text@, d as int, e as int) {
                        lemma_digits_grow(text@, d as int, i as int + 1, e as int);
                    }
                }
                return None;
            },
            Some(m) => match m.checked_add(digit) {
                None => {
                    proof {
                        if all_digits(text@, d as int, e as int) {
                            lemma_digits_grow(text@, d as int, i as int + 1, e as int);
                        }
                    }
                    return None;
                },
                Some(v) => {
                    acc = v;
                },
            },
        }
        i = i + 1;
    }
    Some(acc)
}

/// The end of the `/`-separated part of a face field that starts at `i`, within `[i, e)`.
pub open spec fn part_end(t: Seq<u8>, i: int, e: int) -> int
    decreases e - i,
{
    if i >= e || t[i] == 47 {
        i
    } else {
        part_end(t, i + 1, e)
    }
}

/// The 0-based vertex that a face field `v/vt/vn` in `[s, e)` names: all three indices
/// must read as positive decimals; parts after the third are not read.
pub open spec fn face_vertex(t: Seq<u8>, s: int, e: int) -> Option<usize> {
    let e1 = part_end(t, s, e);
    let e2 = part_end(t, e1 + 1, e);
    let e3 = part_end(t, e2 + 1, e);
    if e1 >= e || e2 >= e {
        None
    } else {
        match (index_value(t, s, e1), index_value(t, e1 + 1, e2), index_value(t, e2 + 1, e3)) {
            (Some(v), Some(vt), Some(vn)) => if v >= 1 && vt >= 1 && vn >= 1 {
                Some((v - 1) as usize)
            } else {
                None
            },
            _ => None,
        }
    }
}

fn find_part_end(text: &[u8], i: usize, e: usize) -> (r: usize)
    requires
        i <= e <= text@.len(),
    ensures
        r == part_end(text@, i as int, e as int),
        i <= r <= e,
{
    let mut j = i;
    while j < e && text[j] != 47
        invariant
            i <= j <= e <= text@.len(),
            part_end(text@, i as int, e as int) == part_end(text@, j as int, e as int),
        decreases e - j,
    {
        j = j + 1;
    }
    j
}

/// Reads the face field `text[s..e]`.
fn parse_face_vertex(text: &[u8], s: usize, e: usize) -> (r: Option<usize>)
    requires
        s <= e <= text@.len(),
    ensures
        r == face_vertex(text@, s as int, e as int),
{
    let e1 = find_part_end(text, s, e);
    if e1 >= e {
        return None;
    }
    let e2 = find_part_end(text, e1 + 1, e);
    if e2 >= e {
        return None;
    }
    let e3 = find_part_end(text, e2 + 1, e);
    let v = parse_index(text, s, e1);
    let vt = parse_index(text, e1 + 1, e2);
    let vn = parse_index(text, e2 + 1, e3);
    match (v, vt, vn) {
        (Some(v), Some(vt), Some(vn)) => if v >= 1 && vt >= 1 && vn >= 1 {
            Some(v - 1)
        } else {
            None
        },
        _ => None,
    }
}

/// The byte ranges of a vertex line's three coordinate fields, in `text`.
#[derive(Debug, Copy, Clone, PartialEq, Eq)]
pub struct VertexFields {
    pub x: (usize, usize),
    pub y: (usize, usize),
    pub z: (usize, usize),
}

/// A triangle, by the 0-based indices of its vertices.
#[derive(Debug, Copy, Clone, PartialEq, Eq)]
pub struct Face {
    pub a: usize,
    pub b: usize,
    pub c: usize,
}

/// Why a mesh text was refused, with the byte offset at which the offending line starts.
#[derive(Debug, Copy, Clone, PartialEq, Eq)]
pub enum ObjError {
    /// A `v` line with fewer than three coordinates.
    MissingCoordinate { at: usize },
    /// An `f` line with fewer than three vertices.
    MissingVertex { at: usize },
    /// A face field that is not `v/vt/vn` with three positive decimal indices.
    BadIndex { at: usize },
    /// A face that names a vertex not defined on an earlier line.
    IndexOutOfRange { at: usize },
}

/// What one line of a mesh text contributes.
#[derive(Debug, Copy, Clone, PartialEq, Eq)]
pub enum ObjLine {
    Vertex(VertexFields),
    Face(Face),
    Other,
}

/// A mesh text read into vertex coordinate fields and faces, in the order of their
/// lines.
#[derive(Debug, Clone, PartialEq, Eq)]
pub struct ObjMesh {
    pub vertices: Vec<VertexFields>,
    pub faces: Vec<Face>,
}

pub open spec fn as_range(k: (int, int)) -> (usize, usize) {
    (k.0 as usize, k.1 as usize)
}

/// The field at `k` is the single byte `c`.
pub open spec fn is_word(t: Seq<u8>, k: (int, int), c: u8) -> bool {
    k.1 == k.0 + 1 && t[k.0] == c
}

/// The three coordinate fields of a `v` line, read from `from` to the line's end `le`.
pub open spec fn vertex_line(t: Seq<u8>, from: int, le: int, at: usize) -> Result<ObjLine, ObjError> {
    match first_token(t, from, le) {
        None => Err(ObjError::MissingCoordinate { at }),
        Some(x) => match first_token(t, x.1, le) {
            None => Err(ObjError::MissingCoordinate { at }),
            Some(y) => match first_token(t, y.1, le) {
                None => Err(ObjError::MissingCoordinate { at }),
                Some(z) => Ok(
                    ObjLine::Vertex(VertexFields { x: as_range(x), y: as_range(y), z: as_range(z) }),
                ),
            },
        },
    }
}

/// The next vertex of an `f` line, read from `from`, and where its field ends.
pub open spec fn corner(t: Seq<u8>, from: int, le: int, at: usize) -> Result<(usize, int), ObjError> {
    match first_token(t, from, le) {
        None => Err(ObjError::MissingVertex { at }),
        Some(k) => match face_vertex(t, k.0, k.1) {
            None => Err(ObjError::BadIndex { at }),
            Some(v) => Ok((v, k.1)),
        },
    }
}

/// The face of an `f` line, read from `from`, given the number of vertices defined so far.
pub open spec fn face_line(t: Seq<u8>, from: int, le: int, n: nat, at: usize) -> Result<ObjLine, ObjError> {
    match corner(t, from, le, at) {
        Err(e) => Err(e),
        Ok(a) => match corner(t, a.1, le, at) {
            Err(e) => Err(e),
            Ok(b) => match corner(t, b.1, le, at) {
                Err(e) => Err(e),
                Ok(c) => if a.0 < n && b.0 < n && c.0 < n {
                    Ok(ObjLine::Face(Face { a: a.0, b: b.0, c: c.0 }))
                } else {
                    Err(ObjError::IndexOutOfRange { at })
                },
            },
        },
    }
}

/// What the line `[ls, le)` contributes: `v` and `f` lines are read, other lines (and
/// fields past the third) are skipped.
#[verifier::opaque]
pub open spec fn line_meaning(t: Seq<u8>, ls: int, le: int, n: nat, at: usize) -> Result<ObjLine, ObjError> {
    match first_token(t, ls, le) {
        None => Ok(ObjLine::Other),
        Some(k) => if is_word(t, k, 118) {
            vertex_line(t, k.1, le, at)
        } else if is_word(t, k, 102) {
            face_line(t, k.1, le, n, at)
        } else {
            Ok(ObjLine::Other)
        },
    }
}

/// Where the line that starts at `i` ends: at the next newline or at the end.
pub open spec fn line_end(t: Seq<u8>, i: int) -> int
    decreases t.len() - i,
{
    if i >= t.len() || t[i] == 10 {
        i
    } else {
        line_end(t, i + 1)
    }
}

/// The vertices and faces of the lines from `i` on, after `verts` and `faces` were
/// read from the lines before.
pub open spec fn parse_from(
    t: Seq<u8>,
    i: int,
    verts: Seq<VertexFields>,
    faces: Seq<Face>,
) -> Result<(Seq<VertexFields>, Seq<Face>), ObjError>
    decreases t.len() + 1 - i,
    via parse_from_decreases
{
    let le = line_end(t, i);
    if i >= t.len() || i < 0 {
        Ok((verts, faces))
    } else {
        match line_meaning(t, i, le, verts.len(), i as usize) {
            Err(e) => Err(e),
            Ok(item) => parse_from(t, le + 1, add_line(verts, faces, item).0, add_line(verts, faces, item).1),
        }
    }
}

/// The vertices and faces after one more line contributed `item`.
pub open spec fn add_line(verts: Seq<VertexFields>, faces: Seq<Face>, item: ObjLine) -> (Seq<VertexFields>, Seq<Face>) {
    match item {
        ObjLine::Vertex(v) => (verts.push(v), faces),
        ObjLine::Face(f) => (verts, faces.push(f)),
        ObjLine::Other => (verts, faces),
    }
}

#[via_fn]
proof fn parse_from_decreases(t: Seq<u8>, i: int, verts: Seq<VertexFields>, faces: Seq<Face>) {
    if 0 <= i < t.len() {
        lemma_line_end_bounds(t, i);
    }
}

proof fn lemma_line_end_bounds(t: Seq<u8>, i: int)
    requires
        0 <= i <= t.len(),
    ensures
        i <= line_end(t, i) <= t.len(),
    decreases t.len() - i,
{
    if i < t.len() && t[i] != 10 {
        lemma_line_end_bounds(t, i + 1);
    }
}

/// The mesh that a text in the OBJ format describes.
pub open spec fn obj_of(t: Seq<u8>) -> Result<(Seq<VertexFields>, Seq<Face>), ObjError> {
    parse_from(t, 0, Seq::empty(), Seq::empty())
}

fn find_line_end(text: &[u8], i: usize) -> (r: usize)
    requires
        i <= text@.len(),
    ensures
        r == line_end(text@, i as int),
        i <= r <= text@.len(),
{
    let mut j = i;
    while j < text.len() && text[j] != 10
        invariant
            i <= j <= text@.len(),
            line_end(text@, i as int) == line_end(text@, j as int),
        decreases text@.len() - j,
    {
        j = j + 1;
    }
    j
}

fn read_corner(text: &[u8], from: usize, le: usize, at: usize) -> (r: Result<(usize, usize), ObjError>)
    requires
        from <= le <= text@.len(),
    ensures
        match corner(text@, from as int, le as int, at) {
            Err(e) => r == Err::<(usize, usize), ObjError>(e),
            Ok(c) => r == Ok::<(usize, usize), ObjError>((c.0, c.1 as usize)) && from <= c.1 <= le,
        },
{
    match next_token(text, from, le) {
        None => Err(ObjError::MissingVertex { at }),
        Some((s, e)) => match parse_face_vertex(text, s, e) {
            None => Err(ObjError::BadIndex { at }),
            Some(v) => Ok((v, e)),
        },
    }
}

fn read_line(text: &[u8], ls: usize, le: usize, n: usize, at: usize) -> (r: Result<ObjLine, ObjError>)
    requires
        ls <= le <= text@.len(),
    ensures
        r == line_meaning(text@, ls as int, le as int, n as nat, at),
{
    reveal(line_meaning);
    let k = match next_token(text, ls, le) {
        None => return Ok(ObjLine::Other),
        Some(k) => k,
    };
    if k.1 == k.0 + 1 && text[k.0] == 118 {
        let x = match next_token(text, k.1, le) {
            None => return Err(ObjError::MissingCoordinate { at }),
            Some(x) => x,
        };
        let y = match next_token(text, x.1, le) {
            None => return Err(ObjError::MissingCoordinate { at }),
            Some(y) => y,
        };
        let z = match next_token(text, y.1, le) {
            None => return Err(ObjError::MissingCoordinate { at }),
            Some(z) => z,
        };
        Ok(ObjLine::Vertex(VertexFields { x, y, z }))
    } else if k.1 == k.0 + 1 && text[k.0] == 102 {
        let a = read_corner(text, k.1, le, at)?;
        let b = read_corner(text, a.1, le, at)?;
        let c = read_corner(text, b.1, le, at)?;
        if a.0 < n && b.0 < n && c.0 < n {
            Ok(ObjLine::Face(Face { a: a.0, b: b.0, c: c.0 }))
        } else {
            Err(ObjError::IndexOutOfRange { at })
        }
    } else {
        Ok(ObjLine::Other)
    }
}

/// Reads a mesh text in the OBJ format: each `v x y z` line defines the next vertex,
/// whose coordinate fields are handed back as byte ranges of `text`; each
/// `f a/at/an b/bt/bn c/ct/cn` line a triangle over vertices defined above it (indices
/// counted from 1 in the text, from 0 in the result). Other lines are skipped. A
/// malformed `v` or `f` line refuses the whole text.
pub fn from_obj_text(text: &[u8]) -> (r: Result<ObjMesh, ObjError>)
    ensures
        match obj_of(text@) {
            Ok(m) => r is Ok && r->Ok_0.vertices@ == m.0 && r->Ok_0.faces@ == m.1,
            Err(e) => r == Err::<ObjMesh, ObjError>(e),
        },
{
    let mut vertices: Vec<VertexFields> = Vec::new();
    let mut faces: Vec<Face> = Vec::new();
    let mut i: usize = 0;
    while i < text.len()
        invariant
            i <= text@.len(),
            obj_of(text@) == parse_from(text@, i as int, vertices@, faces@),
        decreases text@.len() - i,
    {
        let le = find_line_end(text, i);
        proof {
            lemma_line_end_bounds(text@, i as int);
        }
        let item = read_line(text, i, le, vertices.len(), i);
        let ghost before = (vertices@, faces@);
        match item {
            Err(e) => return Err(e),
            Ok(ObjLine::Vertex(v)) => vertices.push(v),
            Ok(ObjLine::Face(f)) => faces.push(f),
            Ok(ObjLine::Other) => {},
        }
        assert((vertices@, faces@) == add_line(before.0, before.1, item->Ok_0));
        assert(obj_of(text@) == parse_from(text@, le + 1, vertices@, faces@));
        if le >= text.len() {
            proof {
                lemma_line_end_bounds(text@, i as int);
            }
            return Ok(ObjMesh { vertices, faces });
        }
        i = le + 1;
    }
    Ok(ObjMesh { vertices, faces })
}

} // verus!
