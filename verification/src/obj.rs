use vstd::prelude::*;
use crate::text::{
    views, ws_tokens, split_pieces, parse_i32_spec, split_whitespace, split_on, parse_i32,
    lemma_split_pieces_nonempty,
};

verus! {

/// What a line of a Wavefront OBJ file asks for.
#[derive(Debug, Clone, Copy, PartialEq, Eq, Structural)]
pub enum LineKind {
    /// Blank lines, unknown keywords and lines too short for their keyword.
    Skip,
    /// `v x y z`
    Position,
    /// `vt u v`
    TexCoord,
    /// `vn x y z`
    Normal,
    /// `f` with at least three corners
    Face,
}

/// A classified OBJ line and the tokens after its keyword.
pub struct ObjLine {
    pub kind: LineKind,
    pub args: Vec<Vec<char>>,
}

/// The kind of a line with white-space separated `tokens`.
pub open spec fn line_kind(tokens: Seq<Seq<char>>) -> LineKind {
    if tokens.len() == 0 {
        LineKind::Skip
    } else if tokens[0] == seq!['v'] {
        if tokens.len() >= 4 {
            LineKind::Position
        } else {
            LineKind::Skip
        }
    } else if tokens[0] == seq!['v', 't'] {
        if tokens.len() >= 3 {
            LineKind::TexCoord
        } else {
            LineKind::Skip
        }
    } else if tokens[0] == seq!['v', 'n'] {
        if tokens.len() >= 4 {
            LineKind::Normal
        } else {
            LineKind::Skip
        }
    } else if tokens[0] == seq!['f'] {
        if tokens.len() >= 4 {
            LineKind::Face
        } else {
            LineKind::Skip
        }
    } else {
        LineKind::Skip
    }
}

/// Splits an OBJ line into tokens and tells what the line asks for; the
/// arguments are the tokens after the keyword.
pub fn classify_line(line: &Vec<char>) -> (l: ObjLine)
    ensures
        l.kind == line_kind(ws_tokens(line@)),
        views(l.args@) == (if ws_tokens(line@).len() > 0 {
            ws_tokens(line@).drop_first()
        } else {
            Seq::<Seq<char>>::empty()
        }),
{
    let mut tokens = split_whitespace(line);
    let ghost all = views(tokens@);
    if tokens.len() == 0 {
        return ObjLine { kind: LineKind::Skip, args: tokens };
    }
    let n = tokens.len();
    let keyword = tokens.remove(0);
    assert(keyword@ == all[0]);
    let kind = if keyword.len() == 1 && keyword[0] == 'v' {
        assert(keyword@ =~= seq!['v']);
        if n >= 4 {
            LineKind::Position
        } else {
            LineKind::Skip
        }
    } else if keyword.len() == 2 && keyword[0] == 'v' && keyword[1] == 't' {
        assert(keyword@ =~= seq!['v', 't']);
        assert(keyword@ != seq!['v']);
        if n >= 3 {
            LineKind::TexCoord
        } else {
            LineKind::Skip
        }
    } else if keyword.len() == 2 && keyword[0] == 'v' && keyword[1] == 'n' {
        assert(keyword@ =~= seq!['v', 'n']);
        assert(keyword@ != seq!['v']);
        assert(keyword@ != seq!['v', 't']);
        if n >= 4 {
            LineKind::Normal
        } else {
            LineKind::Skip
        }
    } else if keyword.len() == 1 && keyword[0] == 'f' {
        assert(keyword@ =~= seq!['f']);
        assert(keyword@ != seq!['v']);
        assert(keyword@ != seq!['v', 't']);
        assert(keyword@ != seq!['v', 'n']);
        if n >= 4 {
            LineKind::Face
        } else {
            LineKind::Skip
        }
    } else {
        assert(keyword@ != seq!['v']);
        assert(keyword@ != seq!['v', 't']);
        assert(keyword@ != seq!['v', 'n']);
        assert(keyword@ != seq!['f']);
        LineKind::Skip
    };
    proof {
        assert(views(tokens@) =~= all.drop_first());
    }
    ObjLine { kind, args: tokens }
}

/// A face corner: indices into the positions, texture coordinates and
/// normals read so far. `None` stands for the default texture coordinate
/// (0, 0) or the default normal (0, 1, 0).
#[derive(Debug, Clone, Copy, PartialEq, Eq, Structural)]
pub struct VertexRef {
    pub position: usize,
    pub tex_coord: Option<usize>,
    pub normal: Option<usize>,
}

/// A face corner whose position index is missing or not a number.
#[derive(Debug, Clone, Copy, PartialEq, Eq, Structural)]
pub enum FaceError {
    InvalidPositionIndex,
}

/// What one face corner token (`p`, `p/t`, `p/t/n` or `p//n`) denotes.
#[derive(Debug, Clone, Copy, PartialEq, Eq, Structural)]
pub enum TokenOutcome {
    Vertex(VertexRef),
    /// The position index does not parse.
    InvalidPosition,
    /// An index points outside the data read so far.
    OutOfRange,
}

/// The mathematical content of an `ObjData`. The attribute values are
/// represented by classes: two attribute values are equal exactly when
/// their classes are.
pub struct ObjView {
    pub classes: ObjClasses,
    pub vertices: Seq<VertexRef>,
    pub indices: Seq<u32>,
}

/// The value classes of the attributes read so far and of the defaults.
pub struct ObjClasses {
    pub position_classes: Seq<u32>,
    pub tex_coord_classes: Seq<u32>,
    pub normal_classes: Seq<u32>,
    pub default_tex_coord_class: u32,
    pub default_normal_class: u32,
}

/// Mesh data collected from an OBJ file: which values the attributes read
/// so far have, the distinct face corners met so far, and the triangle list
/// over them.
pub struct ObjData {
    position_classes: Vec<u32>,
    tex_coord_classes: Vec<u32>,
    normal_classes: Vec<u32>,
    default_tex_coord_class: u32,
    default_normal_class: u32,
    vertices: Vec<VertexRef>,
    indices: Vec<u32>,
}

impl View for ObjData {
    type V = ObjView;

    closed spec fn view(&self) -> ObjView {
        ObjView {
            classes: ObjClasses {
                position_classes: self.position_classes@,
                tex_coord_classes: self.tex_coord_classes@,
                normal_classes: self.normal_classes@,
                default_tex_coord_class: self.default_tex_coord_class,
                default_normal_class: self.default_normal_class,
            },
            vertices: self.vertices@,
            indices: self.indices@,
        }
    }
}

/// An OBJ index, 1-based when positive and counted back from the end when
/// negative, as a 0-based index into `len` items (possibly out of range).
pub open spec fn resolve_index(i: i32, len: int) -> int {
    if i < 0 {
        len + i
    } else {
        i - 1
    }
}

/// The index given by piece `k` of a corner token; a missing or unparsable
/// piece counts as index 0.
pub open spec fn piece_index(pieces: Seq<Seq<char>>, k: int, len: int) -> int {
    if pieces.len() > k {
        match parse_i32_spec(pieces[k]) {
            Some(i) => resolve_index(i, len),
            None => 0,
        }
    } else {
        0
    }
}

/// What a face corner token denotes, given the attributes read so far.
pub open spec fn token_outcome(c: ObjClasses, token: Seq<char>) -> TokenOutcome {
    let pieces = split_pieces(token, '/');
    match parse_i32_spec(pieces[0]) {
        None => TokenOutcome::InvalidPosition,
        Some(i) => {
            let p = resolve_index(i, c.position_classes.len() as int);
            let t = piece_index(pieces, 1, c.tex_coord_classes.len() as int);
            let n = piece_index(pieces, 2, c.normal_classes.len() as int);
            if p < 0 || p >= c.position_classes.len() || t >= c.tex_coord_classes.len()
                || n >= c.normal_classes.len() {
                TokenOutcome::OutOfRange
            } else {
                TokenOutcome::Vertex(
                    VertexRef {
                        position: p as usize,
                        tex_coord: if t >= 0 {
                            Some(t as usize)
                        } else {
                            None
                        },
                        normal: if n >= 0 {
                            Some(n as usize)
                        } else {
                            None
                        },
                    },
                )
            }
        },
    }
}

/// The value classes of a corner: two corners are equal exactly when their
/// keys are.
pub open spec fn key_of(c: ObjClasses, v: VertexRef) -> (u32, u32, u32) {
    (
        c.position_classes[v.position as int],
        match v.tex_coord {
            Some(t) => c.tex_coord_classes[t as int],
            None => c.default_tex_coord_class,
        },
        match v.normal {
            Some(n) => c.normal_classes[n as int],
            None => c.default_normal_class,
        },
    )
}

/// The corner refers to attributes read so far.
pub open spec fn vertex_in_range(c: ObjClasses, v: VertexRef) -> bool {
    &&& v.position < c.position_classes.len()
    &&& v.tex_coord matches Some(t) ==> t < c.tex_coord_classes.len()
    &&& v.normal matches Some(n) ==> n < c.normal_classes.len()
}

/// Position of the first corner of `vs` with key `key`.
pub open spec fn find_vertex(c: ObjClasses, vs: Seq<VertexRef>, key: (u32, u32, u32)) -> Option<int>
    decreases vs.len(),
{
    if vs.len() == 0 {
        None
    } else {
        match find_vertex(c, vs.drop_last(), key) {
            Some(j) => Some(j),
            None => if key_of(c, vs.last()) == key {
                Some(vs.len() - 1)
            } else {
                None
            },
        }
    }
}

/// Position of the first corner token that does not denote a corner.
pub open spec fn first_failure(c: ObjClasses, tokens: Seq<Seq<char>>) -> Option<int>
    decreases tokens.len(),
{
    if tokens.len() == 0 {
        None
    } else {
        match first_failure(c, tokens.drop_last()) {
            Some(j) => Some(j),
            None => if token_outcome(c, tokens.last()) is Vertex {
                None
            } else {
                Some(tokens.len() - 1)
            },
        }
    }
}

/// Reading the face `tokens` would index past the attributes read so far:
/// the first corner that does not denote a vertex has an index out of range.
pub open spec fn face_out_of_range(c: ObjClasses, tokens: Seq<Seq<char>>) -> bool {
    match first_failure(c, tokens) {
        Some(i) => token_outcome(c, tokens[i]) is OutOfRange,
        None => false,
    }
}

/// The corner list after reading the corner `tokens` in order, a new corner
/// joining the list unless an equal one is in it, and for each token the
/// position of its corner in the list.
pub open spec fn fold_face(d: ObjView, tokens: Seq<Seq<char>>) -> (Seq<VertexRef>, Seq<u32>)
    decreases tokens.len(),
{
    if tokens.len() == 0 {
        (d.vertices, Seq::empty())
    } else {
        let (vs, ids) = fold_face(d, tokens.drop_last());
        match token_outcome(d.classes, tokens.last()) {
            TokenOutcome::Vertex(v) => match find_vertex(d.classes, vs, key_of(d.classes, v)) {
                Some(j) => (vs, ids.push(j as u32)),
                None => (vs.push(v), ids.push(vs.len() as u32)),
            },
            _ => (vs, ids),
        }
    }
}

/// The fan of triangles (`ids[0]`, `ids[i]`, `ids[i + 1]`) for `i` in `1..m`.
pub open spec fn fan(ids: Seq<u32>, m: int) -> Seq<u32>
    decreases m,
{
    if m <= 1 {
        Seq::empty()
    } else {
        fan(ids, m - 1) + seq![ids[0], ids[m - 1], ids[m]]
    }
}

/// No two corners of `vs` are equal.
pub open spec fn keys_distinct(c: ObjClasses, vs: Seq<VertexRef>) -> bool {
    forall|i: int, j: int|
        0 <= i < j < vs.len() ==> key_of(c, #[trigger] vs[i]) != key_of(c, #[trigger] vs[j])
}

/// The invariant of mesh data: counts fit the index types, corners refer to
/// attributes read, no two corners are equal, and triangle indices refer to
/// corners.
pub open spec fn obj_wf(d: ObjView) -> bool {
    &&& d.classes.position_classes.len() <= i32::MAX
    &&& d.classes.tex_coord_classes.len() <= i32::MAX
    &&& d.classes.normal_classes.len() <= i32::MAX
    &&& forall|i: int| 0 <= i < d.vertices.len() ==> vertex_in_range(d.classes, #[trigger] d.vertices[i])
    &&& keys_distinct(d.classes, d.vertices)
    &&& forall|i: int| 0 <= i < d.indices.len() ==> #[trigger] d.indices[i] < d.vertices.len()
}

proof fn lemma_find_vertex(c: ObjClasses, vs: Seq<VertexRef>, key: (u32, u32, u32))
    ensures
        match find_vertex(c, vs, key) {
            Some(j) => 0 <= j < vs.len() && key_of(c, vs[j]) == key && forall|i: int|
                0 <= i < j ==> key_of(c, #[trigger] vs[i]) != key,
            None => forall|i: int| 0 <= i < vs.len() ==> key_of(c, #[trigger] vs[i]) != key,
        },
    decreases vs.len(),
{
    if vs.len() > 0 {
        let p = vs.drop_last();
        lemma_find_vertex(c, p, key);
        assert forall|i: int| 0 <= i < p.len() implies #[trigger] vs[i] == p[i] by {}
        match find_vertex(c, p, key) {
            Some(j) => {
                assert(vs[j] == p[j]);
                assert forall|i: int| 0 <= i < j implies key_of(c, #[trigger] vs[i]) != key by {
                    assert(vs[i] == p[i]);
                }
            },
            None => {
                assert forall|i: int| 0 <= i < vs.len() - 1 implies key_of(c, #[trigger] vs[i]) != key by {
                    assert(vs[i] == p[i]);
                }
            },
        }
    }
}

proof fn lemma_first_failure(c: ObjClasses, tokens: Seq<Seq<char>>)
    ensures
        match first_failure(c, tokens) {
            Some(j) => 0 <= j < tokens.len() && !(token_outcome(c, tokens[j]) is Vertex) && forall|
                i: int,
            | 0 <= i < j ==> token_outcome(c, #[trigger] tokens[i]) is Vertex,
            None => forall|i: int| 0 <= i < tokens.len() ==> token_outcome(c, #[trigger] tokens[i]) is Vertex,
        },
    decreases tokens.len(),
{
    if tokens.len() > 0 {
        let p = tokens.drop_last();
        lemma_first_failure(c, p);
        match first_failure(c, p) {
            Some(j) => {
                assert(tokens[j] == p[j]);
                assert forall|i: int| 0 <= i < j implies token_outcome(c, #[trigger] tokens[i]) is Vertex by {
                    assert(tokens[i] == p[i]);
                }
            },
            None => {
                assert forall|i: int| 0 <= i < tokens.len() - 1 implies token_outcome(c, #[trigger] tokens[i]) is Vertex by {
                    assert(tokens[i] == p[i]);
                }
            },
        }
    }
}

/// A face of `m + 1` corners gives `m - 1` triangles, all over its corners.
pub proof fn fan_shape(ids: Seq<u32>, m: int)
    requires
        1 <= m < ids.len(),
    ensures
        fan(ids, m).len() == 3 * (m - 1),
        forall|i: int| 0 <= i < fan(ids, m).len() ==> ids.contains(#[trigger] fan(ids, m)[i]),
    decreases m,
{
    if m > 1 {
        fan_shape(ids, m - 1);
        let prev = fan(ids, m - 1);
        let tri = seq![ids[0], ids[m - 1], ids[m]];
        assert forall|i: int| 0 <= i < fan(ids, m).len() implies ids.contains(#[trigger] fan(ids, m)[i]) by {
            if i < prev.len() {
                assert(fan(ids, m)[i] == prev[i]);
            } else {
                let k = i - prev.len();
                assert(fan(ids, m)[i] == tri[k]);
                if k == 0 {
                    assert(ids[0] == tri[k]);
                } else if k == 1 {
                    assert(ids[m - 1] == tri[k]);
                } else {
                    assert(ids[m] == tri[k]);
                }
            }
        }
    }
}

/// The position value class of a corner.
pub open spec fn position_class(c: ObjClasses, v: VertexRef) -> u32 {
    c.position_classes[v.position as int]
}

/// The texture-coordinate value class of a corner; the default one when the
/// corner gives none.
pub open spec fn tex_coord_class(c: ObjClasses, v: VertexRef) -> u32 {
    match v.tex_coord {
        Some(t) => c.tex_coord_classes[t as int],
        None => c.default_tex_coord_class,
    }
}

/// The normal value class of a corner; the default one when the corner
/// gives none.
pub open spec fn normal_class(c: ObjClasses, v: VertexRef) -> u32 {
    match v.normal {
        Some(n) => c.normal_classes[n as int],
        None => c.default_normal_class,
    }
}

/// Two corners have equal position, texture coordinate and normal.
pub open spec fn same_attributes(c: ObjClasses, v1: VertexRef, v2: VertexRef) -> bool {
    &&& position_class(c, v1) == position_class(c, v2)
    &&& tex_coord_class(c, v1) == tex_coord_class(c, v2)
    &&& normal_class(c, v1) == normal_class(c, v2)
}

/// Corners are shared only when they are equal in every attribute: when
/// every corner token of a face denotes a corner, each token gets an index
/// whose vertex has the position, texture coordinate and normal of the
/// token's corner, so two tokens share a vertex only if their corners agree
/// in all three.
pub proof fn shared_corners_have_equal_attributes(d: ObjView, tokens: Seq<Seq<char>>)
    requires
        first_failure(d.classes, tokens) is None,
        d.vertices.len() + tokens.len() <= u32::MAX,
    ensures
        ({
            let (vs, ids) = fold_face(d, tokens);
            &&& ids.len() == tokens.len()
            &&& vs.len() <= d.vertices.len() + tokens.len()
            &&& forall|i: int|
                0 <= i < tokens.len() ==> ids[i] < vs.len() && (token_outcome(d.classes, #[trigger] tokens[i])
                    matches TokenOutcome::Vertex(v) ==> same_attributes(d.classes, vs[ids[i] as int], v))
            &&& forall|i: int, j: int|
                0 <= i < tokens.len() && 0 <= j < tokens.len() && ids[i] == ids[j] ==> (token_outcome(
                    d.classes,
                    #[trigger] tokens[i],
                ) matches TokenOutcome::Vertex(vi) ==> (token_outcome(d.classes, #[trigger] tokens[j])
                    matches TokenOutcome::Vertex(vj) ==> same_attributes(d.classes, vi, vj)))
        }),
    decreases tokens.len(),
{
    let c = d.classes;
    lemma_first_failure(c, tokens);
    if tokens.len() > 0 {
        let p = tokens.drop_last();
        lemma_first_failure(c, p);
        assert(first_failure(c, p) is None);
        shared_corners_have_equal_attributes(d, p);
        let (vs0, ids0) = fold_face(d, p);
        let (vs, ids) = fold_face(d, tokens);
        let last = tokens.len() - 1;
        assert(tokens.last() == tokens[last]);
        assert(token_outcome(c, tokens[last]) is Vertex);
        let v = token_outcome(c, tokens[last])->Vertex_0;
        lemma_find_vertex(c, vs0, key_of(c, v));
        match find_vertex(c, vs0, key_of(c, v)) {
            Some(f) => {
                assert(vs == vs0);
                assert(ids == ids0.push(f as u32));
                assert(key_of(c, vs0[f]) == key_of(c, v));
                assert(same_attributes(c, vs[ids[last] as int], v));
            },
            None => {
                assert(vs == vs0.push(v));
                assert(ids == ids0.push(vs0.len() as u32));
                assert(vs[ids[last] as int] == v);
            },
        }
        assert forall|i: int| 0 <= i < tokens.len() implies ids[i] < vs.len() && (token_outcome(
            c,
            #[trigger] tokens[i],
        ) matches TokenOutcome::Vertex(w) ==> same_attributes(c, vs[ids[i] as int], w)) by {
            if i < last {
                assert(tokens[i] == p[i]);
                assert(ids[i] == ids0[i]);
                assert(vs[ids[i] as int] == vs0[ids0[i] as int]);
            }
        }
        assert forall|i: int, j: int|
            0 <= i < tokens.len() && 0 <= j < tokens.len() && ids[i] == ids[j] implies (token_outcome(
            c,
            #[trigger] tokens[i],
        ) matches TokenOutcome::Vertex(vi) ==> (token_outcome(c, #[trigger] tokens[j]) matches TokenOutcome::Vertex(
            vj,
        ) ==> same_attributes(c, vi, vj))) by {
            assert(ids[i] < vs.len());
            assert(ids[j] < vs.len());
        }
    }
}

/// A line's kind follows from its keyword and its number of tokens: `v` and
/// `vn` need three coordinates, `vt` two (a third is allowed), `f` three
/// corners; with fewer, or with another keyword, the line is skipped.
pub proof fn line_kind_by_keyword(tokens: Seq<Seq<char>>)
    ensures
        tokens.len() >= 4 && tokens[0] == seq!['v'] ==> line_kind(tokens) == LineKind::Position,
        tokens.len() >= 3 && tokens[0] == seq!['v', 't'] ==> line_kind(tokens) == LineKind::TexCoord,
        tokens.len() >= 4 && tokens[0] == seq!['v', 'n'] ==> line_kind(tokens) == LineKind::Normal,
        tokens.len() >= 4 && tokens[0] == seq!['f'] ==> line_kind(tokens) == LineKind::Face,
        line_kind(tokens) == LineKind::Position ==> tokens.len() >= 4 && tokens[0] == seq!['v'],
        line_kind(tokens) == LineKind::TexCoord ==> tokens.len() >= 3 && tokens[0] == seq!['v', 't'],
        line_kind(tokens) == LineKind::Normal ==> tokens.len() >= 4 && tokens[0] == seq!['v', 'n'],
        line_kind(tokens) == LineKind::Face ==> tokens.len() >= 4 && tokens[0] == seq!['f'],
{
    assert(seq!['v'] != seq!['v', 't']) by {
        assert(seq!['v'].len() != seq!['v', 't'].len());
    }
    assert(seq!['v'] != seq!['v', 'n']) by {
        assert(seq!['v'].len() != seq!['v', 'n'].len());
    }
    assert(seq!['v', 't'] != seq!['v', 'n']) by {
        assert(seq!['v', 't'][1] != seq!['v', 'n'][1]);
    }
    assert(seq!['f'] != seq!['v']) by {
        assert(seq!['f'][0] != seq!['v'][0]);
    }
    assert(seq!['f'] != seq!['v', 't']) by {
        assert(seq!['f'].len() != seq!['v', 't'].len());
    }
    assert(seq!['f'] != seq!['v', 'n']) by {
        assert(seq!['f'].len() != seq!['v', 'n'].len());
    }
}

/// `c2` holds the attributes of `c1` and possibly more after them.
pub open spec fn classes_extend(c1: ObjClasses, c2: ObjClasses) -> bool {
    &&& c1.position_classes.len() <= c2.position_classes.len()
    &&& c1.tex_coord_classes.len() <= c2.tex_coord_classes.len()
    &&& c1.normal_classes.len() <= c2.normal_classes.len()
    &&& forall|i: int| 0 <= i < c1.position_classes.len() ==> c1.position_classes[i] == #[trigger] c2.position_classes[i]
    &&& forall|i: int| 0 <= i < c1.tex_coord_classes.len() ==> c1.tex_coord_classes[i] == #[trigger] c2.tex_coord_classes[i]
    &&& forall|i: int| 0 <= i < c1.normal_classes.len() ==> c1.normal_classes[i] == #[trigger] c2.normal_classes[i]
    &&& c1.default_tex_coord_class == c2.default_tex_coord_class
    &&& c1.default_normal_class == c2.default_normal_class
}

proof fn lemma_extend_classes(c1: ObjClasses, c2: ObjClasses, vs: Seq<VertexRef>)
    requires
        classes_extend(c1, c2),
        forall|i: int| 0 <= i < vs.len() ==> vertex_in_range(c1, #[trigger] vs[i]),
        keys_distinct(c1, vs),
    ensures
        forall|i: int| 0 <= i < vs.len() ==> vertex_in_range(c2, #[trigger] vs[i]),
        keys_distinct(c2, vs),
{
    assert forall|i: int| 0 <= i < vs.len() implies key_of(c2, #[trigger] vs[i]) == key_of(c1, vs[i]) by {
        assert(vertex_in_range(c1, vs[i]));
    }
}

impl ObjData {
    pub closed spec fn wf(&self) -> bool {
        obj_wf(self@)
    }

    /// Empty mesh data. `default_tex_coord_class` and `default_normal_class`
    /// are the classes of the default texture coordinate (0, 0) and of the
    /// default normal (0, 1, 0).
    pub fn new(default_tex_coord_class: u32, default_normal_class: u32) -> (d: Self)
        ensures
            d.wf(),
            d@.classes.position_classes == Seq::<u32>::empty(),
            d@.classes.tex_coord_classes == Seq::<u32>::empty(),
            d@.classes.normal_classes == Seq::<u32>::empty(),
            d@.classes.default_tex_coord_class == default_tex_coord_class,
            d@.classes.default_normal_class == default_normal_class,
            d@.vertices == Seq::<VertexRef>::empty(),
            d@.indices == Seq::<u32>::empty(),
    {
        ObjData {
            position_classes: Vec::new(),
            tex_coord_classes: Vec::new(),
            normal_classes: Vec::new(),
            default_tex_coord_class,
            default_normal_class,
            vertices: Vec::new(),
            indices: Vec::new(),
        }
    }

    /// Records a position (`v` line) whose value has class `class`.
    pub fn add_position(&mut self, class: u32)
        requires
            old(self).wf(),
            old(self)@.classes.position_classes.len() < i32::MAX,
        ensures
            final(self).wf(),
            final(self)@.classes == (ObjClasses {
                position_classes: old(self)@.classes.position_classes.push(class),
                ..old(self)@.classes
            }),
            final(self)@.vertices == old(self)@.vertices,
            final(self)@.indices == old(self)@.indices,
    {
        self.position_classes.push(class);
        proof {
            lemma_extend_classes(old(self)@.classes, self@.classes, self@.vertices);
            assert(self@.vertices == old(self)@.vertices);
            assert(self@.indices == old(self)@.indices);
            assert(self@.classes.position_classes.len() <= i32::MAX);
        }
    }

    /// Records a texture coordinate (`vt` line) whose value has class `class`.
    pub fn add_tex_coord(&mut self, class: u32)
        requires
            old(self).wf(),
            old(self)@.classes.tex_coord_classes.len() < i32::MAX,
        ensures
            final(self).wf(),
            final(self)@.classes == (ObjClasses {
                tex_coord_classes: old(self)@.classes.tex_coord_classes.push(class),
                ..old(self)@.classes
            }),
            final(self)@.vertices == old(self)@.vertices,
            final(self)@.indices == old(self)@.indices,
    {
        self.tex_coord_classes.push(class);
        proof {
            lemma_extend_classes(old(self)@.classes, self@.classes, self@.vertices);
            assert(self@.vertices == old(self)@.vertices);
            assert(self@.indices == old(self)@.indices);
            assert(self@.classes.tex_coord_classes.len() <= i32::MAX);
        }
    }

    /// Records a normal (`vn` line) whose value has class `class`.
    pub fn add_normal(&mut self, class: u32)
        requires
            old(self).wf(),
            old(self)@.classes.normal_classes.len() < i32::MAX,
        ensures
            final(self).wf(),
            final(self)@.classes == (ObjClasses {
                normal_classes: old(self)@.classes.normal_classes.push(class),
                ..old(self)@.classes
            }),
            final(self)@.vertices == old(self)@.vertices,
            final(self)@.indices == old(self)@.indices,
    {
        self.normal_classes.push(class);
        proof {
            lemma_extend_classes(old(self)@.classes, self@.classes, self@.vertices);
            assert(self@.vertices == old(self)@.vertices);
            assert(self@.indices == old(self)@.indices);
            assert(self@.classes.normal_classes.len() <= i32::MAX);
        }
    }

    /// The distinct face corners met so far, in order of first use.
    pub fn vertices(&self) -> (vs: &Vec<VertexRef>)
        ensures
            vs@ == self@.vertices,
    {
        &self.vertices
    }

    /// The triangle list: three corner positions per triangle.
    pub fn indices(&self) -> (ids: &Vec<u32>)
        ensures
            ids@ == self@.indices,
    {
        &self.indices
    }

    fn index_from_piece(pieces: &Vec<Vec<char>>, k: usize, len: usize) -> (r: i32)
        requires
            len <= i32::MAX,
        ensures
            r == piece_index(views(pieces@), k as int, len as int),
    {
        if pieces.len() > k {
            assert(views(pieces@)[k as int] == pieces@[k as int]@);
            match parse_i32(&pieces[k]) {
                Some(i) => if i < 0 {
                    len as i32 + i
                } else {
                    i - 1
                },
                None => 0,
            }
        } else {
            0
        }
    }

    fn token_outcome_of(&self, token: &Vec<char>) -> (o: TokenOutcome)
        requires
            self.wf(),
        ensures
            o == token_outcome(self@.classes, token@),
    {
        let pieces = split_on(token, '/');
        proof {
            lemma_split_pieces_nonempty(token@, '/');
            assert(views(pieces@)[0] == pieces@[0]@);
        }
        match parse_i32(&pieces[0]) {
            None => TokenOutcome::InvalidPosition,
            Some(i) => {
                let plen = self.position_classes.len();
                let tlen = self.tex_coord_classes.len();
                let nlen = self.normal_classes.len();
                let p: i32 = if i < 0 {
                    plen as i32 + i
                } else {
                    i - 1
                };
                let t = Self::index_from_piece(&pieces, 1, tlen);
                let n = Self::index_from_piece(&pieces, 2, nlen);
                if p < 0 || p as usize >= plen || (t >= 0 && t as usize >= tlen) || (n >= 0
                    && n as usize >= nlen) {
                    TokenOutcome::OutOfRange
                } else {
                    TokenOutcome::Vertex(
                        VertexRef {
                            position: p as usize,
                            tex_coord: if t >= 0 {
                                Some(t as usize)
                            } else {
                                None
                            },
                            normal: if n >= 0 {
                                Some(n as usize)
                            } else {
                                None
                            },
                        },
                    )
                }
            },
        }
    }

    fn key_of_vertex(&self, v: &VertexRef) -> (k: (u32, u32, u32))
        requires
            vertex_in_range(self@.classes, *v),
        ensures
            k == key_of(self@.classes, *v),
    {
        let p = self.position_classes[v.position];
        let t = match v.tex_coord {
            Some(t) => self.tex_coord_classes[t],
            None => self.default_tex_coord_class,
        };
        let n = match v.normal {
            Some(n) => self.normal_classes[n],
            None => self.default_normal_class,
        };
        (p, t, n)
    }

    fn find_vertex_index(&self, key: (u32, u32, u32)) -> (r: Option<usize>)
        requires
            forall|i: int|
                0 <= i < self@.vertices.len() ==> vertex_in_range(self@.classes, #[trigger] self@.vertices[i]),
        ensures
            match r {
                Some(j) => find_vertex(self@.classes, self@.vertices, key) == Some(j as int),
                None => find_vertex(self@.classes, self@.vertices, key) is None,
            },
    {
        proof {
            lemma_find_vertex(self@.classes, self@.vertices, key);
        }
        let mut j: usize = 0;
        while j < self.vertices.len()
            invariant
                j <= self@.vertices.len(),
                forall|i: int|
                    0 <= i < self@.vertices.len() ==> vertex_in_range(self@.classes, #[trigger] self@.vertices[i]),
                forall|i: int| 0 <= i < j ==> key_of(self@.classes, #[trigger] self@.vertices[i]) != key,
                match find_vertex(self@.classes, self@.vertices, key) {
                    Some(f) => 0 <= f < self@.vertices.len() && key_of(self@.classes, self@.vertices[f]) == key
                        && forall|i: int| 0 <= i < f ==> key_of(self@.classes, #[trigger] self@.vertices[i]) != key,
                    None => forall|i: int|
                        0 <= i < self@.vertices.len() ==> key_of(self@.classes, #[trigger] self@.vertices[i]) != key,
                },
            decreases self@.vertices.len() - j,
        {
            let k = self.key_of_vertex(&self.vertices[j]);
            if k.0 == key.0 && k.1 == key.1 && k.2 == key.2 {
                return Some(j);
            }
            j = j + 1;
        }
        None
    }

    /// Whether the face `face_tokens` stays within the attributes read so
    /// far, that is, whether `process_face` may be called on it.
    pub fn face_in_range(&self, face_tokens: &Vec<Vec<char>>) -> (ok: bool)
        requires
            self.wf(),
        ensures
            ok == !face_out_of_range(self@.classes, views(face_tokens@)),
    {
        let ghost toks = views(face_tokens@);
        let ghost c = self@.classes;
        proof {
            lemma_first_failure(c, toks);
        }
        let mut t: usize = 0;
        while t < face_tokens.len()
            invariant
                self.wf(),
                c == self@.classes,
                toks == views(face_tokens@),
                t <= toks.len(),
                forall|i: int| 0 <= i < t ==> token_outcome(c, #[trigger] toks[i]) is Vertex,
                match first_failure(c, toks) {
                    Some(j) => 0 <= j < toks.len() && !(token_outcome(c, toks[j]) is Vertex) && forall|
                        i: int,
                    | 0 <= i < j ==> token_outcome(c, #[trigger] toks[i]) is Vertex,
                    None => forall|i: int| 0 <= i < toks.len() ==> token_outcome(c, #[trigger] toks[i]) is Vertex,
                },
            decreases toks.len() - t,
        {
            let outcome = self.token_outcome_of(&face_tokens[t]);
            assert(toks[t as int] == face_tokens@[t as int]@);
            match outcome {
                TokenOutcome::Vertex(_) => {},
                TokenOutcome::InvalidPosition => {
                    assert(first_failure(c, toks) == Some(t as int));
                    return true;
                },
                TokenOutcome::OutOfRange => {
                    assert(first_failure(c, toks) == Some(t as int));
                    return false;
                },
            }
            t = t + 1;
        }
        true
    }

    /// Reads a face: each corner token is resolved to a corner, equal
    /// corners are shared, and the face is cut into a fan of triangles
    /// around its first corner. A corner whose position index does not
    /// parse stops the face with an error; the corners met before it stay.
    ///
    /// A face with an index past the attributes read so far would index out
    /// of bounds; such faces are left out (see `face_in_range`), as are
    /// corner counts past `u32`.
    pub fn process_face(&mut self, face_tokens: &Vec<Vec<char>>) -> (r: Result<(), FaceError>)
        requires
            old(self).wf(),
            face_tokens@.len() > 0,
            !face_out_of_range(old(self)@.classes, views(face_tokens@)),
            old(self)@.vertices.len() + face_tokens@.len() <= u32::MAX,
        ensures
            final(self).wf(),
            final(self)@.classes == old(self)@.classes,
            match first_failure(old(self)@.classes, views(face_tokens@)) {
                None => {
                    let (vs, ids) = fold_face(old(self)@, views(face_tokens@));
                    &&& r is Ok
                    &&& final(self)@.vertices == vs
                    &&& final(self)@.indices == old(self)@.indices + fan(ids, ids.len() - 1)
                },
                Some(k) => {
                    &&& r == Err::<(), FaceError>(FaceError::InvalidPositionIndex)
                    &&& final(self)@.vertices == fold_face(old(self)@, views(face_tokens@).take(k)).0
                    &&& final(self)@.indices == old(self)@.indices
                },
            },
    {
        let ghost d = self@;
        let ghost c = d.classes;
        let ghost toks = views(face_tokens@);
        proof {
            lemma_first_failure(c, toks);
        }
        let mut vertex_indices: Vec<u32> = Vec::new();
        let mut t: usize = 0;
        while t < face_tokens.len()
            invariant
                d == old(self)@,
                c == d.classes,
                obj_wf(d),
                toks == views(face_tokens@),
                t <= toks.len(),
                d.vertices.len() + toks.len() <= u32::MAX,
                !face_out_of_range(c, toks),
                match first_failure(c, toks) {
                    Some(j) => 0 <= j < toks.len() && !(token_outcome(c, toks[j]) is Vertex) && forall|
                        i: int,
                    | 0 <= i < j ==> token_outcome(c, #[trigger] toks[i]) is Vertex,
                    None => forall|i: int| 0 <= i < toks.len() ==> token_outcome(c, #[trigger] toks[i]) is Vertex,
                },
                forall|i: int| 0 <= i < t ==> token_outcome(c, #[trigger] toks[i]) is Vertex,
                self@.classes == c,
                self@.indices == d.indices,
                (self@.vertices, vertex_indices@) == fold_face(d, toks.take(t as int)),
                self@.vertices.len() <= d.vertices.len() + t,
                vertex_indices@.len() == t,
                d.vertices.len() <= self@.vertices.len(),
                forall|i: int| 0 <= i < d.vertices.len() ==> #[trigger] self@.vertices[i] == d.vertices[i],
                forall|i: int| 0 <= i < self@.vertices.len() ==> vertex_in_range(c, #[trigger] self@.vertices[i]),
                keys_distinct(c, self@.vertices),
                forall|i: int| 0 <= i < t ==> #[trigger] vertex_indices@[i] < self@.vertices.len(),
            decreases toks.len() - t,
        {
            let outcome = self.token_outcome_of(&face_tokens[t]);
            let ghost vs0 = self@.vertices;
            let ghost ids0 = vertex_indices@;
            proof {
                assert(toks[t as int] == face_tokens@[t as int]@);
                assert(toks.take(t + 1).drop_last() =~= toks.take(t as int));
                assert(toks.take(t + 1).last() == toks[t as int]);
            }
            match outcome {
                TokenOutcome::Vertex(v) => {
                    let key = self.key_of_vertex(&v);
                    let found = self.find_vertex_index(key);
                    proof {
                        lemma_find_vertex(c, vs0, key);
                    }
                    let idx: u32 = match found {
                        Some(j) => j as u32,
                        None => {
                            let j = self.vertices.len() as u32;
                            self.vertices.push(v);
                            proof {
                                assert forall|a: int, b: int|
                                    0 <= a < b < self@.vertices.len() implies key_of(c, #[trigger] self@.vertices[a])
                                    != key_of(c, #[trigger] self@.vertices[b]) by {
                                    if b == vs0.len() {
                                        assert(self@.vertices[a] == vs0[a]);
                                    } else {
                                        assert(self@.vertices[a] == vs0[a]);
                                        assert(self@.vertices[b] == vs0[b]);
                                    }
                                }
                                assert forall|i: int| 0 <= i < self@.vertices.len() implies vertex_in_range(
                                    c,
                                    #[trigger] self@.vertices[i],
                                ) by {
                                    if i < vs0.len() {
                                        assert(self@.vertices[i] == vs0[i]);
                                    }
                                }
                            }
                            j
                        },
                    };
                    vertex_indices.push(idx);
                    proof {
                        assert forall|i: int| 0 <= i < t + 1 implies #[trigger] vertex_indices@[i]
                            < self@.vertices.len() by {
                            if i < t {
                                assert(vertex_indices@[i] == ids0[i]);
                            }
                        }
                    }
                },
                TokenOutcome::InvalidPosition => {
                    assert(first_failure(c, toks) == Some(t as int));
                    return Err(FaceError::InvalidPositionIndex);
                },
                TokenOutcome::OutOfRange => {
                    assert(first_failure(c, toks) == Some(t as int));
                    assert(false);
                    return Err(FaceError::InvalidPositionIndex);
                },
            }
            t = t + 1;
        }
        proof {
            assert(toks.take(toks.len() as int) =~= toks);
        }
        let ghost ids = vertex_indices@;
        let ghost vs = self@.vertices;
        let n = vertex_indices.len();
        let mut i: usize = 1;
        while i < n - 1
            invariant
                n == ids.len(),
                n >= 1,
                1 <= i,
                i <= n - 1 || (n == 1 && i == 1),
                vertex_indices@ == ids,
                self@.classes == c,
                self@.vertices == vs,
                self@.indices == d.indices + fan(ids, i as int),
            decreases n - i,
        {
            self.indices.push(vertex_indices[0]);
            self.indices.push(vertex_indices[i]);
            self.indices.push(vertex_indices[i + 1]);
            proof {
                assert(self@.indices =~= d.indices + fan(ids, i + 1));
            }
            i = i + 1;
        }
        proof {
            let m = (n - 1) as int;
            if n >= 2 {
                assert(i == n - 1);
                fan_shape(ids, m);
            } else {
                assert(fan(ids, 1) == Seq::<u32>::empty());
                assert(fan(ids, 0) == Seq::<u32>::empty());
            }
            assert forall|k: int| 0 <= k < self@.indices.len() implies #[trigger] self@.indices[k]
                < self@.vertices.len() by {
                if k >= d.indices.len() {
                    let f = fan(ids, m);
                    assert(self@.indices[k] == f[k - d.indices.len()]);
                    assert(ids.contains(f[k - d.indices.len()]));
                } else {
                    assert(self@.indices[k] == d.indices[k]);
                }
            }
        }
        Ok(())
    }
}

} // verus!
