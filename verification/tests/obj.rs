use wgpu_3d_viewer::model::{model_format, ModelFormat};
use wgpu_3d_viewer::obj::{classify_line, FaceError, LineKind, ObjData, VertexRef};

fn chars(s: &str) -> Vec<char> {
    s.chars().collect()
}

fn text(t: &[char]) -> String {
    t.iter().collect()
}

/// Interns float tuples by `==`, as a loader does before handing classes
/// to the mesh data.
struct Interner<const N: usize> {
    values: Vec<[f32; N]>,
}

impl<const N: usize> Interner<N> {
    fn new(defaults: &[[f32; N]]) -> Self {
        Interner { values: defaults.to_vec() }
    }
    fn class(&mut self, v: [f32; N]) -> u32 {
        if let Some(i) = self.values.iter().position(|w| *w == v) {
            i as u32
        } else {
            self.values.push(v);
            (self.values.len() - 1) as u32
        }
    }
}

fn parse<const N: usize>(args: &[Vec<char>]) -> [f32; N] {
    let mut out = [0.0f32; N];
    for i in 0..N {
        out[i] = text(&args[i]).parse().unwrap();
    }
    out
}

fn load(source: &str) -> Result<ObjData, FaceError> {
    let mut positions = Interner::<3>::new(&[]);
    let mut tex = Interner::<2>::new(&[[0.0, 0.0]]);
    let mut normals = Interner::<3>::new(&[[0.0, 1.0, 0.0]]);
    let mut data = ObjData::new(0, 0);
    for line in source.lines() {
        let l = classify_line(&chars(line));
        match l.kind {
            LineKind::Skip => {}
            LineKind::Position => data.add_position(positions.class(parse::<3>(&l.args))),
            LineKind::TexCoord => data.add_tex_coord(tex.class(parse::<2>(&l.args))),
            LineKind::Normal => data.add_normal(normals.class(parse::<3>(&l.args))),
            LineKind::Face => {
                assert!(data.face_in_range(&l.args), "face index out of range");
                data.process_face(&l.args)?;
            }
        }
    }
    Ok(data)
}

const CUBE: &str = "\
# cube
v -1 -1 -1
v 1 -1 -1
v 1 1 -1
v -1 1 -1
v -1 -1 1
v 1 -1 1
v 1 1 1
v -1 1 1
vt 0 0
vt 1 0
vt 1 1
vt 0 1
vn 0 0 -1
vn 0 0 1
vn -1 0 0
vn 1 0 0
vn 0 -1 0
vn 0 1 0
f 1/1/1 4/4/1 3/3/1 2/2/1
f 5/1/2 6/2/2 7/3/2 8/4/2
f 1/1/3 5/2/3 8/3/3 4/4/3
f 2/1/4 3/2/4 7/3/4 6/4/4
f 1/1/5 2/2/5 6/3/5 5/4/5
f 4/1/6 8/2/6 7/3/6 3/4/6
";

#[test]
fn obj_cube_has_36_indices() {
    let data = load(CUBE).unwrap();
    assert_eq!(data.indices().len(), 36, "Cube should have 36 indices (12 triangles)");
    assert_eq!(data.vertices().len(), 24);
    assert!(data.indices().iter().all(|&i| (i as usize) < data.vertices().len()));
}

#[test]
fn triangle_fan_order() {
    let data = load("v 0 0 0\nv 1 0 0\nv 1 1 0\nv 0 1 0\nv 0 2 0\nvt 0 0\nvn 0 0 1\nf 1 2 3 4 5\n").unwrap();
    assert_eq!(data.indices(), &vec![0, 1, 2, 0, 2, 3, 0, 3, 4]);
    assert_eq!(
        data.vertices()[0],
        VertexRef { position: 0, tex_coord: Some(0), normal: Some(0) }
    );
}

#[test]
fn missing_attributes_use_index_zero() {
    // No tex coordinate given: index 0 is used.
    let data = load("v 0 0 0\nv 1 0 0\nv 0 1 0\nvt 0.5 0.5\nvn 0 0 1\nf 1 2 3\n").unwrap();
    assert_eq!(
        data.vertices()[1],
        VertexRef { position: 1, tex_coord: Some(0), normal: Some(0) }
    );
}

#[test]
fn zero_index_selects_default() {
    // Index 0 resolves to -1: the default texture coordinate and normal.
    let data = load("v 0 0 0\nv 1 0 0\nv 0 1 0\nf 1/0/0 2/0/0 3/0/0\n").unwrap();
    assert_eq!(
        data.vertices()[2],
        VertexRef { position: 2, tex_coord: None, normal: None }
    );
}

#[test]
fn negative_indices_count_from_end() {
    let data = load("v 0 0 0\nv 1 0 0\nv 0 1 0\nv 9 9 9\nvt 0 0\nvn 0 0 1\nf -4 -3 -2\n").unwrap();
    let positions: Vec<usize> = data.vertices().iter().map(|v| v.position).collect();
    assert_eq!(positions, vec![0, 1, 2]);
}

#[test]
fn equal_corners_are_shared() {
    // Positions 1 and 4 hold the same value, so their corners are one vertex.
    let data = load("v 0 0 0\nv 1 0 0\nv 0 1 0\nv 0 0 0\nvt 0 0\nvn 0 0 1\nf 1 2 3\nf 4 3 2\n").unwrap();
    assert_eq!(data.vertices().len(), 3);
    assert_eq!(data.indices(), &vec![0, 1, 2, 0, 2, 1]);
}

#[test]
fn default_and_explicit_zero_tex_coord_are_equal() {
    let data = load("v 0 0 0\nv 1 0 0\nv 0 1 0\nvt 0 0\nvn 0 1 0\nf 1/0/0 2 3\nf 1/1/1 3 2\n").unwrap();
    assert_eq!(data.vertices().len(), 3);
    assert_eq!(data.indices(), &vec![0, 1, 2, 0, 2, 1]);
}

#[test]
fn invalid_position_index() {
    assert_eq!(load("v 0 0 0\nv 1 0 0\nv 0 1 0\nvt 0 0\nvn 0 0 1\nf 1 x 3\n").err(), Some(FaceError::InvalidPositionIndex));
    assert_eq!(load("v 0 0 0\nv 1 0 0\nv 0 1 0\nvt 0 0\nvn 0 0 1\nf 1 /2 3\n").err(), Some(FaceError::InvalidPositionIndex));
}

#[test]
fn failed_face_keeps_earlier_corners() {
    let mut data = ObjData::new(0, 0);
    for c in 0..3 {
        data.add_position(c);
    }
    data.add_tex_coord(1);
    data.add_normal(1);
    let tokens: Vec<Vec<char>> = vec![chars("1"), chars("2"), chars("q"), chars("3")];
    assert!(data.face_in_range(&tokens));
    assert_eq!(data.process_face(&tokens), Err(FaceError::InvalidPositionIndex));
    assert_eq!(data.vertices().len(), 2);
    assert!(data.indices().is_empty());
}

#[test]
fn out_of_range_faces_are_detected() {
    let mut data = ObjData::new(0, 0);
    for c in 0..3 {
        data.add_position(c);
    }
    // Without any texture coordinate a corner without one still reads index 0.
    assert!(!data.face_in_range(&vec![chars("1"), chars("2"), chars("3")]));
    data.add_tex_coord(1);
    data.add_normal(1);
    assert!(data.face_in_range(&vec![chars("1"), chars("2"), chars("3")]));
    assert!(!data.face_in_range(&vec![chars("1"), chars("2"), chars("4")]));
    assert!(!data.face_in_range(&vec![chars("1"), chars("-4"), chars("2")]));
    assert!(!data.face_in_range(&vec![chars("1/2"), chars("2"), chars("3")]));
    assert!(!data.face_in_range(&vec![chars("1//2"), chars("2"), chars("3")]));
    assert!(data.face_in_range(&vec![chars("1/-1/-1"), chars("2"), chars("3")]));
    // An unparsable position before the bad index wins: an error, not an overrun.
    assert!(data.face_in_range(&vec![chars("z"), chars("9"), chars("3")]));
}

#[test]
fn short_and_unknown_lines_are_skipped() {
    assert_eq!(classify_line(&chars("")).kind, LineKind::Skip);
    assert_eq!(classify_line(&chars("   \t ")).kind, LineKind::Skip);
    assert_eq!(classify_line(&chars("v 1 2")).kind, LineKind::Skip);
    assert_eq!(classify_line(&chars("vt 1")).kind, LineKind::Skip);
    assert_eq!(classify_line(&chars("vn 1 2")).kind, LineKind::Skip);
    assert_eq!(classify_line(&chars("f 1 2")).kind, LineKind::Skip);
    assert_eq!(classify_line(&chars("usemtl red")).kind, LineKind::Skip);
    assert_eq!(classify_line(&chars("V 1 2 3")).kind, LineKind::Skip);
}

#[test]
fn line_kinds_and_arguments() {
    let l = classify_line(&chars("  v\t1.0  2.5 -3 "));
    assert_eq!(l.kind, LineKind::Position);
    assert_eq!(l.args, vec![chars("1.0"), chars("2.5"), chars("-3")]);
    assert_eq!(classify_line(&chars("vt 0 1")).kind, LineKind::TexCoord);
    assert_eq!(classify_line(&chars("vn 0 1 0")).kind, LineKind::Normal);
    let f = classify_line(&chars("f 1/2/3 4//6 7\u{3000}8"));
    assert_eq!(f.kind, LineKind::Face);
    assert_eq!(f.args, vec![chars("1/2/3"), chars("4//6"), chars("7"), chars("8")]);
}

#[test]
fn test_unsupported_format_extension() {
    assert_eq!(model_format(&chars("unsupported")), None);
    assert_eq!(model_format(&chars("")), None);
    assert_eq!(model_format(&chars("obj")), Some(ModelFormat::Obj));
    assert_eq!(model_format(&chars("OBJ")), Some(ModelFormat::Obj));
    assert_eq!(model_format(&chars("gltf")), Some(ModelFormat::Gltf));
    assert_eq!(model_format(&chars("GlB")), Some(ModelFormat::Gltf));
    assert_eq!(model_format(&chars("objx")), None);
}
