use pathtracer::obj::{from_obj_text, Face, ObjError};

fn field<'a>(text: &'a str, r: (usize, usize)) -> &'a str {
    &text[r.0..r.1]
}

#[test]
fn reads_vertices_and_faces() {
    let text = "# a triangle\nv 0 0 -5\nv 1.0 0 -5\r\nv  0\t1 -5 extra\nvt 0 0\nf 1/1/1 2/2/2 3/3/3\n";
    let m = from_obj_text(text.as_bytes()).unwrap();
    assert_eq!(m.vertices.len(), 3);
    assert_eq!(field(text, m.vertices[0].z), "-5");
    assert_eq!(field(text, m.vertices[1].x), "1.0");
    assert_eq!(field(text, m.vertices[2].y), "1");
    assert_eq!(m.faces, vec![Face { a: 0, b: 1, c: 2 }]);
}

#[test]
fn last_line_needs_no_newline() {
    let text = "v 1 2 3\nv 4 5 6\nv 7 8 9\nf 3/1/1 +1/1/1 2/7/9";
    let m = from_obj_text(text.as_bytes()).unwrap();
    assert_eq!(m.faces, vec![Face { a: 2, b: 0, c: 1 }]);
}

#[test]
fn empty_text_is_an_empty_mesh() {
    let m = from_obj_text(b"").unwrap();
    assert!(m.vertices.is_empty() && m.faces.is_empty());
}

#[test]
fn short_vertex_line_is_refused() {
    assert_eq!(
        from_obj_text(b"v 1 2 3\nv 1 2\n"),
        Err(ObjError::MissingCoordinate { at: 8 })
    );
}

#[test]
fn short_face_line_is_refused() {
    assert_eq!(
        from_obj_text(b"v 1 2 3\nf 1/1/1 1/1/1\n"),
        Err(ObjError::MissingVertex { at: 8 })
    );
}

#[test]
fn bad_face_fields_are_refused() {
    let cases: [&[u8]; 6] = [
        b"v 1 2 3\nf 1 1 1\n",
        b"v 1 2 3\nf 1//1 1//1 1//1\n",
        b"v 1 2 3\nf 0/1/1 1/1/1 1/1/1\n",
        b"v 1 2 3\nf 1/1/x 1/1/1 1/1/1\n",
        b"v 1 2 3\nf -1/1/1 1/1/1 1/1/1\n",
        b"v 1 2 3\nf 99999999999999999999999/1/1 1/1/1 1/1/1\n",
    ];
    for c in cases {
        assert_eq!(from_obj_text(c), Err(ObjError::BadIndex { at: 8 }));
    }
}

#[test]
fn faces_see_only_earlier_vertices() {
    assert_eq!(
        from_obj_text(b"v 1 2 3\nf 1/1/1 2/1/1 1/1/1\nv 4 5 6\n"),
        Err(ObjError::IndexOutOfRange { at: 8 })
    );
}

#[test]
fn other_lines_are_skipped() {
    let m = from_obj_text(b"vn 0 1 0\nvertex 1\n\n   \nusemtl x\ns off\n").unwrap();
    assert!(m.vertices.is_empty() && m.faces.is_empty());
}

#[test]
fn largest_index_reads_but_names_no_vertex() {
    let text = format!("v 1 2 3\nf {}/1/1 1/1/1 1/1/1\n", usize::MAX);
    assert_eq!(from_obj_text(text.as_bytes()), Err(ObjError::IndexOutOfRange { at: 8 }));
    let text = format!("v 1 2 3\nf {}0/1/1 1/1/1 1/1/1\n", usize::MAX);
    assert_eq!(from_obj_text(text.as_bytes()), Err(ObjError::BadIndex { at: 8 }));
}
