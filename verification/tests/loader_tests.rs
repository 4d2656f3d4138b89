use rhyolite::loader::{classify_obj_line, ObjLineKind, RawFace};
use rhyolite::UnconfiguredError;

#[test]
fn face_full_declaration() {
    let face = RawFace::from_str("1/2/3 4/5/6 7/8/9", false);
    assert_eq!(face.vertex_indices, [0, 3, 6]);
    assert_eq!(face.tex_coord_indices, Some([1, 4, 7]));
    assert_eq!(face.normal_indices, Some([2, 5, 8]));
}

#[test]
fn face_inverted_winding_order() {
    let face = RawFace::from_str("1/2/3 4/5/6 7/8/9", true);
    assert_eq!(face.vertex_indices, [6, 3, 0]);
    assert_eq!(face.tex_coord_indices, Some([7, 4, 1]));
    assert_eq!(face.normal_indices, Some([8, 5, 2]));
}

#[test]
fn face_vertices_only() {
    let face = RawFace::from_str("3 2 1", false);
    assert_eq!(face.vertex_indices, [2, 1, 0]);
    assert_eq!(face.tex_coord_indices, None);
    assert_eq!(face.normal_indices, None);
}

#[test]
fn face_vertex_and_normal_without_tex_coord() {
    let face = RawFace::from_str("2//3 5//6 8//9", false);
    assert_eq!(face.vertex_indices, [1, 4, 7]);
    assert_eq!(face.tex_coord_indices, None);
    assert_eq!(face.normal_indices, Some([2, 5, 8]));
}

#[test]
fn face_mixed_columns_need_all_three_corners() {
    // Only one corner names a normal, so the normal column is absent.
    let face = RawFace::from_str("1//5 2 3", false);
    assert_eq!(face.vertex_indices, [0, 1, 2]);
    assert_eq!(face.normal_indices, None);
}

#[test]
fn face_extra_whitespace_and_plus_signs() {
    let face = RawFace::from_str("  +1   2\t3  ", false);
    assert_eq!(face.vertex_indices, [0, 1, 2]);
}

#[test]
fn face_extra_corners_beyond_three_are_ignored() {
    let face = RawFace::from_str("1 2 3 4", false);
    assert_eq!(face.vertex_indices, [0, 1, 2]);
}

#[test]
fn face_rejects_bad_lines() {
    // Too few corners.
    assert!(RawFace::try_from_str("", false).is_none());
    assert!(RawFace::try_from_str("1 2", false).is_none());
    // A corner without a readable vertex index.
    assert!(RawFace::try_from_str("a 2 3", false).is_none());
    assert!(RawFace::try_from_str("1 2 /3/4", false).is_none());
    // Zero indices cannot be made zero-based.
    assert!(RawFace::try_from_str("0 1 2", false).is_none());
    assert!(RawFace::try_from_str("1/0/2 3 4", false).is_none());
    // An index too large for the machine.
    assert!(RawFace::try_from_str("99999999999999999999999999 1 2", false).is_none());
}

#[test]
fn face_try_accepts_what_from_str_reads() {
    let face = RawFace::try_from_str("1/2/3 4/5/6 7/8/9", false).unwrap();
    assert_eq!(face.vertex_indices, [0, 3, 6]);
    let largest = format!("{} 1 2", usize::MAX);
    let face = RawFace::try_from_str(&largest, false).unwrap();
    assert_eq!(face.vertex_indices, [usize::MAX - 1, 0, 1]);
}

#[test]
fn face_parse_args_rows() {
    let args = RawFace::parse_args("1/2/3 4 5//6");
    assert_eq!(args.len(), 3);
    assert_eq!(args[0], vec![Some(1), Some(2), Some(3)]);
    assert_eq!(args[1], vec![Some(4), None, None]);
    assert_eq!(args[2], vec![Some(5), None, Some(6)]);
}

#[test]
fn face_get_indices_columns() {
    let args = RawFace::parse_args("1/2/3 4 5//6");
    assert_eq!(RawFace::get_indices(&args, 0, false), Some([0, 3, 4]));
    assert_eq!(RawFace::get_indices(&args, 0, true), Some([4, 3, 0]));
    assert_eq!(RawFace::get_indices(&args, 1, false), None);
    assert_eq!(RawFace::get_indices(&args, 2, false), None);
}

#[test]
fn obj_line_classification() {
    assert_eq!(classify_obj_line("o cube"), ObjLineKind::ObjectName);
    assert_eq!(classify_obj_line("v 1.0 2.0 3.0"), ObjLineKind::Vertex);
    assert_eq!(classify_obj_line("vn 0.0 1.0 0.0"), ObjLineKind::Normal);
    assert_eq!(classify_obj_line("vt 0.5 0.5"), ObjLineKind::TexCoord);
    assert_eq!(classify_obj_line("f 1 2 3"), ObjLineKind::Face);
    assert_eq!(classify_obj_line("# comment"), ObjLineKind::Other);
    assert_eq!(classify_obj_line("vx"), ObjLineKind::Other);
    assert_eq!(classify_obj_line("v"), ObjLineKind::Other);
    assert_eq!(classify_obj_line(""), ObjLineKind::Other);
}

#[test]
fn unconfigured_error_message() {
    let err = UnconfiguredError("Camera not yet configured");
    assert_eq!(err.message(), "Camera not yet configured");
    let copy = err.clone();
    assert_eq!(copy.message(), "Camera not yet configured");
}
