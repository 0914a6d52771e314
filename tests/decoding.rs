use country_logger::decoder::{decode, decode_path, DecodeError, PathCommand, Position};
use country_logger::geometry::{Point, Polygon};

fn mv(x: i32, y: i32) -> PathCommand {
    PathCommand::Move(Position::Absolute, vec![x, y])
}

fn rel_mv(x: i32, y: i32) -> PathCommand {
    PathCommand::Move(Position::Relative, vec![x, y])
}

fn line(ps: &[i32]) -> PathCommand {
    PathCommand::Line(Position::Absolute, ps.to_vec())
}

fn rel_line(ps: &[i32]) -> PathCommand {
    PathCommand::Line(Position::Relative, ps.to_vec())
}

fn points(p: &Polygon) -> Vec<(i32, i32)> {
    p.0.iter().map(|q| (q.0, q.1)).collect()
}

fn all_points(ps: &[Polygon]) -> Vec<Vec<(i32, i32)>> {
    ps.iter().map(points).collect()
}

#[test]
fn segmentation_into_two_polygons() {
    let cmds = vec![
        mv(0, 0),
        line(&[1, 0]),
        line(&[1, 1]),
        PathCommand::Close,
        mv(2, 2),
        line(&[3, 2]),
        PathCommand::Close,
    ];
    let polys = decode_path(&cmds).unwrap();
    assert_eq!(all_points(&polys), vec![vec![(0, 0), (1, 0), (1, 1)], vec![(2, 2), (3, 2)]]);
}

#[test]
fn relative_move_flushes_and_carries_cursor() {
    let cmds = vec![mv(0, 0), line(&[1, 0]), rel_mv(1, 1), rel_line(&[1, 0]), PathCommand::Close];
    let polys = decode_path(&cmds).unwrap();
    assert_eq!(all_points(&polys), vec![vec![(0, 0), (1, 0)], vec![(2, 1), (3, 1)]]);
}

#[test]
fn line_with_several_pairs() {
    let cmds = vec![mv(0, 0), line(&[1, 0, 1, 1, 0, 1]), PathCommand::Close];
    let polys = decode_path(&cmds).unwrap();
    assert_eq!(all_points(&polys), vec![vec![(0, 0), (1, 0), (1, 1), (0, 1)]]);
}

#[test]
fn relative_line_offsets_are_cumulative() {
    let cmds = vec![mv(5, 5), rel_line(&[1, 0, 0, 2, -3, 0]), PathCommand::Close];
    let polys = decode_path(&cmds).unwrap();
    assert_eq!(all_points(&polys), vec![vec![(5, 5), (6, 5), (6, 7), (3, 7)]]);
}

#[test]
fn unclosed_trailing_points_are_dropped() {
    let cmds = vec![mv(0, 0), line(&[1, 0]), PathCommand::Close, mv(4, 4), line(&[5, 5])];
    let polys = decode_path(&cmds).unwrap();
    assert_eq!(all_points(&polys), vec![vec![(0, 0), (1, 0)]]);
}

#[test]
fn absolute_move_does_not_close() {
    let cmds = vec![mv(0, 0), line(&[1, 0]), mv(7, 7), line(&[8, 7]), PathCommand::Close];
    let polys = decode_path(&cmds).unwrap();
    assert_eq!(all_points(&polys), vec![vec![(0, 0), (1, 0), (7, 7), (8, 7)]]);
}

#[test]
fn unsupported_commands_are_skipped() {
    let cmds = vec![mv(0, 0), PathCommand::Unsupported, line(&[1, 0]), PathCommand::Unsupported, PathCommand::Close];
    let polys = decode_path(&cmds).unwrap();
    assert_eq!(all_points(&polys), vec![vec![(0, 0), (1, 0)]]);
}

#[test]
fn close_twice_gives_an_empty_polygon() {
    let cmds = vec![mv(0, 0), PathCommand::Close, PathCommand::Close];
    let polys = decode_path(&cmds).unwrap();
    assert_eq!(all_points(&polys), vec![vec![(0, 0)], vec![]]);
    assert!(polys[1].is_empty());
    assert_eq!(polys[0].len(), 1);
}

#[test]
fn empty_path_has_no_polygon() {
    assert!(decode_path(&vec![]).unwrap().is_empty());
}

#[test]
fn odd_coordinates_are_an_error() {
    let cmds = vec![mv(0, 0), line(&[1, 0, 2]), PathCommand::Close];
    assert_eq!(decode_path(&cmds).unwrap_err(), DecodeError::MissingCoordinate);
    let cmds = vec![PathCommand::Move(Position::Absolute, vec![3])];
    assert_eq!(decode_path(&cmds).unwrap_err(), DecodeError::MissingCoordinate);
    let cmds = vec![mv(0, 0), line(&[])];
    assert_eq!(decode_path(&cmds).unwrap_err(), DecodeError::MissingCoordinate);
}

#[test]
fn relative_without_cursor_is_an_error() {
    assert_eq!(decode_path(&vec![rel_mv(1, 1)]).unwrap_err(), DecodeError::NoCurrentPoint);
    assert_eq!(decode_path(&vec![rel_line(&[1, 1])]).unwrap_err(), DecodeError::NoCurrentPoint);
}

#[test]
fn relative_overflow_is_an_error() {
    let cmds = vec![mv(i32::MAX, 0), rel_line(&[1, 0])];
    assert_eq!(decode_path(&cmds).unwrap_err(), DecodeError::CoordinateOverflow);
}

#[test]
fn document_concatenates_paths() {
    let doc = vec![
        vec![mv(0, 0), line(&[1, 0]), PathCommand::Close],
        vec![mv(9, 9), line(&[8, 8]), PathCommand::Close, mv(1, 1)],
    ];
    let polys = decode(&doc).unwrap();
    assert_eq!(all_points(&polys), vec![vec![(0, 0), (1, 0)], vec![(9, 9), (8, 8)]]);
}

#[test]
fn paths_start_without_cursor() {
    let doc = vec![vec![mv(0, 0), PathCommand::Close], vec![rel_mv(1, 1)]];
    assert_eq!(decode(&doc).unwrap_err(), DecodeError::NoCurrentPoint);
}

#[test]
fn decoding_twice_gives_the_same_polygons() {
    let doc = vec![vec![mv(0, 0), line(&[1, 0]), rel_mv(1, 1), rel_line(&[1, 0]), PathCommand::Close]];
    let a = all_points(&decode(&doc).unwrap());
    let b = all_points(&decode(&doc).unwrap());
    assert_eq!(a, b);
}

#[test]
fn absolute_move_keeps_the_open_polygon() {
    let cmds = vec![mv(0, 0), line(&[1, 0]), mv(2, 2), line(&[3, 2]), PathCommand::Close];
    let polys = decode_path(&cmds).unwrap();
    assert_eq!(all_points(&polys), vec![vec![(0, 0), (1, 0), (2, 2), (3, 2)]]);
}

#[test]
fn point_product() {
    assert_eq!(Point(3, -4).mul(&Point(10, 20)), Point(30, -80));
}

#[test]
fn point_addition() {
    let p = Point(3, -4).add(&Point(10, 20));
    assert_eq!(p, Point(13, 16));
}
