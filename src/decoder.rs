//! Decoding of path commands (move, line, close) into polygons.
use vstd::prelude::*;
use crate::geometry::{Point, Polygon, polygons_view};

verus! {

/// Whether a command's coordinates are absolute or relative to the current point.
#[derive(Clone, Copy, Debug, PartialEq, Eq, Structural)]
pub enum Position {
    Absolute,
    Relative,
}

/// One drawing command of a path, with its flat list of coordinates (x, y, x, y, ...).
#[derive(Clone, Debug)]
pub enum PathCommand {
    Move(Position, Vec<i32>),
    Line(Position, Vec<i32>),
    Close,
    /// Any other kind of command (curves, arcs, ...): tolerated and skipped.
    Unsupported,
}

/// Why a path could not be decoded.
#[derive(Clone, Copy, Debug, PartialEq, Eq, Structural)]
pub enum DecodeError {
    /// A move or line command lacks a coordinate of its last pair (or has none).
    MissingCoordinate,
    /// A relative command came before any point was set.
    NoCurrentPoint,
    /// A relative point falls outside the coordinate range.
    CoordinateOverflow,
}

/// The decoder's state: the cursor, the polygon being accumulated, and the polygons
/// finished so far.
pub struct Trace {
    pub cursor: Option<Point>,
    pub current: Seq<Point>,
    pub finished: Seq<Seq<Point>>,
}

pub open spec fn initial_trace() -> Trace {
    Trace { cursor: None, current: Seq::empty(), finished: Seq::empty() }
}

/// The point that a coordinate pair designates from the given cursor.
pub open spec fn next_point(cursor: Option<Point>, pos: Position, dx: i32, dy: i32) -> Result<
    Point,
    DecodeError,
> {
    match pos {
        Position::Absolute => Ok(Point(dx, dy)),
        Position::Relative => match cursor {
            None => Err(DecodeError::NoCurrentPoint),
            Some(c) => if c.can_add(Point(dx, dy)) {
                Ok(Point((c.0 + dx) as i32, (c.1 + dy) as i32))
            } else {
                Err(DecodeError::CoordinateOverflow)
            },
        },
    }
}

/// A line command from its pair at index `i` on: each pair appends one point and moves
/// the cursor there, relative pairs counting from the point before.
pub open spec fn trace_line(t: Trace, pos: Position, ps: Seq<i32>, i: int) -> Result<
    Trace,
    DecodeError,
>
    decreases ps.len() - i,
{
    if i < 0 || i + 2 > ps.len() {
        Err(DecodeError::MissingCoordinate)
    } else {
        match next_point(t.cursor, pos, ps[i], ps[i + 1]) {
            Err(e) => Err(e),
            Ok(p) => {
                let t2 = Trace { cursor: Some(p), current: t.current.push(p), finished: t.finished };
                if i + 2 == ps.len() {
                    Ok(t2)
                } else {
                    trace_line(t2, pos, ps, i + 2)
                }
            },
        }
    }
}

/// The effect of one command.
///
/// An absolute move appends its point to the polygon being accumulated: it neither
/// closes nor flushes it. A relative move first flushes the polygon being accumulated,
/// even when it is empty or a single point, then starts a new one at the moved cursor. Only the first pair of a
/// move counts. Close flushes the polygon and keeps the cursor.
pub open spec fn trace_step(t: Trace, cmd: PathCommand) -> Result<Trace, DecodeError> {
    match cmd {
        PathCommand::Move(Position::Absolute, ps) => if ps@.len() < 2 {
            Err(DecodeError::MissingCoordinate)
        } else {
            let p = Point(ps@[0], ps@[1]);
            Ok(Trace { cursor: Some(p), current: t.current.push(p), finished: t.finished })
        },
        PathCommand::Move(Position::Relative, ps) => if t.cursor is None {
            Err(DecodeError::NoCurrentPoint)
        } else if ps@.len() < 2 {
            Err(DecodeError::MissingCoordinate)
        } else {
            match next_point(t.cursor, Position::Relative, ps@[0], ps@[1]) {
                Err(e) => Err(e),
                Ok(p) => Ok(
                    Trace {
                        cursor: Some(p),
                        current: seq![p],
                        finished: t.finished.push(t.current),
                    },
                ),
            }
        },
        PathCommand::Line(pos, ps) => trace_line(t, pos, ps@, 0),
        PathCommand::Close => Ok(
            Trace { cursor: t.cursor, current: Seq::empty(), finished: t.finished.push(t.current) },
        ),
        PathCommand::Unsupported => Ok(t),
    }
}

/// The state after a whole list of commands, or the first error.
pub open spec fn trace_path(cmds: Seq<PathCommand>) -> Result<Trace, DecodeError>
    decreases cmds.len(),
{
    if cmds.len() == 0 {
        Ok(initial_trace())
    } else {
        match trace_path(cmds.drop_last()) {
            Err(e) => Err(e),
            Ok(t) => trace_step(t, cmds.last()),
        }
    }
}

/// The polygons of one path: those finished by its commands. Points still
/// accumulating at the end are dropped.
pub open spec fn path_polygons(cmds: Seq<PathCommand>) -> Result<Seq<Seq<Point>>, DecodeError> {
    match trace_path(cmds) {
        Err(e) => Err(e),
        Ok(t) => Ok(t.finished),
    }
}

/// The polygons of a document made of several paths, in order, or the first error.
pub open spec fn document_polygons(paths: Seq<Vec<PathCommand>>) -> Result<
    Seq<Seq<Point>>,
    DecodeError,
>
    decreases paths.len(),
{
    if paths.len() == 0 {
        Ok(Seq::empty())
    } else {
        match document_polygons(paths.drop_last()) {
            Err(e) => Err(e),
            Ok(done) => match path_polygons(paths.last()@) {
                Err(e) => Err(e),
                Ok(more) => Ok(done + more),
            },
        }
    }
}

/// Whether `r` is what decoding yields for `expected`.
pub open spec fn decoded_as(
    r: Result<Vec<Polygon>, DecodeError>,
    expected: Result<Seq<Seq<Point>>, DecodeError>,
) -> bool {
    match expected {
        Ok(polys) => r is Ok && polygons_view(r->Ok_0@) == polys,
        Err(e) => r == Err::<Vec<Polygon>, DecodeError>(e),
    }
}

/// The point that a coordinate pair designates from the given cursor.
fn point_from(cursor: Option<Point>, pos: Position, dx: i32, dy: i32) -> (r: Result<
    Point,
    DecodeError,
>)
    ensures
        r == next_point(cursor, pos, dx, dy),
{
    match pos {
        Position::Absolute => Ok(Point(dx, dy)),
        Position::Relative => match cursor {
            None => Err(DecodeError::NoCurrentPoint),
            Some(c) => {
                let x = c.0 as i64 + dx as i64;
                let y = c.1 as i64 + dy as i64;
                if x < i32::MIN as i64 || x > i32::MAX as i64 || y < i32::MIN as i64 || y
                    > i32::MAX as i64 {
                    Err(DecodeError::CoordinateOverflow)
                } else {
                    Ok(c.add(&Point(dx, dy)))
                }
            },
        },
    }
}

/// Applies a line command to the decoder's state.
fn apply_line(
    pos: Position,
    ps: &Vec<i32>,
    cursor: &mut Option<Point>,
    current: &mut Vec<Point>,
    Ghost(t): Ghost<Trace>,
) -> (r: Result<(), DecodeError>)
    requires
        *old(cursor) == t.cursor,
        old(current)@ == t.current,
    ensures
        match trace_line(t, pos, ps@, 0) {
            Ok(t2) => r is Ok && *final(cursor) == t2.cursor && final(current)@ == t2.current
                && t2.finished == t.finished,
            Err(e) => r == Err::<(), DecodeError>(e),
        },
{
    let mut i: usize = 0;
    let ghost mut tt = t;
    loop
        invariant
            i % 2 == 0,
            i <= ps@.len(),
            *cursor == tt.cursor,
            current@ == tt.current,
            tt.finished == t.finished,
            trace_line(t, pos, ps@, 0) == trace_line(tt, pos, ps@, i as int),
        decreases ps@.len() - i,
    {
        if ps.len() - i < 2 {
            return Err(DecodeError::MissingCoordinate);
        }
        let dx = ps[i];
        let dy = ps[i + 1];
        let p = match point_from(*cursor, pos, dx, dy) {
            Err(e) => {
                return Err(e);
            },
            Ok(p) => p,
        };
        *cursor = Some(p);
        current.push(p);
        proof {
            tt = Trace { cursor: Some(p), current: tt.current.push(p), finished: tt.finished };
        }
        i = i + 2;
        if i == ps.len() {
            return Ok(());
        }
    }
}

/// Applies one command to the decoder's state.
fn apply_command(
    cmd: &PathCommand,
    cursor: &mut Option<Point>,
    current: &mut Vec<Point>,
    finished: &mut Vec<Polygon>,
) -> (r: Result<(), DecodeError>)
    ensures
        ({
            let t = Trace {
                cursor: *old(cursor),
                current: old(current)@,
                finished: polygons_view(old(finished)@),
            };
            match trace_step(t, *cmd) {
                Ok(t2) => r is Ok && *final(cursor) == t2.cursor && final(current)@ == t2.current
                    && polygons_view(final(finished)@) == t2.finished,
                Err(e) => r == Err::<(), DecodeError>(e),
            }
        }),
{
    let ghost t = Trace {
        cursor: *cursor,
        current: current@,
        finished: polygons_view(finished@),
    };
    match cmd {
        PathCommand::Move(Position::Absolute, ps) => {
            if ps.len() < 2 {
                return Err(DecodeError::MissingCoordinate);
            }
            let p = Point(ps[0], ps[1]);
            *cursor = Some(p);
            current.push(p);
            Ok(())
        },
        PathCommand::Move(Position::Relative, ps) => {
            let c = match *cursor {
                None => {
                    return Err(DecodeError::NoCurrentPoint);
                },
                Some(c) => c,
            };
            if ps.len() < 2 {
                return Err(DecodeError::MissingCoordinate);
            }
            let p = match point_from(Some(c), Position::Relative, ps[0], ps[1]) {
                Err(e) => {
                    return Err(e);
                },
                Ok(p) => p,
            };
            let mut fresh: Vec<Point> = Vec::new();
            fresh.push(p);
            std::mem::swap(current, &mut fresh);
            finished.push(Polygon(fresh));
            *cursor = Some(p);
            proof {
                assert(polygons_view(finished@) =~= t.finished.push(t.current));
                assert(current@ =~= seq![p]);
            }
            Ok(())
        },
        PathCommand::Line(pos, ps) => apply_line(*pos, ps, cursor, current, Ghost(t)),
        PathCommand::Close => {
            let mut fresh: Vec<Point> = Vec::new();
            std::mem::swap(current, &mut fresh);
            finished.push(Polygon(fresh));
            proof {
                assert(polygons_view(finished@) =~= t.finished.push(t.current));
            }
            Ok(())
        },
        PathCommand::Unsupported => Ok(()),
    }
}

/// Once a prefix of the commands fails, the whole list fails with the same error.
proof fn lemma_error_persists(cmds: Seq<PathCommand>, j: int)
    requires
        0 <= j <= cmds.len(),
        trace_path(cmds.take(j)) is Err,
    ensures
        trace_path(cmds) == trace_path(cmds.take(j)),
    decreases cmds.len() - j,
{
    if j < cmds.len() {
        assert(cmds.take(j + 1).drop_last() =~= cmds.take(j));
        lemma_error_persists(cmds, j + 1);
    } else {
        assert(cmds.take(j) =~= cmds);
    }
}

/// Decodes one path into the polygons that its commands close.
///
/// Move and line commands set the cursor; a line command may carry several pairs.
/// Close, and a relative move, flush the points accumulated so far as a polygon; an
/// absolute move only appends its point; what is still accumulating at the end of the
/// path is dropped. Unsupported commands are skipped.
pub fn decode_path(cmds: &Vec<PathCommand>) -> (r: Result<Vec<Polygon>, DecodeError>)
    ensures
        decoded_as(r, path_polygons(cmds@)),
{
    let mut cursor: Option<Point> = None;
    let mut current: Vec<Point> = Vec::new();
    let mut finished: Vec<Polygon> = Vec::new();
    let mut k: usize = 0;
    assert(cmds@.take(0) =~= Seq::<PathCommand>::empty());
    assert(polygons_view(finished@) =~= Seq::<Seq<Point>>::empty());
    while k < cmds.len()
        invariant
            k <= cmds@.len(),
            trace_path(cmds@.take(k as int)) == Ok::<Trace, DecodeError>(
                Trace { cursor: cursor, current: current@, finished: polygons_view(finished@) },
            ),
        decreases cmds@.len() - k,
    {
        assert(cmds@.take(k + 1).drop_last() =~= cmds@.take(k as int));
        assert(cmds@.take(k + 1).last() == cmds@[k as int]);
        let res = apply_command(&cmds[k], &mut cursor, &mut current, &mut finished);
        if let Err(e) = res {
            proof {
                lemma_error_persists(cmds@, k + 1);
            }
            return Err(e);
        }
        k = k + 1;
    }
    assert(cmds@.take(k as int) =~= cmds@);
    Ok(finished)
}

/// Once the paths before index `j` fail, the whole document fails with that error.
proof fn lemma_document_error_persists(paths: Seq<Vec<PathCommand>>, j: int)
    requires
        0 <= j <= paths.len(),
        document_polygons(paths.take(j)) is Err,
    ensures
        document_polygons(paths) == document_polygons(paths.take(j)),
    decreases paths.len() - j,
{
    if j < paths.len() {
        assert(paths.take(j + 1).drop_last() =~= paths.take(j));
        lemma_document_error_persists(paths, j + 1);
    } else {
        assert(paths.take(j) =~= paths);
    }
}

/// Decodes a document made of several paths: the polygons of each path in order.
/// A path that fails to decode fails the whole document.
pub fn decode(paths: &Vec<Vec<PathCommand>>) -> (r: Result<Vec<Polygon>, DecodeError>)
    ensures
        decoded_as(r, document_polygons(paths@)),
{
    let mut all: Vec<Polygon> = Vec::new();
    let mut k: usize = 0;
    assert(paths@.take(0) =~= Seq::<Vec<PathCommand>>::empty());
    assert(polygons_view(all@) =~= Seq::<Seq<Point>>::empty());
    while k < paths.len()
        invariant
            k <= paths@.len(),
            document_polygons(paths@.take(k as int)) == Ok::<Seq<Seq<Point>>, DecodeError>(
                polygons_view(all@),
            ),
        decreases paths@.len() - k,
    {
        assert(paths@.take(k + 1).drop_last() =~= paths@.take(k as int));
        assert(paths@.take(k + 1).last() == paths@[k as int]);
        match decode_path(&paths[k]) {
            Err(e) => {
                proof {
                    lemma_document_error_persists(paths@, k + 1);
                }
                return Err(e);
            },
            Ok(mut polys) => {
                let ghost prev = polygons_view(all@);
                let ghost more = polygons_view(polys@);
                all.append(&mut polys);
                assert(polygons_view(all@) =~= prev + more);
            },
        }
        k = k + 1;
    }
    assert(paths@.take(k as int) =~= paths@);
    Ok(all)
}

/// Decoding is a function of the commands alone: two decodings of one document give
/// the same polygons, or the same error.
pub proof fn lemma_decode_deterministic(
    paths: Seq<Vec<PathCommand>>,
    r1: Result<Vec<Polygon>, DecodeError>,
    r2: Result<Vec<Polygon>, DecodeError>,
)
    requires
        decoded_as(r1, document_polygons(paths)),
        decoded_as(r2, document_polygons(paths)),
    ensures
        r1 is Ok <==> r2 is Ok,
        r1 is Ok ==> polygons_view(r1->Ok_0@) == polygons_view(r2->Ok_0@),
        r1 is Err ==> r1 == r2,
{
}

} // verus!
