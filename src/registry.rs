//! The catalog of country outlines: each source document decoded once, normalized to
//! the unit square, and looked up by its two-letter code.
use vstd::prelude::*;
use crate::geometry::{Point, Polygon, polygons_view, COORD_SCALE, UNIT};
use crate::text::same_text;
use crate::decoder::{decode, document_polygons, DecodeError, PathCommand};

verus! {

/// Width of the source canvas that every document of the catalog is drawn on.
pub const SVG_WIDTH: i64 = 2000;

/// Height of the source canvas.
pub const SVG_HEIGHT: i64 = 857;

/// A coordinate as a fraction of the canvas extent, in steps of `1 / UNIT`, rounded
/// down.
pub open spec fn scaled(v: int, extent: int) -> int {
    (v * UNIT) / (extent * COORD_SCALE)
}

/// A source point normalized to the unit square.
pub open spec fn normalized(p: Point) -> Point {
    Point(scaled(p.0 as int, SVG_WIDTH as int) as i32, scaled(p.1 as int, SVG_HEIGHT as int) as i32)
}

/// A polygon normalized point by point.
pub open spec fn normalized_polygon(ps: Seq<Point>) -> Seq<Point> {
    ps.map_values(|p: Point| normalized(p))
}

/// Floor of `v * UNIT / (extent * COORD_SCALE)`.
fn scale_coordinate(v: i32, extent: i64) -> (r: i32)
    requires
        extent == SVG_WIDTH || extent == SVG_HEIGHT,
    ensures
        r == scaled(v as int, extent as int),
{
    let d: i64 = extent * COORD_SCALE;
    let a: i64 = v as i64 * UNIT;
    let q: i64 = if a >= 0 {
        a / d
    } else {
        let b: i64 = -a + d - 1;
        let m: i64 = b / d;
        proof {
            vstd::arithmetic::div_mod::lemma_fundamental_div_mod(b as int, d as int);
            vstd::arithmetic::div_mod::lemma_mod_bound(b as int, d as int);
        }
        -m
    };
    proof {
        if a >= 0 {
            vstd::arithmetic::div_mod::lemma_fundamental_div_mod(a as int, d as int);
            vstd::arithmetic::div_mod::lemma_mod_bound(a as int, d as int);
        }
        assert(d * q <= a < d * q + d);
        vstd::arithmetic::div_mod::lemma_fundamental_div_mod_converse(
            a as int,
            d as int,
            q as int,
            a - d * q,
        );
        assert(-2147483648 <= q <= 2147483647) by (nonlinear_arith)
            requires
                d * q <= a < d * q + d,
                -2147483648 * UNIT <= a <= 2147483647 * UNIT,
                d >= UNIT,
                UNIT > 0,
        ;
    }
    q as i32
}

/// Normalizes one polygon from source coordinates to the unit square.
pub fn scale_polygon(polygon: &Polygon) -> (r: Polygon)
    ensures
        r@ == normalized_polygon(polygon@),
{
    let mut out: Vec<Point> = Vec::new();
    let mut i: usize = 0;
    while i < polygon.0.len()
        invariant
            i <= polygon@.len(),
            out@ =~= normalized_polygon(polygon@.take(i as int)),
        decreases polygon@.len() - i,
    {
        let p = polygon.0[i];
        out.push(Point(scale_coordinate(p.0, SVG_WIDTH), scale_coordinate(p.1, SVG_HEIGHT)));
        assert(polygon@.take(i + 1) =~= polygon@.take(i as int).push(p));
        i = i + 1;
    }
    assert(polygon@.take(i as int) =~= polygon@);
    Polygon(out)
}

/// Every point inside the source canvas lands in the half-open unit square.
pub proof fn lemma_normalized_in_unit_square(p: Point)
    requires
        0 <= p.0 < SVG_WIDTH * COORD_SCALE,
        0 <= p.1 < SVG_HEIGHT * COORD_SCALE,
    ensures
        0 <= normalized(p).0 < UNIT,
        0 <= normalized(p).1 < UNIT,
{
    assert(0 <= scaled(p.0 as int, SVG_WIDTH as int) < UNIT) by (nonlinear_arith)
        requires
            0 <= p.0 < SVG_WIDTH * COORD_SCALE,
            SVG_WIDTH == 2000,
            COORD_SCALE == 10000,
            UNIT == 1000000,
    ;
    assert(0 <= scaled(p.1 as int, SVG_HEIGHT as int) < UNIT) by (nonlinear_arith)
        requires
            0 <= p.1 < SVG_HEIGHT * COORD_SCALE,
            SVG_HEIGHT == 857,
            COORD_SCALE == 10000,
            UNIT == 1000000,
    ;
}

/// A source document of the catalog: its file name and the paths it holds.
pub struct SourceDocument {
    pub file_name: String,
    pub paths: Vec<Vec<PathCommand>>,
}

/// `c` in upper case when it is an ASCII lower-case letter, else `c`.
pub open spec fn ascii_upper(c: char) -> char {
    if 'a' <= c <= 'z' {
        ((c as u32) - 32) as char
    } else {
        c
    }
}

/// Relies on str::to_ascii_uppercase: each ASCII lower-case letter is mapped to its
/// upper-case form, every other char is kept.
#[verifier::external_body]
fn to_ascii_uppercase(s: &str) -> (r: String)
    ensures
        r@ == s@.map_values(|c: char| ascii_upper(c)),
{
    s.to_ascii_uppercase()
}

/// The code of a document: the first two chars of its file name, in upper case.
pub open spec fn code_of_file_name(name: Seq<char>) -> Option<Seq<char>> {
    if name.len() < 2 {
        None
    } else {
        Some(name.take(2).map_values(|c: char| ascii_upper(c)))
    }
}

/// The code that a file name gives, or `None` for a name shorter than two chars.
pub fn code_from_file_name(name: &str) -> (r: Option<String>)
    ensures
        match code_of_file_name(name@) {
            Some(code) => r is Some && r->Some_0@ == code,
            None => r is None,
        },
{
    if name.unicode_len() < 2 {
        None
    } else {
        let head = name.substring_char(0, 2);
        let r = to_ascii_uppercase(head);
        assert(head@ =~= name@.take(2));
        Some(r)
    }
}

/// The normalized polygons of a document, or its decoding error.
pub open spec fn document_geometry(paths: Seq<Vec<PathCommand>>) -> Result<
    Seq<Seq<Point>>,
    DecodeError,
> {
    match document_polygons(paths) {
        Err(e) => Err(e),
        Ok(polys) => Ok(polys.map_values(|ps: Seq<Point>| normalized_polygon(ps))),
    }
}

/// The catalog entry of a document: its code and normalized polygons, when it has a
/// code and decodes.
pub open spec fn entry_of(doc: SourceDocument) -> Option<(Seq<char>, Seq<Seq<Point>>)> {
    match (code_of_file_name(doc.file_name@), document_geometry(doc.paths@)) {
        (Some(code), Ok(polys)) => Some((code, polys)),
        _ => None,
    }
}

/// The entries of a list of documents, in order; documents without an entry are left
/// out.
pub open spec fn catalog_entries(docs: Seq<SourceDocument>) -> Seq<(Seq<char>, Seq<Seq<Point>>)>
    decreases docs.len(),
{
    if docs.len() == 0 {
        Seq::empty()
    } else {
        let before = catalog_entries(docs.drop_last());
        match entry_of(docs.last()) {
            Some(e) => before.push(e),
            None => before,
        }
    }
}

/// The polygons of the last entry with the given code.
pub open spec fn lookup(entries: Seq<(Seq<char>, Seq<Seq<Point>>)>, code: Seq<char>) -> Option<
    Seq<Seq<Point>>,
>
    decreases entries.len(),
{
    if entries.len() == 0 {
        None
    } else if entries.last().0 == code {
        Some(entries.last().1)
    } else {
        lookup(entries.drop_last(), code)
    }
}

/// The decoded, normalized outlines of the catalog, by code. Built once, then only
/// read.
pub struct Registry {
    entries: Vec<(String, Vec<Polygon>)>,
}

impl View for Registry {
    type V = Seq<(Seq<char>, Seq<Seq<Point>>)>;

    closed spec fn view(&self) -> Seq<(Seq<char>, Seq<Seq<Point>>)> {
        self.entries@.map_values(|e: (String, Vec<Polygon>)| (e.0@, polygons_view(e.1@)))
    }
}

impl Registry {
    /// Decodes and normalizes every document. A document whose name is too short to
    /// give a code, or that fails to decode, is left out; the others are kept in order.
    pub fn build(docs: &Vec<SourceDocument>) -> (r: Registry)
        ensures
            r@ == catalog_entries(docs@),
    {
        let mut entries: Vec<(String, Vec<Polygon>)> = Vec::new();
        let mut k: usize = 0;
        assert(docs@.take(0) =~= Seq::<SourceDocument>::empty());
        while k < docs.len()
            invariant
                k <= docs@.len(),
                (Registry { entries })@ == catalog_entries(docs@.take(k as int)),
            decreases docs@.len() - k,
        {
            let doc = &docs[k];
            assert(docs@.take(k + 1).drop_last() =~= docs@.take(k as int));
            assert(docs@.take(k + 1).last() == docs@[k as int]);
            let ghost before = (Registry { entries })@;
            if let Some(code) = code_from_file_name(doc.file_name.as_str()) {
                if let Ok(polys) = decode(&doc.paths) {
                    let polys = normalize_all(&polys);
                    entries.push((code, polys));
                    assert((Registry { entries })@ =~= before.push(entry_of(docs@[k as int])->Some_0));
                }
            }
            k = k + 1;
        }
        assert(docs@.take(k as int) =~= docs@);
        Registry { entries }
    }

    /// Number of entries.
    pub fn len(&self) -> (r: usize)
        ensures
            r == self@.len(),
    {
        self.entries.len()
    }

    /// The normalized polygons stored under `code`, or `None` when the catalog has no
    /// such entry (the entity is then drawn as nothing).
    pub fn geometry_for(&self, code: &str) -> (r: Option<&Vec<Polygon>>)
        ensures
            match lookup(self@, code@) {
                Some(polys) => r is Some && polygons_view(r->Some_0@) == polys,
                None => r is None,
            },
    {
        let mut k: usize = self.entries.len();
        assert(self@.take(k as int) =~= self@);
        while k > 0
            invariant
                k <= self.entries@.len(),
                lookup(self@, code@) == lookup(self@.take(k as int), code@),
            decreases k,
        {
            assert(self@.take(k as int).drop_last() =~= self@.take(k - 1));
            let e = &self.entries[k - 1];
            assert(self@[k - 1] == (e.0@, polygons_view(e.1@)));
            assert(self@.take(k as int).last() == self@[k - 1]);
            if same_text(e.0.as_str(), code) {
                return Some(&e.1);
            }
            k = k - 1;
        }
        None
    }
}

/// Normalizes each polygon of a list.
fn normalize_all(polys: &Vec<Polygon>) -> (r: Vec<Polygon>)
    ensures
        polygons_view(r@) == polygons_view(polys@).map_values(|ps: Seq<Point>| normalized_polygon(ps)),
{
    let mut out: Vec<Polygon> = Vec::new();
    let mut i: usize = 0;
    while i < polys.len()
        invariant
            i <= polys@.len(),
            polygons_view(out@) =~= polygons_view(polys@.take(i as int)).map_values(
                |ps: Seq<Point>| normalized_polygon(ps),
            ),
        decreases polys@.len() - i,
    {
        let ghost before = out@;
        let q = scale_polygon(&polys[i]);
        out.push(q);
        assert(polys@.take(i + 1) =~= polys@.take(i as int).push(polys@[i as int]));
        assert(polygons_view(out@) =~= polygons_view(before).push(q@));
        assert(polygons_view(polys@.take(i + 1)) =~= polygons_view(polys@.take(i as int)).push(
            polys@[i as int]@,
        ));
        i = i + 1;
    }
    assert(polys@.take(i as int) =~= polys@);
    out
}

} // verus!
