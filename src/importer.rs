//! The export file: a meta line with the format version, then the exported data as
//! JSON. Here the file is framed and checked as bytes; the JSON itself is read and
//! written by the front end.
use vstd::prelude::*;

verus! {

/// The format version that this library writes and accepts.
pub const IMPORT_FILE_VERSION: i32 = 1;

/// serde_json's error type, carried opaque in `FormatError::SerdeJson`.
#[verifier::external_type_specification]
#[verifier::external_body]
pub struct ExJsonError(serde_json::Error);

/// Why an export file could not be read.
#[derive(Debug)]
pub enum FormatError {
    /// The file is empty.
    MissingMetaLine,
    /// The meta line does not start with a version number.
    MetaLineFormat(String),
    /// The file is of another format version.
    WrongVersion { expected: i32, actual: i32 },
    /// The JSON part could not be read.
    SerdeJson(serde_json::Error),
}

/// The decimal digits of `n`.
pub open spec fn digits(n: nat) -> Seq<u8>
    decreases n,
{
    if n < 10 {
        seq![(n + 48) as u8]
    } else {
        digits(n / 10).push((n % 10 + 48) as u8)
    }
}

/// The decimal text of `v`, with a minus sign when negative.
pub open spec fn decimal(v: int) -> Seq<u8> {
    if v < 0 {
        seq![45u8] + digits((-v) as nat)
    } else {
        digits(v as nat)
    }
}

/// The meta line: the version, then a semicolon.
pub open spec fn meta_line() -> Seq<u8> {
    decimal(IMPORT_FILE_VERSION as int).push(59u8)
}

/// The lines of `s` from index `i` on, `cur` being the part of the line read so far.
/// Lines end at `\n`, and a `\r` right before that `\n` is dropped; a last line
/// without `\n` counts, an empty one after the last `\n` does not.
pub open spec fn lines_from(s: Seq<u8>, i: int, cur: Seq<u8>) -> Seq<Seq<u8>>
    decreases s.len() - i,
{
    if i >= s.len() {
        if cur.len() == 0 {
            Seq::empty()
        } else {
            seq![cur]
        }
    } else if s[i] == 10 {
        seq![strip_cr(cur)] + lines_from(s, i + 1, Seq::empty())
    } else {
        lines_from(s, i + 1, cur.push(s[i]))
    }
}

/// A line without its trailing `\r`, if it has one.
pub open spec fn strip_cr(l: Seq<u8>) -> Seq<u8> {
    if l.len() > 0 && l.last() == 13 {
        l.drop_last()
    } else {
        l
    }
}

/// The lines of a text.
pub open spec fn lines(s: Seq<u8>) -> Seq<Seq<u8>> {
    lines_from(s, 0, Seq::empty())
}

/// Lines joined by `\n`.
pub open spec fn join(ls: Seq<Seq<u8>>) -> Seq<u8>
    decreases ls.len(),
{
    if ls.len() == 0 {
        Seq::empty()
    } else if ls.len() == 1 {
        ls[0]
    } else {
        ls[0].push(10u8) + join(ls.drop_first())
    }
}

/// The part of a line before its first `;`.
pub open spec fn first_field(l: Seq<u8>) -> Seq<u8>
    decreases l.len(),
{
    if l.len() == 0 || l[0] == 59 {
        Seq::empty()
    } else {
        seq![l[0]] + first_field(l.drop_first())
    }
}

/// The value of a run of decimal digits.
pub open spec fn digits_value(ds: Seq<u8>) -> int
    decreases ds.len(),
{
    if ds.len() == 0 {
        0
    } else {
        digits_value(ds.drop_last()) * 10 + (ds.last() - 48)
    }
}

pub open spec fn all_digits(ds: Seq<u8>) -> bool {
    forall|i: int| 0 <= i < ds.len() ==> 48 <= #[trigger] ds[i] <= 57
}

/// The `i32` that a text denotes: an optional `+` or `-`, then one or more decimal
/// digits, within range.
pub open spec fn parse_i32(b: Seq<u8>) -> Option<i32> {
    let signed = b.len() > 0 && (b[0] == 45 || b[0] == 43);
    let ds = if signed {
        b.drop_first()
    } else {
        b
    };
    let v = if b.len() > 0 && b[0] == 45 {
        -digits_value(ds)
    } else {
        digits_value(ds)
    };
    if ds.len() == 0 || !all_digits(ds) || v < i32::MIN || v > i32::MAX {
        None
    } else {
        Some(v as i32)
    }
}

/// What reading a file gives: the JSON part (the lines after the meta line, joined by
/// `\n`), or the error of its meta line (the message of `MetaLineFormat` is fixed by
/// `read_as`).
pub open spec fn file_body(contents: Seq<u8>) -> Result<Seq<u8>, FormatError> {
    let ls = lines(contents);
    if ls.len() == 0 {
        Err(FormatError::MissingMetaLine)
    } else {
        match parse_i32(first_field(ls[0])) {
            None => Err(FormatError::MetaLineFormat(arbitrary())),
            Some(v) => if v != IMPORT_FILE_VERSION {
                Err(FormatError::WrongVersion { expected: IMPORT_FILE_VERSION, actual: v })
            } else {
                Ok(join(ls.drop_first()))
            },
        }
    }
}

/// Appends the decimal digits of `n`.
fn push_digits(out: &mut Vec<u8>, n: u32)
    ensures
        final(out)@ == old(out)@ + digits(n as nat),
    decreases n,
{
    if n >= 10 {
        push_digits(out, n / 10);
    }
    out.push((n % 10) as u8 + 48);
    proof {
        if n >= 10 {
            assert(final(out)@ =~= old(out)@ + digits(n as nat));
        } else {
            assert(final(out)@ =~= old(out)@ + digits(n as nat));
        }
    }
}

/// The meta line of the files this library writes.
pub fn format_meta_line() -> (r: Vec<u8>)
    ensures
        r@ == meta_line(),
{
    let mut out: Vec<u8> = Vec::new();
    push_digits(&mut out, IMPORT_FILE_VERSION as u32);
    out.push(59u8);
    assert(out@ =~= meta_line());
    out
}

/// An export file: the meta line, a line break, then the JSON text.
pub fn format_full_export_file(json: &[u8]) -> (r: Vec<u8>)
    ensures
        r@ == meta_line().push(10u8) + json@,
{
    let mut out = format_meta_line();
    out.push(10u8);
    let mut i: usize = 0;
    let ghost head = out@;
    while i < json.len()
        invariant
            i <= json@.len(),
            out@ == head + json@.take(i as int),
        decreases json@.len() - i,
    {
        out.push(json[i]);
        assert(json@.take(i + 1) =~= json@.take(i as int).push(json@[i as int]));
        i = i + 1;
    }
    assert(json@.take(i as int) =~= json@);
    out
}

/// The message of a meta line whose version is not a number.
pub open spec fn not_a_number_message() -> Seq<char> {
    "Version is not a number (i32)"@
}

/// Whether `r` is the reading of a file whose expected reading is `expected`; a meta
/// line error carries `not_a_number_message()`.
pub open spec fn read_as(r: Result<Vec<u8>, FormatError>, expected: Result<Seq<u8>, FormatError>) -> bool {
    match expected {
        Ok(body) => r is Ok && r->Ok_0@ == body,
        Err(FormatError::MetaLineFormat(_)) => r is Err && r->Err_0 is MetaLineFormat
            && r->Err_0->MetaLineFormat_0@ == not_a_number_message(),
        Err(e) => r is Err && r->Err_0 == e,
    }
}

/// Splits a text into its lines.
fn split_lines(s: &[u8]) -> (r: Vec<Vec<u8>>)
    ensures
        r@.map_values(|l: Vec<u8>| l@) == lines(s@),
{
    let mut done: Vec<Vec<u8>> = Vec::new();
    let mut cur: Vec<u8> = Vec::new();
    let mut i: usize = 0;
    while i < s.len()
        invariant
            i <= s@.len(),
            lines(s@) == done@.map_values(|l: Vec<u8>| l@) + lines_from(s@, i as int, cur@),
        decreases s@.len() - i,
    {
        let ghost before = done@.map_values(|l: Vec<u8>| l@);
        if s[i] == 10u8 {
            let ghost line = cur@;
            if cur.len() > 0 && cur[cur.len() - 1] == 13u8 {
                cur.pop();
            }
            assert(cur@ =~= strip_cr(line));
            let mut fresh: Vec<u8> = Vec::new();
            std::mem::swap(&mut cur, &mut fresh);
            done.push(fresh);
            assert(done@.map_values(|l: Vec<u8>| l@) =~= before.push(strip_cr(line)));
            assert(before + lines_from(s@, i as int, line) =~= done@.map_values(|l: Vec<u8>| l@)
                + lines_from(s@, i + 1, cur@));
        } else {
            cur.push(s[i]);
        }
        i = i + 1;
    }
    if cur.len() > 0 {
        let ghost before = done@.map_values(|l: Vec<u8>| l@);
        let ghost last = cur@;
        done.push(cur);
        assert(done@.map_values(|l: Vec<u8>| l@) =~= before + seq![last]);
    } else {
        assert(done@.map_values(|l: Vec<u8>| l@) + lines_from(s@, i as int, cur@) =~= done@.map_values(
            |l: Vec<u8>| l@,
        ));
    }
    done
}

/// Joins the lines from index `from` on by `\n`.
fn join_lines(ls: &Vec<Vec<u8>>, from: usize) -> (r: Vec<u8>)
    requires
        from <= ls@.len(),
    ensures
        r@ == join(ls@.map_values(|l: Vec<u8>| l@).skip(from as int)),
{
    let ghost all = ls@.map_values(|l: Vec<u8>| l@);
    let mut out: Vec<u8> = Vec::new();
    let mut k: usize = ls.len();
    // Built from the back: `out` holds the join of the lines from `k` on.
    assert(all.skip(k as int) =~= Seq::<Seq<u8>>::empty());
    while k > from
        invariant
            from <= k <= ls@.len(),
            all == ls@.map_values(|l: Vec<u8>| l@),
            out@ == join(all.skip(k as int)),
        decreases k,
    {
        let line = &ls[k - 1];
        let mut next: Vec<u8> = Vec::new();
        let mut j: usize = 0;
        while j < line.len()
            invariant
                j <= line@.len(),
                next@ == line@.take(j as int),
            decreases line@.len() - j,
        {
            next.push(line[j]);
            assert(line@.take(j + 1) =~= line@.take(j as int).push(line@[j as int]));
            j = j + 1;
        }
        assert(line@.take(j as int) =~= line@);
        assert(all.skip(k - 1).drop_first() =~= all.skip(k as int));
        assert(all.skip(k - 1)[0] == line@);
        if k < ls.len() {
            next.push(10u8);
        }
        let ghost prefix = next@;
        let mut m: usize = 0;
        while m < out.len()
            invariant
                m <= out@.len(),
                next@ == prefix + out@.take(m as int),
            decreases out@.len() - m,
        {
            next.push(out[m]);
            assert(out@.take(m + 1) =~= out@.take(m as int).push(out@[m as int]));
            m = m + 1;
        }
        assert(out@.take(m as int) =~= out@);
        assert(next@ =~= join(all.skip(k - 1)));
        out = next;
        k = k - 1;
    }
    out
}

/// The part of a line before its first `;`.
fn first_field_of(l: &Vec<u8>) -> (r: Vec<u8>)
    ensures
        r@ == first_field(l@),
{
    let mut out: Vec<u8> = Vec::new();
    let mut i: usize = 0;
    assert(l@.skip(0) =~= l@);
    assert(out@ + l@ =~= l@);
    while i < l.len() && l[i] != 59u8
        invariant
            i <= l@.len(),
            first_field(l@) == out@ + first_field(l@.skip(i as int)),
        decreases l@.len() - i,
    {
        assert(l@.skip(i as int).drop_first() =~= l@.skip(i + 1));
        out.push(l[i]);
        assert(first_field(l@) =~= out@ + first_field(l@.skip(i + 1)));
        i = i + 1;
    }
    assert(first_field(l@.skip(i as int)) =~= Seq::<u8>::empty());
    assert(out@ + Seq::<u8>::empty() =~= out@);
    out
}

/// The `i32` that a text denotes, or `None`.
pub fn parse_version(b: &[u8]) -> (r: Option<i32>)
    ensures
        r == parse_i32(b@),
{
    let neg = b.len() > 0 && b[0] == 45u8;
    let start: usize = if b.len() > 0 && (b[0] == 45u8 || b[0] == 43u8) {
        1
    } else {
        0
    };
    let ghost ds = b@.skip(start as int);
    assert(ds =~= if start == 1 { b@.drop_first() } else { b@ });
    if start == b.len() {
        return None;
    }
    let cap: i64 = 2147483649;
    let mut acc: i64 = 0;
    let mut i: usize = start;
    while i < b.len()
        invariant
            start <= i <= b@.len(),
            ds == b@.skip(start as int),
            ds == if b@.len() > 0 && (b@[0] == 45 || b@[0] == 43) {
                b@.drop_first()
            } else {
                b@
            },
            neg == (b@.len() > 0 && b@[0] == 45),
            all_digits(ds.take(i - start)),
            0 <= acc <= cap,
            cap == 2147483649,
            acc == if digits_value(ds.take(i - start)) < cap {
                digits_value(ds.take(i - start))
            } else {
                cap as int
            },
            digits_value(ds.take(i - start)) >= 0,
        decreases b@.len() - i,
    {
        let c = b[i];
        if c < 48u8 || c > 57u8 {
            assert(ds[i - start] == c);
            assert(!all_digits(ds));
            return None;
        }
        let ghost prev = digits_value(ds.take(i - start));
        assert(ds.take(i + 1 - start).drop_last() =~= ds.take(i - start));
        assert(ds.take(i + 1 - start).last() == c);
        let d = (c - 48u8) as i64;
        let a0 = acc;
        acc = if acc >= cap / 10 + 1 {
            cap
        } else if acc * 10 + d >= cap {
            cap
        } else {
            acc * 10 + d
        };
        assert(acc == if prev * 10 + d < cap { prev * 10 + d } else { cap as int }) by (nonlinear_arith)
            requires
                prev >= 0,
                0 <= d <= 9,
                cap == 2147483649,
                a0 == if prev < cap { prev } else { cap as int },
                acc == if a0 >= cap / 10 + 1 { cap as int } else if a0 * 10 + d >= cap {
                    cap as int
                } else {
                    a0 * 10 + d
                },
        ;
        i = i + 1;
    }
    assert(ds.take(i - start) =~= ds);
    if neg {
        if acc > 2147483648 {
            None
        } else {
            Some((-acc) as i32)
        }
    } else {
        if acc > 2147483647 {
            None
        } else {
            Some(acc as i32)
        }
    }
}

/// Reads an export file: checks its meta line and gives back the JSON part.
pub fn full_import_file_body(contents: &[u8]) -> (r: Result<Vec<u8>, FormatError>)
    ensures
        read_as(r, file_body(contents@)),
{
    let ls = split_lines(contents);
    if ls.len() == 0 {
        return Err(FormatError::MissingMetaLine);
    }
    let field = first_field_of(&ls[0]);
    match parse_version(field.as_slice()) {
        None => Err(FormatError::MetaLineFormat(String::from_str("Version is not a number (i32)"))),
        Some(version) => {
            if version != IMPORT_FILE_VERSION {
                Err(FormatError::WrongVersion { expected: IMPORT_FILE_VERSION, actual: version })
            } else {
                let body = join_lines(&ls, 1);
                assert(ls@.map_values(|l: Vec<u8>| l@).skip(1) =~= lines(contents@).drop_first());
                Ok(body)
            }
        },
    }
}

/// A text with bytes left to read, or a line begun, has at least one line.
proof fn lemma_lines_nonempty(s: Seq<u8>, i: int, cur: Seq<u8>)
    requires
        0 <= i,
        i < s.len() || cur.len() > 0,
    ensures
        lines_from(s, i, cur).len() >= 1,
    decreases s.len() - i,
{
    if i < s.len() && s[i] != 10 {
        lemma_lines_nonempty(s, i + 1, cur.push(s[i]));
    }
}

/// The lines of a text without `\r` and without a final `\n`, joined again, give the
/// text back.
proof fn lemma_join_lines(s: Seq<u8>, i: int, cur: Seq<u8>)
    requires
        0 <= i <= s.len(),
        forall|j: int| i <= j < s.len() ==> s[j] != 13,
        forall|j: int| 0 <= j < cur.len() ==> cur[j] != 13,
        s.len() == 0 || s.last() != 10,
    ensures
        join(lines_from(s, i, cur)) == cur + s.skip(i),
    decreases s.len() - i,
{
    if i >= s.len() {
        assert(cur + s.skip(i) =~= cur);
    } else if s[i] == 10 {
        assert(strip_cr(cur) == cur);
        let rest = lines_from(s, i + 1, Seq::empty());
        lemma_lines_nonempty(s, i + 1, Seq::empty());
        lemma_join_lines(s, i + 1, Seq::empty());
        let all = seq![cur] + rest;
        assert(all.drop_first() =~= rest);
        assert(all[0] == cur);
        assert(Seq::<u8>::empty() + s.skip(i + 1) =~= s.skip(i + 1));
        assert(cur.push(10u8) + s.skip(i + 1) =~= cur + s.skip(i));
    } else {
        lemma_join_lines(s, i + 1, cur.push(s[i]));
        assert(cur.push(s[i]) + s.skip(i + 1) =~= cur + s.skip(i));
    }
}

/// Reading past a prefix reads the rest as a text of its own.
proof fn lemma_lines_shift(p: Seq<u8>, q: Seq<u8>, i: int, cur: Seq<u8>)
    requires
        0 <= i <= q.len(),
    ensures
        lines_from(p + q, p.len() + i, cur) == lines_from(q, i, cur),
    decreases q.len() - i,
{
    if i < q.len() {
        assert((p + q)[p.len() + i] == q[i]);
        if q[i] == 10 {
            lemma_lines_shift(p, q, i + 1, Seq::empty());
        } else {
            lemma_lines_shift(p, q, i + 1, cur.push(q[i]));
        }
    }
}

/// Reading an exported file gives back the JSON text it was made of, when that text
/// holds no `\r` and does not end with a line break (as `serde_json`'s output does
/// not).
pub proof fn lemma_export_then_import(json: Seq<u8>)
    requires
        forall|j: int| 0 <= j < json.len() ==> json[j] != 13,
        json.len() == 0 || json.last() != 10,
    ensures
        file_body(meta_line().push(10u8) + json) == Ok::<Seq<u8>, FormatError>(json),
{
    let head = meta_line().push(10u8);
    assert(digits(1) == seq![49u8]);
    assert(head =~= seq![49u8, 59u8, 10u8]);
    let f = head + json;
    assert(f[0] == 49u8 && f[1] == 59u8 && f[2] == 10u8);
    assert(lines_from(f, 0, Seq::empty()) == lines_from(f, 1, seq![49u8]));
    assert(Seq::<u8>::empty().push(49u8) =~= seq![49u8]);
    assert(seq![49u8].push(59u8) =~= seq![49u8, 59u8]);
    assert(lines_from(f, 1, seq![49u8]) == lines_from(f, 2, seq![49u8, 59u8]));
    lemma_lines_shift(head, json, 0, Seq::empty());
    let meta = seq![49u8, 59u8];
    assert(strip_cr(meta) == meta);
    assert(lines(f) == seq![meta] + lines(json));
    assert(lines(f)[0] == meta);
    assert(lines(f).drop_first() =~= lines(json));
    assert(first_field(meta.drop_first()) == Seq::<u8>::empty()) by {
        assert(meta.drop_first() =~= seq![59u8]);
    }
    assert(first_field(meta) =~= seq![49u8]);
    assert(digits_value(seq![49u8]) == 1) by {
        assert(seq![49u8].drop_last() =~= Seq::<u8>::empty());
        assert(digits_value(Seq::<u8>::empty()) == 0);
        assert(seq![49u8].last() == 49u8);
    }
    assert(parse_i32(seq![49u8]) == Some(1i32));
    lemma_join_lines(json, 0, Seq::empty());
    assert(Seq::<u8>::empty() + json.skip(0) =~= json);
}

} // verus!
