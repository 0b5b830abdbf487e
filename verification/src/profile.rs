//! Terrain-profile rows and files.
//!
//! A row holds a bearing angle, an optional boundary value, and pairs
//! of pixel-offset and label columns.  Pixel offsets are absolute
//! distances from the transmitter, converted to millimetres by the
//! fixed ratio of 200 km to 254 px; terrain alternates ground, sea,
//! ground and so on outward.  A `border` pseudo-marker closes the final
//! segment at the separately supplied boundary distance.  A file is a
//! header line followed by one row per bearing.

use vstd::arithmetic::div_mod::lemma_fundamental_div_mod;
use vstd::prelude::*;
use vstd::slice::slice_subrange;

use crate::parse::{
    lemma_find_first, lemma_parse_milli_bound, parse_milli, parse_milli_signed, spec_parse_milli,
    spec_parse_milli_signed, spec_split, spec_trim, spec_views, split_bytes, trim_bytes,
};
use crate::terrain::defaults::Terrain;
use crate::terrain::line::{lemma_total_len_push, spec_total_len, Line};
use crate::terrain::line_segment::LineSegment;

verus! {

/// Why a profile row was rejected.
#[derive(Clone, Copy, PartialEq, Eq, Structural, Debug)]
pub enum ParseError {
    /// The row has no column at this index.
    MissingColumn { column: usize },
    /// The column at this index is not a decimal number.
    MalformedNumber { column: usize },
    /// The segment this column closes would not have positive length.
    NonPositiveLength { column: usize },
    /// A `border` marker was used but no boundary value was declared.
    BorderWithoutBoundary,
}

/// A row failure tagged with its row index in the file.
#[derive(Clone, Copy, PartialEq, Eq, Structural, Debug)]
pub struct ProfileError {
    pub row: usize,
    pub error: ParseError,
}

/// An absolute pixel offset, thousandths, as millimetres from the
/// transmitter: 254 px stand for 200 km.
pub open spec fn spec_px_to_mm(px_milli: int) -> int {
    px_milli * 100_000 / 127
}

/// A boundary value, thousandths, as millimetres from the transmitter:
/// 200 boundary units stand for 254 km.
pub open spec fn spec_boundary_to_mm(b_milli: int) -> int {
    b_milli * 1270
}

/// Converts an absolute pixel offset to millimetres.
pub fn px_to_mm(px_milli: u64) -> (r: u64)
    requires
        px_milli < 10_000_000_000_001_000,
    ensures
        r == spec_px_to_mm(px_milli as int),
        r < 7_900_000_000_000_000_000,
{
    let wide: u128 = (px_milli as u128) * 100_000;
    let q: u128 = wide / 127;
    proof {
        lemma_fundamental_div_mod(wide as int, 127);
    }
    q as u64
}

/// Converts a boundary value to millimetres.
pub fn boundary_to_mm(b_milli: u64) -> (r: u64)
    requires
        b_milli < 10_000_000_000_001_000,
    ensures
        r == spec_boundary_to_mm(b_milli as int),
        r < 12_700_000_000_001_270_000,
{
    b_milli * 1270
}

/// The bytes of the `border` pseudo-marker.
pub open spec fn spec_border() -> Seq<u8> {
    seq![98u8, 111u8, 114u8, 100u8, 101u8, 114u8]
}

/// Whether `v` spells `border`.
fn is_border(v: &Vec<u8>) -> (r: bool)
    ensures
        r == (v@ == spec_border()),
{
    let r = v.len() == 6 && v[0] == 98 && v[1] == 111 && v[2] == 114 && v[3] == 100 && v[4] == 101
        && v[5] == 114;
    proof {
        if r {
            assert(v@ =~= spec_border());
        }
        if v@ == spec_border() {
            assert(v@.len() == 6);
            assert(v@[0] == 98 && v@[1] == 111 && v@[2] == 114 && v@[3] == 100 && v@[4] == 101
                && v@[5] == 114);
        }
    }
    r
}

/// The opposite terrain: ground and sea alternate along a row.
pub open spec fn spec_flip(t: Terrain) -> Terrain {
    match t {
        Terrain::Ground => Terrain::Sea,
        Terrain::Sea => Terrain::Ground,
    }
}

/// A segment of terrain `t` with the given length.
pub open spec fn spec_segment(t: Terrain, length_mm: u64) -> LineSegment {
    (LineSegment { lfmf_parameters: t.spec_parameters().spec_with_distance(length_mm) })
}

/// Reads the marker columns of a row from column `k` on: every second
/// column is an absolute pixel offset closing one segment of the
/// alternating terrain; an empty column ends the row, and a `border`
/// marker closes the final segment at the declared boundary distance.
/// Each derived segment length must be positive.
pub open spec fn spec_parse_markers(
    cols: Seq<Seq<u8>>,
    k: int,
    cur_mm: int,
    t: Terrain,
    end_mm: Option<int>,
    acc: Seq<LineSegment>,
) -> Result<Seq<LineSegment>, ParseError>
    decreases cols.len() - k + 2,
{
    if k < 0 || k >= cols.len() {
        Ok(acc)
    } else {
        let c = spec_trim(cols[k]);
        if c == spec_border() {
            match end_mm {
                None => Err(ParseError::BorderWithoutBoundary),
                Some(e) => if e - cur_mm <= 0 {
                    Err((ParseError::NonPositiveLength { column: k as usize }))
                } else {
                    Ok(acc.push(spec_segment(t, (e - cur_mm) as u64)))
                },
            }
        } else if c.len() == 0 {
            Ok(acc)
        } else {
            match spec_parse_milli(c) {
                None => Err((ParseError::MalformedNumber { column: k as usize })),
                Some(px) => {
                    let mm = spec_px_to_mm(px);
                    if mm - cur_mm <= 0 {
                        Err((ParseError::NonPositiveLength { column: k as usize }))
                    } else {
                        spec_parse_markers(
                            cols,
                            k + 2,
                            mm,
                            spec_flip(t),
                            end_mm,
                            acc.push(spec_segment(t, (mm - cur_mm) as u64)),
                        )
                    }
                },
            }
        }
    }
}

/// Reads one profile row: the bearing angle in thousandths of a
/// degree, the optional boundary column, and the marker columns, which
/// start at the third column and alternate with label columns.  The
/// result is the angle and the segments in order.
pub open spec fn spec_parse_to_line(row: Seq<u8>) -> Result<(i64, Seq<LineSegment>), ParseError> {
    let cols = spec_split(row, 44);
    match spec_parse_milli_signed(spec_trim(cols[0])) {
        None => Err((ParseError::MalformedNumber { column: 0 })),
        Some(angle) => if cols.len() < 2 {
            Err((ParseError::MissingColumn { column: 1 }))
        } else {
            let bcol = spec_trim(cols[1]);
            let end_mm = if bcol.len() == 0 {
                Some(None)
            } else {
                match spec_parse_milli(bcol) {
                    None => None,
                    Some(b) => Some(Some(spec_boundary_to_mm(b))),
                }
            };
            match end_mm {
                None => Err((ParseError::MalformedNumber { column: 1 })),
                Some(end) => match spec_parse_markers(
                    cols,
                    2,
                    0,
                    Terrain::Ground,
                    end,
                    Seq::empty(),
                ) {
                    Err(e) => Err(e),
                    Ok(segs) => Ok((angle as i64, segs)),
                },
            }
        },
    }
}

/// An optional boundary distance as the marker reader's ghost state.
pub open spec fn spec_end_opt(e: Option<u64>) -> Option<int> {
    match e {
        None => None,
        Some(v) => Some(v as int),
    }
}

/// Reads the marker columns, building the segments.
#[verifier::rlimit(100)]
fn parse_markers(cols: &Vec<Vec<u8>>, end_mm: Option<u64>) -> (r: Result<
    Vec<LineSegment>,
    ParseError,
>)
    requires
        cols@.len() >= 2,
        end_mm matches Some(e) ==> e < 12_700_000_000_001_270_000,
    ensures
        match spec_parse_markers(
            spec_views(cols@),
            2,
            0,
            Terrain::Ground,
            spec_end_opt(end_mm),
            Seq::empty(),
        ) {
            Ok(segs) => r matches Ok(v) && v@ == segs && spec_total_len(segs) <= u64::MAX
                && (forall|j: int| 0 <= j < segs.len() ==> #[trigger] segs[j].spec_length() > 0),
            Err(e) => r == Err::<Vec<LineSegment>, ParseError>(e),
        },
{
    let ghost gend: Option<int> = spec_end_opt(end_mm);
    let n = cols.len();
    let mut segments: Vec<LineSegment> = Vec::new();
    let mut k: usize = 2;
    let mut cur_mm: u64 = 0;
    let mut terrain = Terrain::Ground;
    loop
        invariant_except_break
            2 <= k <= n,
            n == cols@.len(),
            cur_mm < 12_700_000_000_001_270_000,
            spec_total_len(segments@) == cur_mm,
            forall|j: int|
                0 <= j < segments@.len() ==> #[trigger] segments@[j].spec_length() > 0,
            gend == spec_end_opt(end_mm),
            end_mm matches Some(e) ==> e < 12_700_000_000_001_270_000,
            spec_parse_markers(spec_views(cols@), 2, 0, Terrain::Ground, gend, Seq::empty())
                == spec_parse_markers(
                spec_views(cols@),
                k as int,
                cur_mm as int,
                terrain,
                gend,
                segments@,
            ),
        ensures
            spec_parse_markers(spec_views(cols@), 2, 0, Terrain::Ground, gend, Seq::empty())
                == Ok::<Seq<LineSegment>, ParseError>(segments@),
            spec_total_len(segments@) <= u64::MAX,
            forall|j: int|
                0 <= j < segments@.len() ==> #[trigger] segments@[j].spec_length() > 0,
        decreases n + 2 - k,
    {
        if k >= n {
            break;
        }
        proof {
            assert(spec_views(cols@)[k as int] == cols@[k as int]@);
        }
        let c = trim_bytes(cols[k].as_slice());
        if is_border(&c) {
            match end_mm {
                None => {
                    return Err(ParseError::BorderWithoutBoundary);
                },
                Some(e) => {
                    if e <= cur_mm {
                        return Err(ParseError::NonPositiveLength { column: k });
                    }
                    let seg = LineSegment::with_length(terrain.parameters(), e - cur_mm);
                    let ghost osegs = segments@;
                    segments.push(seg);
                    proof {
                        lemma_total_len_push(osegs, seg);
                    }
                    cur_mm = e;
                    break;
                },
            }
        } else if c.len() == 0 {
            break;
        } else {
            proof {
                lemma_parse_milli_bound(c@);
            }
            match parse_milli(c.as_slice()) {
                None => {
                    return Err(ParseError::MalformedNumber { column: k });
                },
                Some(px) => {
                    let mm = px_to_mm(px);
                    if mm <= cur_mm {
                        return Err(ParseError::NonPositiveLength { column: k });
                    }
                    let seg = LineSegment::with_length(terrain.parameters(), mm - cur_mm);
                    let ghost osegs = segments@;
                    segments.push(seg);
                    proof {
                        lemma_total_len_push(osegs, seg);
                    }
                    cur_mm = mm;
                    terrain = match terrain {
                        Terrain::Ground => Terrain::Sea,
                        Terrain::Sea => Terrain::Ground,
                    };
                    // Both the true next index and its clamp to the
                    // column count are past the end together, where the
                    // reading is finished either way.
                    if n - k >= 2 {
                        k = k + 2;
                    } else {
                        proof {
                            assert(spec_parse_markers(
                                spec_views(cols@),
                                k + 2,
                                cur_mm as int,
                                terrain,
                                gend,
                                segments@,
                            ) == spec_parse_markers(
                                spec_views(cols@),
                                n as int,
                                cur_mm as int,
                                terrain,
                                gend,
                                segments@,
                            ));
                        }
                        k = n;
                    }
                },
            }
        }
    }
    Ok(segments)
}

/// Reads one profile row into a path.
pub fn parse_to_line(row: &[u8]) -> (r: Result<Line, ParseError>)
    ensures
        match spec_parse_to_line(row@) {
            Ok((angle, segs)) => r matches Ok(line) && line.angle_millideg == angle
                && line.segments@ == segs && line.wf(),
            Err(e) => r == Err::<Line, ParseError>(e),
        },
{
    let cols = split_bytes(row, 44);
    proof {
        lemma_find_first(row@, 44);
        assert(spec_views(cols@)[0] == cols@[0]@);
    }
    let angle_bytes = trim_bytes(cols[0].as_slice());
    let angle = match parse_milli_signed(angle_bytes.as_slice()) {
        None => {
            return Err(ParseError::MalformedNumber { column: 0 });
        },
        Some(a) => a,
    };
    if cols.len() < 2 {
        return Err(ParseError::MissingColumn { column: 1 });
    }
    proof {
        assert(spec_views(cols@)[1] == cols@[1]@);
    }
    let boundary_bytes = trim_bytes(cols[1].as_slice());
    let end_mm: Option<u64> = if boundary_bytes.len() == 0 {
        None
    } else {
        proof {
            lemma_parse_milli_bound(boundary_bytes@);
        }
        match parse_milli(boundary_bytes.as_slice()) {
            None => {
                return Err(ParseError::MalformedNumber { column: 1 });
            },
            Some(b) => Some(boundary_to_mm(b)),
        }
    };
    match parse_markers(&cols, end_mm) {
        Err(e) => Err(e),
        Ok(segments) => Ok(Line::with_segments(angle, segments)),
    }
}

/// A row with one trailing carriage return removed.
pub open spec fn spec_clean_row(r: Seq<u8>) -> Seq<u8> {
    if r.len() > 0 && r.last() == 13 {
        r.drop_last()
    } else {
        r
    }
}

/// The rows of a profile file: the pieces between newlines, without
/// the empty piece a trailing newline leaves.
pub open spec fn spec_profile_rows(contents: Seq<u8>) -> Seq<Seq<u8>> {
    let rows0 = spec_split(contents, 10);
    if rows0.len() > 0 && rows0.last().len() == 0 {
        rows0.drop_last()
    } else {
        rows0
    }
}

/// Reads the rows from index `i` on; the first failing row is reported
/// with its index.
pub open spec fn spec_parse_rows(
    rows: Seq<Seq<u8>>,
    i: int,
    acc: Seq<(i64, Seq<LineSegment>)>,
) -> Result<Seq<(i64, Seq<LineSegment>)>, ProfileError>
    decreases rows.len() - i,
{
    if i < 0 || i >= rows.len() {
        Ok(acc)
    } else {
        match spec_parse_to_line(spec_clean_row(rows[i])) {
            Err(e) => Err((ProfileError { row: i as usize, error: e })),
            Ok(p) => spec_parse_rows(rows, i + 1, acc.push(p)),
        }
    }
}

/// Reads a whole profile: the first row is a header and is skipped,
/// every following row is one bearing's path.
pub open spec fn spec_parse_profile(contents: Seq<u8>) -> Result<
    Seq<(i64, Seq<LineSegment>)>,
    ProfileError,
> {
    spec_parse_rows(spec_profile_rows(contents), 1, Seq::empty())
}

/// The angles and segment sequences of a sequence of paths.
pub open spec fn spec_line_views(ls: Seq<Line>) -> Seq<(i64, Seq<LineSegment>)> {
    ls.map_values(|l: Line| (l.angle_millideg, l.segments@))
}

/// Reads a whole profile file into one path per bearing.
pub fn parse_profile(contents: &[u8]) -> (r: Result<Vec<Line>, ProfileError>)
    ensures
        match spec_parse_profile(contents@) {
            Ok(ps) => r matches Ok(lines) && spec_line_views(lines@) == ps && (forall|j: int|
                0 <= j < lines@.len() ==> (#[trigger] lines@[j]).wf()),
            Err(e) => r == Err::<Vec<Line>, ProfileError>(e),
        },
{
    let mut rows = split_bytes(contents, 10);
    if rows.len() > 0 && rows[rows.len() - 1].len() == 0 {
        let ghost orows = rows@;
        rows.pop();
        proof {
            assert(spec_views(orows).last().len() == 0);
            assert(spec_views(rows@) =~= spec_views(orows).drop_last());
        }
    }
    proof {
        assert(spec_views(rows@) == spec_profile_rows(contents@));
    }
    let n = rows.len();
    let mut out: Vec<Line> = Vec::new();
    let mut i: usize = 1;
    proof {
        assert(spec_line_views(out@) =~= Seq::<(i64, Seq<LineSegment>)>::empty());
    }
    while i < n
        invariant
            1 <= i,
            i <= n || i == 1,
            n == rows@.len(),
            forall|j: int| 0 <= j < out@.len() ==> (#[trigger] out@[j]).wf(),
            spec_views(rows@) == spec_profile_rows(contents@),
            spec_parse_profile(contents@) == spec_parse_rows(
                spec_views(rows@),
                i as int,
                spec_line_views(out@),
            ),
        decreases n - i,
    {
        proof {
            assert(spec_views(rows@)[i as int] == rows@[i as int]@);
        }
        let row = rows[i].as_slice();
        let m = row.len();
        let row2: &[u8] = if m > 0 && *vstd::slice::slice_index_get(row, m - 1) == 13 {
            let r2 = slice_subrange(row, 0, m - 1);
            proof {
                assert(r2@ =~= spec_clean_row(rows@[i as int]@));
            }
            r2
        } else {
            proof {
                assert(row@ =~= spec_clean_row(rows@[i as int]@));
            }
            row
        };
        match parse_to_line(row2) {
            Err(e) => {
                return Err(ProfileError { row: i, error: e });
            },
            Ok(line) => {
                let ghost oout = out@;
                out.push(line);
                proof {
                    assert(spec_line_views(out@) =~= spec_line_views(oout).push(
                        (line.angle_millideg, line.segments@),
                    ));
                }
                i = i + 1;
            },
        }
    }
    Ok(out)
}

} // verus!
