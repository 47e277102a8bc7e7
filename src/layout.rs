//! Breaking the alt text of a comic into lines no wider than a target width,
//! at the break opportunities of the Unicode line breaking algorithm.

use unicode_linebreak::{linebreaks, BreakOpportunity};
use vstd::prelude::*;
use vstd::string::StringSliceAdditionalSpecFns;
use vstd::utf8::{
    encode_utf8, encode_utf8_valid_utf8, is_char_boundary, is_char_boundary_start_end_of_seq,
};

verus! {

/// One line of a broken text: the byte range `[start, end)` and its width.
#[derive(Clone, Copy, Debug, PartialEq, Eq, Structural)]
pub struct Line {
    pub start: usize,
    pub end: usize,
    pub width: u64,
}

/// The break opportunities that the Unicode line breaking algorithm finds in
/// a text: the byte position after each, and whether the break is mandatory.
pub uninterp spec fn linebreaks_of(text: Seq<char>) -> Seq<(usize, bool)>;

/// Whether the positions of `b` strictly increase.
pub open spec fn increasing(b: Seq<(usize, bool)>) -> bool {
    forall|i: int, j: int| 0 <= i < j < b.len() ==> #[trigger] b[i].0 < #[trigger] b[j].0
}

/// Whether no position of `b` exceeds `len`.
pub open spec fn within(b: Seq<(usize, bool)>, len: int) -> bool {
    forall|i: int| 0 <= i < b.len() ==> #[trigger] b[i].0 <= len
}

/// Relies on unicode_linebreak::linebreaks: the opportunities depend on the
/// text alone, and come in increasing byte order, each at a char boundary and
/// none past the end (they are the text's char indices and its length,
/// filtered).
#[verifier::external_body]
fn break_opportunities(text: &str) -> (r: Vec<(usize, bool)>)
    ensures
        r@ == linebreaks_of(text@),
        increasing(r@),
        within(r@, text.spec_bytes().len() as int),
        forall|i: int|
            0 <= i < r@.len() ==> is_char_boundary(text.spec_bytes(), #[trigger] r@[i].0 as int),
{
    linebreaks(text).map(|(i, o)| (i, match o {
        BreakOpportunity::Mandatory => true,
        BreakOpportunity::Allowed => false,
    })).collect()
}

/// Whether `measure` gives `w` as the width of `[s, e)`.
pub open spec fn measured<F: Fn(usize, usize) -> u64>(measure: F, s: int, e: int, w: u64) -> bool {
    measure.ensures((s as usize, e as usize), w)
}

/// Whether no opportunity of `b` lies strictly inside `(s, e)`: the line
/// `[s, e)` is the shortest that starts at `s`.
pub open spec fn no_break_inside(b: Seq<(usize, bool)>, s: int, e: int) -> bool {
    forall|k: int| 0 <= k < b.len() ==> !(s < #[trigger] b[k].0 < e)
}

/// Whether no mandatory opportunity lies strictly inside `(s, e)`.
pub open spec fn no_mandatory_inside(b: Seq<(usize, bool)>, s: int, e: int) -> bool {
    forall|k: int| 0 <= k < b.len() && s < #[trigger] b[k].0 < e ==> !b[k].1
}

/// Whether every opportunity strictly inside `(s, e)` ends a candidate line
/// from `s` that was measured within `target`.
pub open spec fn fits_inside<F: Fn(usize, usize) -> u64>(
    b: Seq<(usize, bool)>,
    s: int,
    e: int,
    target: u64,
    measure: F,
) -> bool {
    forall|k: int|
        0 <= k < b.len() && s < #[trigger] b[k].0 < e ==> exists|w: u64|
            #[trigger] measured(measure, s, b[k].0 as int, w) && w <= target
}

/// Why a line ends where it does: at a mandatory opportunity; at the end of
/// the text; too wide but the shortest line from its start; or within the
/// target while the next candidate, ending at an optional opportunity, was
/// measured wider than the target.
pub open spec fn ends_rightly<F: Fn(usize, usize) -> u64>(
    b: Seq<(usize, bool)>,
    len: int,
    target: u64,
    measure: F,
    l: Line,
) -> bool {
    l.end == len || exists|k: int|
        0 <= k < b.len() && #[trigger] b[k].0 == l.end && (b[k].1 || (l.width > target
            && no_break_inside(b, l.start as int, l.end as int)) || (l.width <= target && k + 1
            < b.len() && !b[k + 1].1 && exists|w: u64| #[trigger] measured(measure, l.start as int, b[k + 1].0 as int, w) && w
            > target))
}

/// What holds of every line of a broken text.
pub open spec fn line_ok<F: Fn(usize, usize) -> u64>(
    b: Seq<(usize, bool)>,
    len: int,
    target: u64,
    measure: F,
    l: Line,
) -> bool {
    &&& l.start < l.end <= len
    &&& measured(measure, l.start as int, l.end as int, l.width)
    &&& no_mandatory_inside(b, l.start as int, l.end as int)
    &&& fits_inside(b, l.start as int, l.end as int, target, measure)
    &&& ends_rightly(b, len, target, measure, l)
}

/// Whether `lines` follow one another from position 0 to `end`.
pub open spec fn chained(lines: Seq<Line>, end: int) -> bool {
    &&& lines.len() == 0 ==> end == 0
    &&& lines.len() > 0 ==> lines[0].start == 0 && lines.last().end == end
    &&& forall|i: int| 0 <= i < lines.len() - 1 ==> #[trigger] lines[i].end == lines[i + 1].start
}

/// Whether a line is wider than the target only where no shorter line was
/// possible: it is the shortest line from its start, or it ends at a
/// mandatory break or at the end of the text.
pub open spec fn overflow_forced(b: Seq<(usize, bool)>, len: int, target: u64, l: Line) -> bool {
    l.width > target ==> (no_break_inside(b, l.start as int, l.end as int) || l.end == len
        || exists|k: int| 0 <= k < b.len() && #[trigger] b[k].0 == l.end && b[k].1)
}

/// Breaks the text `[0, len)` into lines at the opportunities `breaks`.
///
/// A candidate line runs from the end of the last line to an opportunity;
/// an opportunity at the start of the text gives no line. At a mandatory opportunity the candidate is taken as it is. At an
/// optional one, a candidate wider than `target` gives way to the last
/// candidate that fitted, and measuring starts again from that line's end;
/// with no such candidate the wide one is taken. Text after the last
/// opportunity forms a last line.
pub fn wrap_lines<F: Fn(usize, usize) -> u64>(
    breaks: &Vec<(usize, bool)>,
    len: usize,
    target: u64,
    measure: F,
) -> (lines: Vec<Line>)
    requires
        increasing(breaks@),
        within(breaks@, len as int),
        forall|s: usize, e: usize| s <= e <= len ==> #[trigger] measure.requires((s, e)),
    ensures
        chained(lines@, len as int),
        forall|i: int|
            0 <= i < lines@.len() ==> line_ok(breaks@, len as int, target, measure, #[trigger] lines@[i]),
        forall|i: int|
            0 <= i < lines@.len() ==> overflow_forced(breaks@, len as int, target, #[trigger] lines@[i]),
{
    let ghost b = breaks@;
    let mut lines: Vec<Line> = Vec::new();
    let mut seg: usize = 0;
    let mut last: usize = 0;
    let mut last_w: u64 = 0;
    let mut j: usize = 0;
    while j < breaks.len()
        invariant
            b == breaks@,
            increasing(b),
            within(b, len as int),
            forall|s: usize, e: usize| s <= e <= len ==> #[trigger] measure.requires((s, e)),
            j <= b.len(),
            seg <= last <= len,
            j == 0 ==> last == 0,
            j > 0 ==> last == b[j - 1].0,
            seg != last ==> last_w <= target && measured(measure, seg as int, last as int, last_w),
            forall|k: int| 0 <= k < j && seg < #[trigger] b[k].0 ==> !b[k].1,
            forall|k: int|
                0 <= k < j && seg < #[trigger] b[k].0 ==> exists|w: u64|
                    #[trigger] measured(measure, seg as int, b[k].0 as int, w) && w <= target,
            chained(lines@, seg as int),
            forall|i: int|
                0 <= i < lines@.len() ==> line_ok(b, len as int, target, measure, #[trigger] lines@[i]),
            forall|i: int|
                0 <= i < lines@.len() ==> overflow_forced(b, len as int, target, #[trigger] lines@[i]),
        decreases b.len() - j,
    {
        let (loc, mandatory) = breaks[j];
        proof {
            if j > 0 {
                assert(b[j - 1].0 < b[j as int].0);
            }
            assert(b[j as int].0 <= len);
        }
        if loc == seg {
            last = loc;
        } else {
            let w = measure(seg, loc);
            if mandatory {
                let line = Line { start: seg, end: loc, width: w };
                proof {
                    assert(line_ok(b, len as int, target, measure, line)) by {
                        assert(b[j as int].0 == line.end);
                        assert forall|k: int| 0 <= k < b.len() && seg < #[trigger] b[k].0 < loc implies !b[k].1 by {
                            if k >= j {
                                if k > j {
                                    assert(b[j as int].0 < b[k].0);
                                }
                            }
                        }
                        assert forall|k: int| 0 <= k < b.len() && seg < #[trigger] b[k].0 < loc implies exists|w: u64|
                            #[trigger] measured(measure, seg as int, b[k].0 as int, w) && w <= target by {
                            if k >= j {
                                if k > j {
                                    assert(b[j as int].0 < b[k].0);
                                }
                            }
                        }
                    }
                    assert(overflow_forced(b, len as int, target, line)) by {
                        assert(b[j as int].0 == line.end);
                    }
                }
                lines.push(line);
                seg = loc;
                last = loc;
            } else if w > target && last != seg {
                let line = Line { start: seg, end: last, width: last_w };
                proof {
                    assert(line_ok(b, len as int, target, measure, line)) by {
                        assert(b[j - 1].0 == line.end);
                        assert(measured(measure, line.start as int, b[j as int].0 as int, w));
                        assert forall|k: int| 0 <= k < b.len() && seg < #[trigger] b[k].0 < last implies !b[k].1 by {
                            if k >= j - 1 {
                                if k > j - 1 {
                                    assert(b[j - 1].0 < b[k].0);
                                }
                            }
                        }
                        assert forall|k: int| 0 <= k < b.len() && seg < #[trigger] b[k].0 < last implies exists|w: u64|
                            #[trigger] measured(measure, seg as int, b[k].0 as int, w) && w <= target by {
                            if k >= j - 1 {
                                if k > j - 1 {
                                    assert(b[j - 1].0 < b[k].0);
                                }
                            }
                        }
                    }
                }
                lines.push(line);
                seg = last;
                let w2 = measure(seg, loc);
                if w2 > target {
                    let wide = Line { start: seg, end: loc, width: w2 };
                    proof {
                        assert(no_break_inside(b, seg as int, loc as int)) by {
                            assert forall|k: int| 0 <= k < b.len() implies !(seg < #[trigger] b[k].0 < loc) by {
                                if k < j - 1 {
                                    assert(b[k].0 < b[j - 1].0);
                                } else if k > j {
                                    assert(b[j as int].0 < b[k].0);
                                }
                            }
                        }
                        assert(b[j as int].0 == wide.end);
                        assert(line_ok(b, len as int, target, measure, wide));
                    }
                    lines.push(wide);
                    seg = loc;
                    last = loc;
                } else {
                    proof {
                        assert forall|k: int| 0 <= k <= j && seg < #[trigger] b[k].0 implies exists|w: u64|
                            #[trigger] measured(measure, seg as int, b[k].0 as int, w) && w <= target by {
                            if k < j {
                                if k < j - 1 {
                                    assert(b[k].0 < b[j - 1].0);
                                }
                            } else {
                                assert(measured(measure, seg as int, b[k].0 as int, w2));
                            }
                        }
                        assert forall|k: int| 0 <= k <= j && seg < #[trigger] b[k].0 implies !b[k].1 by {
                            if k < j - 1 {
                                assert(b[k].0 < b[j - 1].0);
                            }
                        }
                    }
                    last = loc;
                    last_w = w2;
                }
            } else if w > target {
                let wide = Line { start: seg, end: loc, width: w };
                proof {
                    assert(no_break_inside(b, seg as int, loc as int)) by {
                        assert forall|k: int| 0 <= k < b.len() implies !(seg < #[trigger] b[k].0 < loc) by {
                            if k < j {
                                if k < j - 1 {
                                    assert(b[k].0 < b[j - 1].0);
                                }
                            } else if k > j {
                                assert(b[j as int].0 < b[k].0);
                            }
                        }
                    }
                    assert(b[j as int].0 == wide.end);
                    assert(line_ok(b, len as int, target, measure, wide));
                }
                lines.push(wide);
                seg = loc;
                last = loc;
            } else {
                proof {
                    assert forall|k: int| 0 <= k <= j && seg < #[trigger] b[k].0 implies exists|w: u64|
                        #[trigger] measured(measure, seg as int, b[k].0 as int, w) && w <= target by {
                        if k == j {
                            assert(measured(measure, seg as int, b[k].0 as int, w));
                        }
                    }
                }
                last = loc;
                last_w = w;
            }
        }
        j = j + 1;
    }
    if seg < len {
        let w = measure(seg, len);
        let line = Line { start: seg, end: len, width: w };
        proof {
            assert(line_ok(b, len as int, target, measure, line));
        }
        lines.push(line);
    }
    lines
}

/// Breaks `text` into lines no wider than `target`, as `measure` gives the
/// width of a byte range, at the opportunities of the Unicode line breaking
/// algorithm. The lines follow one another from the start of the text to its
/// end, so that together they are the text; none is empty, and each starts
/// and ends at a char boundary.
pub fn break_text<F: Fn(usize, usize) -> u64>(text: &str, target: u64, measure: F) -> (lines: Vec<Line>)
    requires
        forall|s: usize, e: usize| s <= e <= text.spec_bytes().len() ==> #[trigger] measure.requires((s, e)),
    ensures
        chained(lines@, text.spec_bytes().len() as int),
        forall|i: int|
            0 <= i < lines@.len() ==> line_ok(
                linebreaks_of(text@),
                text.spec_bytes().len() as int,
                target,
                measure,
                #[trigger] lines@[i],
            ),
        forall|i: int|
            0 <= i < lines@.len() ==> overflow_forced(
                linebreaks_of(text@),
                text.spec_bytes().len() as int,
                target,
                #[trigger] lines@[i],
            ),
        forall|i: int|
            0 <= i < lines@.len() ==> is_char_boundary(
                text.spec_bytes(),
                (#[trigger] lines@[i]).start as int,
            ) && is_char_boundary(text.spec_bytes(), lines@[i].end as int),
{
    let breaks = break_opportunities(text);
    let len = text.as_bytes().len();
    let lines = wrap_lines(&breaks, len, target, measure);
    proof {
        let bytes = text.spec_bytes();
        let b = breaks@;
        assert(bytes == encode_utf8(text@));
        encode_utf8_valid_utf8(text@);
        is_char_boundary_start_end_of_seq(bytes);
        assert forall|i: int| 0 <= i < lines@.len() implies is_char_boundary(
            bytes,
            lines@[i].end as int,
        ) by {
            let l = lines@[i];
            assert(line_ok(b, len as int, target, measure, l));
            if l.end != len {
                let k = choose|k: int| 0 <= k < b.len() && #[trigger] b[k].0 == l.end;
                assert(is_char_boundary(bytes, b[k].0 as int));
            }
        }
        assert forall|i: int| 0 <= i < lines@.len() implies is_char_boundary(
            bytes,
            (#[trigger] lines@[i]).start as int,
        ) by {
            if i > 0 {
                assert(lines@[i - 1].end == lines@[i].start);
            }
        }
    }
    lines
}

} // verus!
