//! History graphs: resampling a history to the graph's width, the value
//! range it spans, and braille cells that fill up to each point's level.
use vstd::prelude::*;

verus! {

/// The history sampled at `target_len` evenly spread points (the nearest
/// source index, halves rounded up); zeros for an empty history.
pub open spec fn resampled(source: Seq<u16>, target_len: nat) -> Seq<u16> {
    if target_len == 0 {
        Seq::empty()
    } else if source.len() == 0 {
        Seq::new(target_len, |i: int| 0u16)
    } else if source.len() == 1 {
        Seq::new(target_len, |i: int| source[0])
    } else {
        let last = source.len() - 1;
        let target_last: int = if target_len - 1 > 1 {
            target_len - 1
        } else {
            1
        };
        Seq::new(target_len, |i: int| source[(i * last + target_last / 2) / target_last])
    }
}

proof fn lemma_resample_index(i: int, last: int, tl: int)
    requires
        0 <= i <= tl,
        tl >= 1,
        last >= 1,
    ensures
        0 <= (i * last + tl / 2) / tl <= last,
{
    assert(i * last <= tl * last) by (nonlinear_arith)
        requires
            0 <= i <= tl,
            last >= 1,
    ;
    assert(tl / 2 < tl) by (nonlinear_arith)
        requires
            tl >= 1,
    ;
    assert(i * last + tl / 2 < (last + 1) * tl) by (nonlinear_arith)
        requires
            i * last <= tl * last,
            tl / 2 < tl,
    ;
    assert((i * last + tl / 2) / tl <= last) by (nonlinear_arith)
        requires
            i * last + tl / 2 < (last + 1) * tl,
            i * last + tl / 2 >= 0,
            tl >= 1,
    ;
    assert((i * last + tl / 2) / tl >= 0) by (nonlinear_arith)
        requires
            i * last + tl / 2 >= 0,
            tl >= 1,
    ;
}

pub fn resampled_history_points(source: &Vec<u16>, target_len: usize) -> (r: Vec<u16>)
    requires
        target_len * source@.len() + target_len <= usize::MAX,
    ensures
        r@ == resampled(source@, target_len as nat),
{
    let mut out: Vec<u16> = Vec::new();
    if target_len == 0 {
        assert(out@ =~= resampled(source@, 0));
        return out;
    }
    let n = source.len();
    let last: usize = if n > 1 {
        n - 1
    } else {
        0
    };
    let target_last: usize = if target_len - 1 > 1 {
        target_len - 1
    } else {
        1
    };
    let mut i: usize = 0;
    while i < target_len
        invariant
            i <= target_len,
            n == source.len(),
            target_len > 0,
            target_len * n + target_len <= usize::MAX,
            last == if n > 1 {
                n - 1
            } else {
                0
            },
            target_last == if target_len - 1 > 1 {
                target_len - 1
            } else {
                1
            },
            out@ =~= resampled(source@, target_len as nat).take(i as int),
        decreases target_len - i,
    {
        let v: u16 = if n == 0 {
            0
        } else if n == 1 {
            source[0]
        } else {
            proof {
                lemma_resample_index(i as int, last as int, target_last as int);
                assert(i * last <= target_len * n) by (nonlinear_arith)
                    requires
                        i <= target_len,
                        last <= n,
                ;
            }
            source[(i * last + target_last / 2) / target_last]
        };
        out.push(v);
        i = i + 1;
    }
    out
}

/// The smallest value of a non-empty sequence.
pub open spec fn seq_min(p: Seq<u16>) -> u16
    decreases p.len(),
{
    if p.len() <= 1 {
        p[0]
    } else {
        let m = seq_min(p.drop_last());
        if p.last() < m {
            p.last()
        } else {
            m
        }
    }
}

/// The largest value of a non-empty sequence.
pub open spec fn seq_max(p: Seq<u16>) -> u16
    decreases p.len(),
{
    if p.len() <= 1 {
        p[0]
    } else {
        let m = seq_max(p.drop_last());
        if p.last() > m {
            p.last()
        } else {
            m
        }
    }
}

/// The value range a graph spans: none when all values are 0 (or there are
/// none); else from the smallest to the largest value (both capped at 100),
/// widened to at least 14 around their middle and kept within 0..=100.
pub open spec fn range_of(points: Seq<u16>) -> Option<(u16, u16)> {
    if points.len() == 0 {
        None
    } else {
        let max: int = if seq_max(points) > 100 {
            100
        } else {
            seq_max(points) as int
        };
        let min: int = if seq_min(points) > 100 {
            100
        } else {
            seq_min(points) as int
        };
        if max == 0 {
            None
        } else if max - min >= 14 {
            Some((min as u16, max as u16))
        } else {
            let center = (min + max) / 2;
            let low0: int = if center > 7 {
                center - 7
            } else {
                0
            };
            let high0: int = if center + 7 < 100 {
                center + 7
            } else {
                100
            };
            if high0 - low0 < 14 {
                let low: int = if high0 > 14 {
                    high0 - 14
                } else {
                    0
                };
                let high: int = if low + 14 < 100 {
                    low + 14
                } else {
                    100
                };
                Some((low as u16, high as u16))
            } else {
                Some((low0 as u16, high0 as u16))
            }
        }
    }
}

pub fn graph_range(points: &Vec<u16>) -> (r: Option<(u16, u16)>)
    ensures
        r == range_of(points@),
        r matches Some((lo, hi)) ==> lo < hi <= 100,
{
    if points.len() == 0 {
        return None;
    }
    let mut mx = points[0];
    let mut mn = points[0];
    let mut i: usize = 1;
    assert(points@.take(1) =~= seq![points@[0]]);
    while i < points.len()
        invariant
            1 <= i <= points.len(),
            mx == seq_max(points@.take(i as int)),
            mn == seq_min(points@.take(i as int)),
        decreases points.len() - i,
    {
        assert(points@.take(i + 1).drop_last() =~= points@.take(i as int));
        assert(points@.take(i + 1).last() == points@[i as int]);
        let v = points[i];
        if v > mx {
            mx = v;
        }
        if v < mn {
            mn = v;
        }
        i = i + 1;
    }
    assert(points@.take(points.len() as int) =~= points@);
    let max: u16 = if mx > 100 {
        100
    } else {
        mx
    };
    let min: u16 = if mn > 100 {
        100
    } else {
        mn
    };
    if max == 0 {
        return None;
    }
    if max >= min && max - min >= 14 {
        return Some((min, max));
    }
    let center: u32 = (min as u32 + max as u32) / 2;
    let low0: u32 = if center > 7 {
        center - 7
    } else {
        0
    };
    let high0: u32 = if center + 7 < 100 {
        center + 7
    } else {
        100
    };
    if high0 < low0 + 14 {
        let low: u32 = if high0 > 14 {
            high0 - 14
        } else {
            0
        };
        let high: u32 = if low + 14 < 100 {
            low + 14
        } else {
            100
        };
        Some((low as u16, high as u16))
    } else {
        Some((low0 as u16, high0 as u16))
    }
}

/// One cell of a graph: its braille glyph (a space when empty) and whether
/// any dot is set.
#[derive(Clone, Copy, Debug, PartialEq, Eq, Structural)]
pub struct GraphCell {
    pub glyph: char,
    pub active: bool,
}

/// The dots of the left column of a braille cell filled from the bottom,
/// `n` of them.
pub open spec fn left_dots(n: int) -> u8 {
    if n <= 0 {
        0
    } else if n == 1 {
        0x40
    } else if n == 2 {
        0x44
    } else if n == 3 {
        0x46
    } else {
        0x47
    }
}

/// The dots of the right column filled from the bottom, `n` of them.
pub open spec fn right_dots(n: int) -> u8 {
    if n <= 0 {
        0
    } else if n == 1 {
        0x80
    } else if n == 2 {
        0xA0
    } else if n == 3 {
        0xB0
    } else {
        0xB8
    }
}

/// The height in dots (from 0 at the bottom) that a value reaches in a
/// graph of `pixels` dots spanning `low..=high`.
pub open spec fn dot_level(v: u16, low: u16, high: u16, pixels: nat) -> int {
    let capped: int = if v < low {
        low as int
    } else if v > high {
        high as int
    } else {
        v as int
    };
    let range: int = if high - low > 1 {
        high - low
    } else {
        1
    };
    ((capped - low) * (pixels - 1) + range / 2) / range
}

/// The dots of cell row `r` (from the top) that a level fills: up to four.
pub open spec fn dots_in_row(level: int, rows: nat, r: int) -> int {
    let base = 4 * (rows - 1 - r);
    if level < base {
        0
    } else if level - base + 1 > 4 {
        4
    } else {
        level - base + 1
    }
}

/// The dot mask of cell (`r`, `x`): the even point of column `x` fills the
/// left dots, the odd point the right ones, each up to its level.
pub open spec fn cell_mask(points: Seq<u16>, low: u16, high: u16, rows: nat, r: int, x: int) -> u8 {
    let pixels = rows * 4;
    (left_dots(dots_in_row(dot_level(points[2 * x], low, high, pixels), rows, r)) + right_dots(
        dots_in_row(dot_level(points[2 * x + 1], low, high, pixels), rows, r),
    )) as u8
}

/// The character a cell shows, by its code point: the braille pattern
/// `U+2800 + mask` for a cell with dots, a space for an empty one.
pub open spec fn glyph_code(mask: u8) -> int {
    if mask == 0 {
        ' ' as int
    } else {
        0x2800 + mask as int
    }
}

/// The cells of a graph of `rows` by `width` for the history, each as the
/// code point of its character and whether it is lit: resampled to two
/// points per cell, scaled to the graph's range, each cell filled from the
/// bottom (see `cell_mask` and `glyph_code`); all blank spaces when the range
/// is empty.
pub open spec fn graph_cells(history: Seq<u16>, rows: nat, width: nat) -> Seq<Seq<(int, bool)>> {
    if rows == 0 || width == 0 {
        Seq::empty()
    } else {
        let source = if history.len() == 0 {
            seq![0u16]
        } else {
            history
        };
        let points = resampled(source, 2 * width);
        match range_of(points) {
            None => Seq::new(rows, |r: int| Seq::new(width, |x: int| (' ' as int, false))),
            Some((low, high)) => Seq::new(
                rows,
                |r: int|
                    Seq::new(
                        width,
                        |x: int|
                            (
                                glyph_code(cell_mask(points, low, high, rows, r, x)),
                                cell_mask(points, low, high, rows, r, x) != 0,
                            ),
                    ),
            ),
        }
    }
}

/// `char::from_u32`: the character with code point `code`, for any code
/// point that is a Unicode scalar value (every one below `0xD800` is).
#[verifier::external_body]
fn char_from_code(code: u32) -> (r: Option<char>)
    ensures
        code < 0xD800 ==> r == Some(code as char),
{
    char::from_u32(code)
}

/// The braille pattern `U+2800 + mask`: the character of a cell with dots.
fn braille_glyph(mask: u8) -> (r: char)
    ensures
        r as int == 0x2800 + mask as int,
{
    let code: u32 = 0x2800 + mask as u32;
    match char_from_code(code) {
        Some(c) => c,
        None => ' ',
    }
}

/// A cell as the code point of the character it shows and whether it is lit.
pub open spec fn cell_view(c: GraphCell) -> (int, bool) {
    (c.glyph as int, c.active)
}

fn level_of(v: u16, low: u16, high: u16, pixels: usize) -> (r: usize)
    requires
        low < high <= 100,
        1 <= pixels,
        pixels * 200 <= usize::MAX,
    ensures
        r as int == dot_level(v, low, high, pixels as nat),
        r < pixels,
{
    let capped: u16 = if v < low {
        low
    } else if v > high {
        high
    } else {
        v
    };
    let range: usize = if (high - low) > 1 {
        (high - low) as usize
    } else {
        1
    };
    let offset = (capped - low) as usize;
    proof {
        assert(offset <= range);
        assert(offset * (pixels - 1) <= range * (pixels - 1)) by (nonlinear_arith)
            requires
                offset <= range,
                pixels >= 1,
        ;
        assert(range * (pixels - 1) <= 100 * pixels) by (nonlinear_arith)
            requires
                range <= 100,
                pixels >= 1,
        ;
        assert((offset * (pixels - 1) + range as int / 2) / (range as int) < pixels) by (nonlinear_arith)
            requires
                offset * (pixels - 1) <= range * (pixels - 1),
                range >= 1,
                pixels >= 1,
        ;
    }
    (offset * (pixels - 1) + range / 2) / range
}

fn dots_for(level: usize, rows: usize, r: usize, left: bool) -> (m: u8)
    requires
        r < rows,
        4 * rows <= usize::MAX,
    ensures
        m == if left {
            left_dots(dots_in_row(level as int, rows as nat, r as int))
        } else {
            right_dots(dots_in_row(level as int, rows as nat, r as int))
        },
        m <= if left {
            0x47u8
        } else {
            0xB8u8
        },
{
    let base = 4 * (rows - 1 - r);
    let n: usize = if level < base {
        0
    } else if level - base >= 4 {
        4
    } else {
        level - base + 1
    };
    if left {
        if n == 0 {
            0
        } else if n == 1 {
            0x40
        } else if n == 2 {
            0x44
        } else if n == 3 {
            0x46
        } else {
            0x47
        }
    } else {
        if n == 0 {
            0
        } else if n == 1 {
            0x80
        } else if n == 2 {
            0xA0
        } else if n == 3 {
            0xB0
        } else {
            0xB8
        }
    }
}

pub open spec fn cells_view(g: Seq<Vec<GraphCell>>) -> Seq<Seq<(int, bool)>> {
    g.map_values(|row: Vec<GraphCell>| row@.map_values(|c: GraphCell| cell_view(c)))
}

/// The graph's cells (see `graph_cells`).
pub fn vertical_braille_graph(history: &Vec<u16>, rows: usize, width: usize) -> (r: Vec<Vec<GraphCell>>)
    requires
        rows * 4 * 200 <= usize::MAX,
        width * 2 * (history@.len() + 1) + width * 2 <= usize::MAX,
    ensures
        cells_view(r@) == graph_cells(history@, rows as nat, width as nat),
{
    let mut out: Vec<Vec<GraphCell>> = Vec::new();
    if rows == 0 || width == 0 {
        assert(cells_view(out@) =~= graph_cells(history@, rows as nat, width as nat));
        return out;
    }
    let pixels = rows * 4;
    let max_points = width * 2;
    let zero: Vec<u16> = vec![0u16];
    let source: &Vec<u16> = if history.len() == 0 {
        &zero
    } else {
        history
    };
    assert(source@ == if history@.len() == 0 {
        seq![0u16]
    } else {
        history@
    });
    proof {
        assert(source@.len() <= history@.len() + 1);
        assert(max_points * source@.len() <= width * 2 * (history@.len() + 1)) by (nonlinear_arith)
            requires
                source@.len() <= history@.len() + 1,
                max_points == width * 2,
        ;
    }
    let points = resampled_history_points(source, max_points);
    let ghost g = graph_cells(history@, rows as nat, width as nat);
    let range = graph_range(&points);
    let mut r: usize = 0;
    while r < rows
        invariant
            r <= rows,
            rows > 0,
            width > 0,
            pixels == rows * 4,
            rows * 4 * 200 <= usize::MAX,
            max_points == width * 2,
            points@.len() == max_points,
            g == graph_cells(history@, rows as nat, width as nat),
            points@ == resampled(
                if history@.len() == 0 {
                    seq![0u16]
                } else {
                    history@
                },
                2 * width as nat,
            ),
            range == range_of(points@),
            range matches Some((lo, hi)) ==> lo < hi <= 100,
            g.len() == rows,
            cells_view(out@) =~= g.take(r as int),
        decreases rows - r,
    {
        let mut row: Vec<GraphCell> = Vec::new();
        let mut x: usize = 0;
        while x < width
            invariant
                x <= width,
                r < rows,
                pixels == rows * 4,
                rows * 4 * 200 <= usize::MAX,
                max_points == width * 2,
                points@.len() == max_points,
                g == graph_cells(history@, rows as nat, width as nat),
                points@ == resampled(
                    if history@.len() == 0 {
                        seq![0u16]
                    } else {
                        history@
                    },
                    2 * width as nat,
                ),
                range == range_of(points@),
                range matches Some((lo, hi)) ==> lo < hi <= 100,
                g[r as int].len() == width,
                row@.map_values(|c: GraphCell| cell_view(c)) =~= g[r as int].take(x as int),
            decreases width - x,
        {
            let cell = match range {
                None => GraphCell { glyph: ' ', active: false },
                Some((low, high)) => {
                    let ll = level_of(points[2 * x], low, high, pixels);
                    let rl = level_of(points[2 * x + 1], low, high, pixels);
                    let lm = dots_for(ll, rows, r, true);
                    let rm = dots_for(rl, rows, r, false);
                    let mask: u8 = lm + rm;
                    assert(mask == cell_mask(points@, low, high, rows as nat, r as int, x as int));
                    if mask == 0 {
                        GraphCell { glyph: ' ', active: false }
                    } else {
                        GraphCell { glyph: braille_glyph(mask), active: true }
                    }
                },
            };
            let ghost before = row@.map_values(|c: GraphCell| cell_view(c));
            row.push(cell);
            assert(row@.map_values(|c: GraphCell| cell_view(c)) =~= before.push(cell_view(cell)));
            x = x + 1;
        }
        assert(g[r as int].take(width as int) =~= g[r as int]);
        let ghost before_rows = cells_view(out@);
        out.push(row);
        assert(cells_view(out@) =~= before_rows.push(g[r as int]));
        r = r + 1;
    }
    assert(g.take(rows as int) =~= g);
    out
}

} // verus!
