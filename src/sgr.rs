use vstd::prelude::*;
use crate::config::Rgb;
use crate::grid::{
    BLINK_BIT, BOLD_BIT, DIM_BIT, HIDDEN_BIT, ITALIC_BIT, REVERSE_BIT, STRIKETHROUGH_BIT,
    UNDERLINE_BIT,
};

verus! {

/// The colours and attributes that newly printed cells receive.
#[derive(Clone, Copy, Debug, PartialEq, Eq, Structural)]
pub struct Pen {
    pub fg: Rgb,
    pub bg: Rgb,
    pub flags: u8,
}

/// The parameters of a control sequence, sub-parameters included, in one list.
pub open spec fn flat(params: Seq<Seq<u16>>) -> Seq<u16>
    decreases params.len(),
{
    if params.len() == 0 {
        Seq::empty()
    } else {
        flat(params.drop_last()) + params.last()
    }
}

/// The views of a list of parameters.
pub open spec fn params_view(params: Seq<Vec<u16>>) -> Seq<Seq<u16>> {
    params.map_values(|p: Vec<u16>| p@)
}

/// The channel value of step `x` (0 to 5) of the 6x6x6 colour cube.
pub open spec fn cube_level(x: int) -> u8 {
    if x == 0 {
        0
    } else {
        (55 + 40 * x) as u8
    }
}

/// The colour of entry `n` of the 256-colour table: the sixteen palette colours, then the
/// colour cube, then a ramp of greys. `None` past the table.
pub open spec fn indexed_color(n: int, palette: Seq<Rgb>) -> Option<Rgb> {
    if n < 0 || n > 255 {
        None
    } else if n < 16 {
        Some(palette[n])
    } else if n < 232 {
        Some(
            Rgb {
                r: cube_level((n - 16) / 36),
                g: cube_level(((n - 16) / 6) % 6),
                b: cube_level((n - 16) % 6),
            },
        )
    } else {
        let v = (8 + 10 * (n - 232)) as u8;
        Some(Rgb { r: v, g: v, b: v })
    }
}

/// The colour that an extended colour selection starting at `vals[i]` (38 or 48) names, and
/// the index after it: `5;N` picks from the 256-colour table, `2;R;G;B` gives the colour itself.
pub open spec fn extended_color(vals: Seq<u16>, i: int, palette: Seq<Rgb>) -> (Option<Rgb>, int) {
    if i + 1 >= vals.len() {
        (None, vals.len() as int)
    } else if vals[i + 1] == 5 {
        if i + 2 < vals.len() {
            (indexed_color(vals[i + 2] as int, palette), i + 3)
        } else {
            (None, vals.len() as int)
        }
    } else if vals[i + 1] == 2 {
        if i + 4 < vals.len() {
            if vals[i + 2] <= 255 && vals[i + 3] <= 255 && vals[i + 4] <= 255 {
                (Some(Rgb { r: vals[i + 2] as u8, g: vals[i + 3] as u8, b: vals[i + 4] as u8 }), i + 5)
            } else {
                (None, i + 5)
            }
        } else {
            (None, vals.len() as int)
        }
    } else {
        (None, i + 1)
    }
}

/// The pen after the selection starting at `vals[i]`, and the index of the next selection.
pub open spec fn sgr_step(pen: Pen, vals: Seq<u16>, i: int, defaults: Pen, palette: Seq<Rgb>) -> (
    Pen,
    int,
) {
    let v = vals[i];
    if v == 0 {
        (Pen { flags: 0, ..defaults }, i + 1)
    } else if v == 1 {
        (Pen { flags: pen.flags | BOLD_BIT, ..pen }, i + 1)
    } else if v == 2 {
        (Pen { flags: pen.flags | DIM_BIT, ..pen }, i + 1)
    } else if v == 3 {
        (Pen { flags: pen.flags | ITALIC_BIT, ..pen }, i + 1)
    } else if v == 4 {
        (Pen { flags: pen.flags | UNDERLINE_BIT, ..pen }, i + 1)
    } else if v == 5 {
        (Pen { flags: pen.flags | BLINK_BIT, ..pen }, i + 1)
    } else if v == 7 {
        (Pen { flags: pen.flags | REVERSE_BIT, ..pen }, i + 1)
    } else if v == 8 {
        (Pen { flags: pen.flags | HIDDEN_BIT, ..pen }, i + 1)
    } else if v == 9 {
        (Pen { flags: pen.flags | STRIKETHROUGH_BIT, ..pen }, i + 1)
    } else if v == 21 || v == 22 {
        (Pen { flags: pen.flags & !(BOLD_BIT | DIM_BIT), ..pen }, i + 1)
    } else if v == 23 {
        (Pen { flags: pen.flags & !ITALIC_BIT, ..pen }, i + 1)
    } else if v == 24 {
        (Pen { flags: pen.flags & !UNDERLINE_BIT, ..pen }, i + 1)
    } else if v == 25 {
        (Pen { flags: pen.flags & !BLINK_BIT, ..pen }, i + 1)
    } else if v == 27 {
        (Pen { flags: pen.flags & !REVERSE_BIT, ..pen }, i + 1)
    } else if v == 28 {
        (Pen { flags: pen.flags & !HIDDEN_BIT, ..pen }, i + 1)
    } else if v == 29 {
        (Pen { flags: pen.flags & !STRIKETHROUGH_BIT, ..pen }, i + 1)
    } else if 30 <= v <= 37 {
        (Pen { fg: palette[v - 30], ..pen }, i + 1)
    } else if v == 39 {
        (Pen { fg: defaults.fg, ..pen }, i + 1)
    } else if 40 <= v <= 47 {
        (Pen { bg: palette[v - 40], ..pen }, i + 1)
    } else if v == 49 {
        (Pen { bg: defaults.bg, ..pen }, i + 1)
    } else if 90 <= v <= 97 {
        (Pen { fg: palette[v - 90 + 8], ..pen }, i + 1)
    } else if 100 <= v <= 107 {
        (Pen { bg: palette[v - 100 + 8], ..pen }, i + 1)
    } else if v == 38 {
        let (c, j) = extended_color(vals, i, palette);
        (
            match c {
                Some(c) => Pen { fg: c, ..pen },
                None => pen,
            },
            j,
        )
    } else if v == 48 {
        let (c, j) = extended_color(vals, i, palette);
        (
            match c {
                Some(c) => Pen { bg: c, ..pen },
                None => pen,
            },
            j,
        )
    } else {
        (pen, i + 1)
    }
}

/// The pen after the selections from `vals[i]` on, applied left to right.
pub open spec fn sgr_from(pen: Pen, vals: Seq<u16>, i: int, defaults: Pen, palette: Seq<Rgb>) -> Pen
    decreases vals.len() - i,
{
    if i < 0 || i >= vals.len() {
        pen
    } else {
        let (p, j) = sgr_step(pen, vals, i, defaults, palette);
        if j <= i {
            p
        } else {
            sgr_from(p, vals, j, defaults, palette)
        }
    }
}

/// The pen after a whole graphic rendition sequence; an empty one resets, as `0` does.
pub open spec fn sgr(pen: Pen, params: Seq<Seq<u16>>, defaults: Pen, palette: Seq<Rgb>) -> Pen {
    let vals = flat(params);
    if vals.len() == 0 {
        Pen { flags: 0, ..defaults }
    } else {
        sgr_from(pen, vals, 0, defaults, palette)
    }
}

/// All parameter values of `params`, sub-parameters included, in order.
pub fn flatten_params(params: &[Vec<u16>]) -> (vals: Vec<u16>)
    ensures
        vals@ == flat(params_view(params@)),
{
    let mut vals: Vec<u16> = Vec::new();
    let mut i: usize = 0;
    while i < params.len()
        invariant
            i <= params@.len(),
            vals@ == flat(params_view(params@.subrange(0, i as int))),
        decreases params@.len() - i,
    {
        let ghost before = vals@;
        let p = &params[i];
        let mut j: usize = 0;
        while j < p.len()
            invariant
                j <= p@.len(),
                vals@ == before + p@.subrange(0, j as int),
            decreases p@.len() - j,
        {
            vals.push(p[j]);
            j = j + 1;
            assert(vals@ =~= before + p@.subrange(0, j as int));
        }
        let ghost ps = params_view(params@.subrange(0, i + 1));
        assert(ps.drop_last() =~= params_view(params@.subrange(0, i as int)));
        assert(p@.subrange(0, j as int) =~= p@);
        i = i + 1;
    }
    assert(params@.subrange(0, params@.len() as int) =~= params@);
    vals
}

/// The channel value of step `x` of the colour cube.
fn cube_level_exec(x: u16) -> (v: u8)
    requires
        x <= 5,
    ensures
        v == cube_level(x as int),
{
    if x == 0 {
        0
    } else {
        (55 + 40 * x) as u8
    }
}

/// Entry `n` of the 256-colour table.
pub fn indexed_color_exec(n: u16, palette: &Vec<Rgb>) -> (c: Option<Rgb>)
    requires
        palette@.len() == 16,
    ensures
        c == indexed_color(n as int, palette@),
{
    if n > 255 {
        None
    } else if n < 16 {
        Some(palette[n as usize])
    } else if n < 232 {
        let k = n - 16;
        Some(
            Rgb {
                r: cube_level_exec(k / 36),
                g: cube_level_exec((k / 6) % 6),
                b: cube_level_exec(k % 6),
            },
        )
    } else {
        let v = (8 + 10 * (n - 232)) as u8;
        Some(Rgb { r: v, g: v, b: v })
    }
}

fn extended_color_exec(vals: &Vec<u16>, i: usize, palette: &Vec<Rgb>) -> (r: (Option<Rgb>, usize))
    requires
        i < vals@.len(),
        palette@.len() == 16,
    ensures
        (r.0, r.1 as int) == extended_color(vals@, i as int, palette@),
{
    let n = vals.len();
    if i + 1 >= n {
        (None, n)
    } else if vals[i + 1] == 5 {
        if i + 2 < n {
            (indexed_color_exec(vals[i + 2], palette), i + 3)
        } else {
            (None, n)
        }
    } else if vals[i + 1] == 2 {
        if n - i > 4 {
            if vals[i + 2] <= 255 && vals[i + 3] <= 255 && vals[i + 4] <= 255 {
                (Some(Rgb { r: vals[i + 2] as u8, g: vals[i + 3] as u8, b: vals[i + 4] as u8 }), i + 5)
            } else {
                (None, i + 5)
            }
        } else {
            (None, n)
        }
    } else {
        (None, i + 1)
    }
}

fn sgr_step_exec(pen: Pen, vals: &Vec<u16>, i: usize, defaults: Pen, palette: &Vec<Rgb>) -> (r: (
    Pen,
    usize,
))
    requires
        i < vals@.len(),
        palette@.len() == 16,
    ensures
        (r.0, r.1 as int) == sgr_step(pen, vals@, i as int, defaults, palette@),
        i < r.1 <= vals@.len(),
{
    let n = vals.len();
    let v = vals[i];
    let next = i + 1;
    if v == 0 {
        (Pen { flags: 0, ..defaults }, next)
    } else if v == 1 {
        (Pen { flags: pen.flags | BOLD_BIT, ..pen }, next)
    } else if v == 2 {
        (Pen { flags: pen.flags | DIM_BIT, ..pen }, next)
    } else if v == 3 {
        (Pen { flags: pen.flags | ITALIC_BIT, ..pen }, next)
    } else if v == 4 {
        (Pen { flags: pen.flags | UNDERLINE_BIT, ..pen }, next)
    } else if v == 5 {
        (Pen { flags: pen.flags | BLINK_BIT, ..pen }, next)
    } else if v == 7 {
        (Pen { flags: pen.flags | REVERSE_BIT, ..pen }, next)
    } else if v == 8 {
        (Pen { flags: pen.flags | HIDDEN_BIT, ..pen }, next)
    } else if v == 9 {
        (Pen { flags: pen.flags | STRIKETHROUGH_BIT, ..pen }, next)
    } else if v == 21 || v == 22 {
        (Pen { flags: pen.flags & !(BOLD_BIT | DIM_BIT), ..pen }, next)
    } else if v == 23 {
        (Pen { flags: pen.flags & !ITALIC_BIT, ..pen }, next)
    } else if v == 24 {
        (Pen { flags: pen.flags & !UNDERLINE_BIT, ..pen }, next)
    } else if v == 25 {
        (Pen { flags: pen.flags & !BLINK_BIT, ..pen }, next)
    } else if v == 27 {
        (Pen { flags: pen.flags & !REVERSE_BIT, ..pen }, next)
    } else if v == 28 {
        (Pen { flags: pen.flags & !HIDDEN_BIT, ..pen }, next)
    } else if v == 29 {
        (Pen { flags: pen.flags & !STRIKETHROUGH_BIT, ..pen }, next)
    } else if 30 <= v && v <= 37 {
        (Pen { fg: palette[(v - 30) as usize], ..pen }, next)
    } else if v == 39 {
        (Pen { fg: defaults.fg, ..pen }, next)
    } else if 40 <= v && v <= 47 {
        (Pen { bg: palette[(v - 40) as usize], ..pen }, next)
    } else if v == 49 {
        (Pen { bg: defaults.bg, ..pen }, next)
    } else if 90 <= v && v <= 97 {
        (Pen { fg: palette[(v - 90 + 8) as usize], ..pen }, next)
    } else if 100 <= v && v <= 107 {
        (Pen { bg: palette[(v - 100 + 8) as usize], ..pen }, next)
    } else if v == 38 {
        let (c, j) = extended_color_exec(vals, i, palette);
        (
            match c {
                Some(c) => Pen { fg: c, ..pen },
                None => pen,
            },
            j,
        )
    } else if v == 48 {
        let (c, j) = extended_color_exec(vals, i, palette);
        (
            match c {
                Some(c) => Pen { bg: c, ..pen },
                None => pen,
            },
            j,
        )
    } else {
        (pen, next)
    }
}

/// Applies a graphic rendition sequence to `pen`.
pub fn apply_sgr(pen: Pen, params: &[Vec<u16>], defaults: Pen, palette: &Vec<Rgb>) -> (r: Pen)
    requires
        palette@.len() == 16,
    ensures
        r == sgr(pen, params_view(params@), defaults, palette@),
{
    let vals = flatten_params(params);
    let n = vals.len();
    if n == 0 {
        return Pen { flags: 0, ..defaults };
    }
    let mut cur = pen;
    let mut i: usize = 0;
    while i < n
        invariant
            n == vals@.len(),
            i <= n,
            palette@.len() == 16,
            sgr_from(cur, vals@, i as int, defaults, palette@) == sgr_from(
                pen,
                vals@,
                0,
                defaults,
                palette@,
            ),
        decreases n - i,
    {
        let (p, j) = sgr_step_exec(cur, &vals, i, defaults, palette);
        cur = p;
        i = j;
    }
    cur
}

} // verus!
