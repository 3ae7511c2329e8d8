//! Plain-text PPM encoding of a canvas.
//!
//! The output is `P3\n<width> <height>\n255\n`, then one logical line per
//! pixel row with the channels space-separated, long rows wrapped at a
//! space so no emitted line runs past seventy characters, and a trailing
//! newline.

use crate::display::canvas::Canvas;
use crate::display::color::{spec_to255, Color};
use vstd::prelude::*;

verus! {

/// The decimal digits of `n`, most significant first.
pub open spec fn spec_dec(n: nat) -> Seq<u8>
    decreases n,
{
    if n < 10 {
        seq![(48 + n) as u8]
    } else {
        spec_dec(n / 10).push((48 + n % 10) as u8)
    }
}

/// One pixel as `R G B`.
pub open spec fn spec_triple(c: Color) -> Seq<u8> {
    spec_dec(spec_to255(c.red as int) as nat) + seq![32u8] + spec_dec(
        spec_to255(c.green as int) as nat,
    ) + seq![32u8] + spec_dec(spec_to255(c.blue as int) as nat)
}

/// The first `k` pixels of row `y`, space-separated.
pub open spec fn spec_row(c: Canvas, y: int, k: nat) -> Seq<u8>
    decreases k,
{
    if k == 0 {
        Seq::empty()
    } else if k == 1 {
        spec_triple(c.spec_pixel(0, y))
    } else {
        spec_row(c, y, (k - 1) as nat) + seq![32u8] + spec_triple(c.spec_pixel(k - 1, y))
    }
}

/// The position of the first space at or after `from`, or the length when
/// there is none.
pub open spec fn spec_find_space(s: Seq<u8>, from: int) -> int
    decreases s.len() - from,
{
    if from < 0 || from >= s.len() {
        s.len() as int
    } else if s[from] == 32 {
        from
    } else {
        spec_find_space(s, from + 1)
    }
}

/// The space scan lands at or after where it started, within the text.
pub proof fn lemma_find_space_range(s: Seq<u8>, from: int)
    requires
        0 <= from <= s.len(),
    ensures
        from <= spec_find_space(s, from) <= s.len(),
    decreases s.len() - from,
{
    if from < s.len() && s[from] != 32 {
        lemma_find_space_range(s, from + 1);
    }
}

/// A row wrapped to seventy characters: while it is long, the first space
/// at or after position sixty-five becomes a newline break, and the rest
/// (beginning with that space) is wrapped in turn.
pub open spec fn spec_limit_width(s: Seq<u8>) -> Seq<u8>
    decreases s.len(),
{
    if s.len() < 70 {
        s
    } else {
        let i = spec_find_space(s, 65);
        if i >= s.len() {
            s
        } else {
            proof {
                lemma_find_space_range(s, 65);
            }
            s.take(i) + seq![10u8] + spec_limit_width(s.skip(i))
        }
    }
}

/// The first `k` rows of the body, wrapped, joined by newlines.
pub open spec fn spec_body(c: Canvas, k: nat) -> Seq<u8>
    decreases k,
{
    if k == 0 {
        Seq::empty()
    } else if k == 1 {
        spec_limit_width(spec_row(c, 0, c.width as nat))
    } else {
        spec_body(c, (k - 1) as nat) + seq![10u8] + spec_limit_width(
            spec_row(c, k - 1, c.width as nat),
        )
    }
}

/// The header `P3\n<width> <height>\n255\n`.
pub open spec fn spec_header(c: Canvas) -> Seq<u8> {
    seq![80u8, 51u8, 10u8] + spec_dec(c.width as nat) + seq![32u8] + spec_dec(c.height as nat)
        + seq![10u8, 50u8, 53u8, 53u8, 10u8]
}

/// The whole PPM text: header, body, trailing newline.
pub open spec fn spec_ppm(c: Canvas) -> Seq<u8> {
    spec_header(c) + spec_body(c, c.height as nat) + seq![10u8]
}

/// Append the decimal digits of `n`.
fn push_dec(out: &mut Vec<u8>, n: u64)
    ensures
        final(out)@ == old(out)@ + spec_dec(n as nat),
    decreases n,
{
    if n < 10 {
        out.push((48 + n) as u8);
        proof {
            assert(out@ =~= old(out)@ + spec_dec(n as nat));
        }
    } else {
        push_dec(out, n / 10);
        out.push((48 + (n % 10)) as u8);
        proof {
            assert(out@ =~= old(out)@ + spec_dec(n as nat));
        }
    }
}

/// Append one pixel as `R G B`.
fn push_triple(out: &mut Vec<u8>, c: Color)
    requires
        c.wf(),
    ensures
        final(out)@ == old(out)@ + spec_triple(c),
{
    let (r, g, b) = c.to255();
    push_dec(out, r);
    out.push(32);
    push_dec(out, g);
    out.push(32);
    push_dec(out, b);
    proof {
        assert(out@ =~= old(out)@ + spec_triple(c));
    }
}

/// One row of the canvas, space-separated, unwrapped.
fn row_bytes(canvas: &Canvas, y: usize) -> (r: Vec<u8>)
    requires
        canvas.wf(),
        y < canvas.height,
    ensures
        r@ == spec_row(*canvas, y as int, canvas.width as nat),
{
    let mut out: Vec<u8> = Vec::new();
    let mut x: usize = 0;
    while x < canvas.width
        invariant
            x <= canvas.width,
            canvas.wf(),
            y < canvas.height,
            out@ == spec_row(*canvas, y as int, x as nat),
        decreases canvas.width - x,
    {
        let px = canvas.pixel_at(x, y);
        if x > 0 {
            out.push(32);
        }
        push_triple(&mut out, px);
        proof {
            assert(out@ =~= spec_row(*canvas, y as int, (x + 1) as nat));
        }
        x = x + 1;
    }
    out
}

/// Wrap a row at spaces so that no emitted line runs past seventy
/// characters.  A long tail with no space after position sixty-five is
/// left as it stands.
pub fn limit_width(row: Vec<u8>) -> (r: Vec<u8>)
    ensures
        r@ == spec_limit_width(row@),
    decreases row@.len(),
{
    if row.len() < 70 {
        return row;
    }
    let mut i: usize = 65;
    while i < row.len() && row[i] != 32
        invariant
            65 <= i <= row@.len(),
            forall|k: int| 65 <= k < i ==> row@[k] != 32,
        decreases row@.len() - i,
    {
        i = i + 1;
    }
    proof {
        lemma_find_space_at(row@, 65, i as int);
    }
    if i == row.len() {
        return row;
    }
    let mut head: Vec<u8> = Vec::new();
    let mut k: usize = 0;
    while k < i
        invariant
            k <= i,
            i < row@.len(),
            head@ == row@.take(k as int),
        decreases i - k,
    {
        proof {
            assert(row@.take(k as int + 1) =~= row@.take(k as int).push(row@[k as int]));
        }
        head.push(row[k]);
        k = k + 1;
    }
    let mut rest: Vec<u8> = Vec::new();
    let mut k2: usize = i;
    while k2 < row.len()
        invariant
            i <= k2 <= row@.len(),
            rest@ == row@.skip(i as int).take(k2 - i),
        decreases row@.len() - k2,
    {
        proof {
            assert(row@.skip(i as int).take(k2 - i + 1) =~= row@.skip(i as int).take(
                k2 - i,
            ).push(row@[k2 as int]));
        }
        rest.push(row[k2]);
        k2 = k2 + 1;
    }
    proof {
        assert(rest@ =~= row@.skip(i as int));
    }
    let wrapped = limit_width(rest);
    head.push(10);
    let mut j: usize = 0;
    let ghost head_pre = head@;
    while j < wrapped.len()
        invariant
            j <= wrapped@.len(),
            head@ == head_pre + wrapped@.take(j as int),
        decreases wrapped@.len() - j,
    {
        proof {
            assert(wrapped@.take(j as int + 1) =~= wrapped@.take(j as int).push(
                wrapped@[j as int],
            ));
        }
        head.push(wrapped[j]);
        j = j + 1;
    }
    proof {
        assert(wrapped@.take(wrapped@.len() as int) =~= wrapped@);
        assert(head@ =~= row@.take(i as int) + seq![10u8] + spec_limit_width(row@.skip(i as int)));
    }
    head
}

/// The scan for a space matches its specification.
proof fn lemma_find_space_at(s: Seq<u8>, from: int, i: int)
    requires
        0 <= from <= i <= s.len(),
        forall|k: int| from <= k < i ==> s[k] != 32,
        i < s.len() ==> s[i] == 32,
    ensures
        spec_find_space(s, from) == if i < s.len() {
            i
        } else {
            s.len() as int
        },
    decreases i - from,
{
    if from < i {
        lemma_find_space_at(s, from + 1, i);
    }
}

/// The trailing newline of the PPM text.
pub fn generate_footer() -> (r: Vec<u8>)
    ensures
        r@ =~= seq![10u8],
{
    let mut out: Vec<u8> = Vec::new();
    out.push(10);
    out
}

/// The header of the PPM text.
fn generate_header(canvas: &Canvas) -> (r: Vec<u8>)
    requires
        canvas.wf(),
    ensures
        r@ == spec_header(*canvas),
{
    let mut out: Vec<u8> = Vec::new();
    out.push(80);
    out.push(51);
    out.push(10);
    push_dec(&mut out, canvas.width as u64);
    out.push(32);
    push_dec(&mut out, canvas.height as u64);
    out.push(10);
    out.push(50);
    out.push(53);
    out.push(53);
    out.push(10);
    proof {
        assert(out@ =~= spec_header(*canvas));
    }
    out
}

/// The whole canvas as plain-text PPM bytes.
pub fn canvas_to_ppm(canvas: &Canvas) -> (r: Vec<u8>)
    requires
        canvas.wf(),
    ensures
        r@ == spec_ppm(*canvas),
{
    let mut out = generate_header(canvas);
    let mut y: usize = 0;
    let ghost header = out@;
    while y < canvas.height
        invariant
            y <= canvas.height,
            canvas.wf(),
            out@ == header + spec_body(*canvas, y as nat),
        decreases canvas.height - y,
    {
        if y > 0 {
            out.push(10);
        }
        let row = row_bytes(canvas, y);
        let wrapped = limit_width(row);
        let mut j: usize = 0;
        let ghost pre = out@;
        while j < wrapped.len()
            invariant
                j <= wrapped@.len(),
                out@ == pre + wrapped@.take(j as int),
            decreases wrapped@.len() - j,
        {
            proof {
                assert(wrapped@.take(j as int + 1) =~= wrapped@.take(j as int).push(
                    wrapped@[j as int],
                ));
            }
            out.push(wrapped[j]);
            j = j + 1;
        }
        proof {
            assert(wrapped@.take(wrapped@.len() as int) =~= wrapped@);
            assert(out@ =~= header + spec_body(*canvas, (y + 1) as nat));
        }
        y = y + 1;
    }
    out.push(10);
    proof {
        assert(out@ =~= spec_ppm(*canvas));
    }
    out
}

} // verus!
