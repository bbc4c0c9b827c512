//! The luminance buffer: a row-major grid of four-byte pixels whose first byte
//! is unused and whose other three hold colour channels. Each frame every byte
//! fades by one, then each body's splat is added with saturation. Splats whose
//! pixels fall outside the grid are clipped.
use vstd::prelude::*;
use vstd::arithmetic::div_mod::lemma_fundamental_div_mod_converse;

verus! {

/// How far a splat reaches from its centre pixel, in pixels.
pub const RENDER_RADIUS: usize = 5;

/// The colour one body adds to a rectangle of pixels. Row `r`, column `c` of
/// `colors` is added to the pixel at column `left + c`, row `top + r`; the three
/// entries go to channels 1, 2 and 3.
pub struct Splat {
    pub left: usize,
    pub top: usize,
    pub colors: Vec<Vec<(u8, u8, u8)>>,
}

/// The sum of two bytes, capped at 255.
pub open spec fn sat_add(a: int, b: int) -> int {
    if a + b > 255 {
        255
    } else {
        a + b
    }
}

/// A byte less one, floored at 0.
pub open spec fn faded(a: int) -> int {
    if a > 0 {
        a - 1
    } else {
        0
    }
}

/// Channel `ch` of a colour; channel 0 is the unused byte.
pub open spec fn channel(c: (u8, u8, u8), ch: int) -> int {
    if ch == 1 {
        c.0 as int
    } else if ch == 2 {
        c.1 as int
    } else if ch == 3 {
        c.2 as int
    } else {
        0
    }
}

/// What a splat adds at pixel column `x`, row `y`, if anything.
pub open spec fn splat_at(s: Splat, x: int, y: int) -> Option<(u8, u8, u8)> {
    let r = y - s.top;
    let c = x - s.left;
    if 0 <= r < s.colors@.len() && 0 <= c < s.colors@[r]@.len() {
        Some(s.colors@[r]@[c])
    } else {
        None
    }
}

/// What a splat adds to byte `j` of a buffer `width` pixels wide.
pub open spec fn splat_byte(s: Splat, width: int, j: int) -> int {
    let p = j / 4;
    match splat_at(s, p % width, p / width) {
        Some(c) => channel(c, j % 4),
        None => 0,
    }
}

/// Like `splat_byte`, counting only the splat's pixels that come before row
/// `r`, column `c` in row-major order.
pub open spec fn splat_byte_before(s: Splat, width: int, j: int, r: int, c: int) -> int {
    let p = j / 4;
    let rr = p / width - s.top;
    let cc = p % width - s.left;
    if rr < r || (rr == r && cc < c) {
        splat_byte(s, width, j)
    } else {
        0
    }
}

/// What a sequence of splats adds, together, to byte `j`.
pub open spec fn splats_byte(ss: Seq<Splat>, width: int, j: int) -> int
    decreases ss.len(),
{
    if ss.len() == 0 {
        0
    } else {
        splats_byte(ss.drop_last(), width, j) + splat_byte(ss.last(), width, j)
    }
}

/// The buffer after one frame: each byte fades by one, then receives what the
/// splats add, capped at 255.
pub open spec fn frame(buf: Seq<u8>, width: int, ss: Seq<Splat>) -> Seq<u8> {
    Seq::new(buf.len(), |j: int| sat_add(faded(buf[j] as int), splats_byte(ss, width, j)) as u8)
}

/// Byte `ch` of the pixel at column `x`, row `y`.
pub open spec fn byte_index(width: int, x: int, y: int, ch: int) -> int {
    (y * width + x) * 4 + ch
}

proof fn lemma_splat_byte_nonneg(s: Splat, width: int, j: int)
    ensures
        0 <= splat_byte(s, width, j) <= 255,
{
}

proof fn lemma_splats_byte_nonneg(ss: Seq<Splat>, width: int, j: int)
    ensures
        0 <= splats_byte(ss, width, j),
    decreases ss.len(),
{
    if ss.len() > 0 {
        lemma_splats_byte_nonneg(ss.drop_last(), width, j);
        lemma_splat_byte_nonneg(ss.last(), width, j);
    }
}

/// Locates byte `ch` of the pixel at column `x`, row `y`.
proof fn lemma_byte_index(width: int, height: int, x: int, y: int, ch: int)
    requires
        0 <= x < width,
        0 <= y < height,
        0 <= ch < 4,
    ensures
        0 <= byte_index(width, x, y, ch) < width * height * 4,
        byte_index(width, x, y, ch) / 4 == y * width + x,
        byte_index(width, x, y, ch) % 4 == ch,
        (y * width + x) / width == y,
        (y * width + x) % width == x,
{
    assert(0 <= y * width + x < width * height) by (nonlinear_arith)
        requires
            0 <= x < width,
            0 <= y < height,
    ;
    lemma_fundamental_div_mod_converse(byte_index(width, x, y, ch), 4, y * width + x, ch);
    lemma_fundamental_div_mod_converse(y * width + x, width, y, x);
}

/// Every byte of a buffer of `height` rows lies in one of its rows.
proof fn lemma_row_in_range(width: int, height: int, j: int)
    requires
        0 < width,
        0 <= j < width * height * 4,
    ensures
        0 <= (j / 4) / width < height,
        0 <= (j / 4) % width < width,
        (j / 4) == ((j / 4) / width) * width + (j / 4) % width,
{
    let p = j / 4;
    vstd::arithmetic::div_mod::lemma_fundamental_div_mod(j, 4);
    assert(0 <= p < width * height);
    vstd::arithmetic::div_mod::lemma_fundamental_div_mod(p, width);
    let y = p / width;
    let x = p % width;
    assert(0 <= y);
    if y >= height {
        assert(y * width >= width * height) by (nonlinear_arith)
            requires
                y >= height,
                width > 0,
        ;
        assert(false);
    }
}

/// Fades every byte of `pixels` by one, stopping at zero.
pub fn decay(pixels: &mut Vec<u8>)
    ensures
        final(pixels)@.len() == old(pixels)@.len(),
        forall|j: int|
            0 <= j < old(pixels)@.len() ==> #[trigger] final(pixels)@[j] as int == faded(
                old(pixels)@[j] as int,
            ),
{
    let n = pixels.len();
    let mut i: usize = 0;
    while i < n
        invariant
            pixels@.len() == n,
            n == old(pixels)@.len(),
            i <= n,
            forall|j: int| 0 <= j < i ==> #[trigger] pixels@[j] as int == faded(old(pixels)@[j] as int),
            forall|j: int| i <= j < n ==> #[trigger] pixels@[j] == old(pixels)@[j],
        decreases n - i,
    {
        let v = pixels[i].saturating_sub(1);
        pixels.set(i, v);
        i = i + 1;
    }
}

/// Adds one splat to `pixels`, a buffer `width` pixels wide and `height` rows
/// high, capping each byte at 255. Pixels of the splat outside the buffer are
/// skipped.
pub fn blend(pixels: &mut Vec<u8>, width: usize, height: usize, s: &Splat)
    requires
        old(pixels)@.len() == width * height * 4,
    ensures
        final(pixels)@.len() == old(pixels)@.len(),
        forall|j: int|
            0 <= j < old(pixels)@.len() ==> #[trigger] final(pixels)@[j] as int == sat_add(
                old(pixels)@[j] as int,
                splat_byte(*s, width as int, j),
            ),
{
    let ghost start = pixels@;
    let ghost w = width as int;
    let ghost h = height as int;
    let mut r: usize = 0;
    while r < s.colors.len()
        invariant
            pixels@.len() == start.len(),
            start.len() == w * h * 4,
            w == width,
            h == height,
            r <= s.colors@.len(),
            forall|j: int|
                0 <= j < start.len() ==> #[trigger] pixels@[j] as int == sat_add(
                    start[j] as int,
                    splat_byte_before(*s, w, j, r as int, 0),
                ),
        decreases s.colors@.len() - r,
    {
        let row = &s.colors[r];
        let mut c: usize = 0;
        while c < row.len()
            invariant
                pixels@.len() == start.len(),
                start.len() == w * h * 4,
                w == width,
                h == height,
                r < s.colors@.len(),
                *row == s.colors@[r as int],
                c <= row@.len(),
                forall|j: int|
                    0 <= j < start.len() ==> #[trigger] pixels@[j] as int == sat_add(
                        start[j] as int,
                        splat_byte_before(*s, w, j, r as int, c as int),
                    ),
            decreases row@.len() - c,
        {
            let ghost prev = pixels@;
            let inside = c < width && s.left < width - c && r < height && s.top < height - r;
            if inside {
                let x = s.left + c;
                let y = s.top + r;
                let n = pixels.len();
                proof {
                    lemma_byte_index(w, h, x as int, y as int, 3);
                    assert(y * width + x < width * height) by (nonlinear_arith)
                        requires
                            x < width,
                            y < height,
                    ;
                    assert(0 <= y * width) by (nonlinear_arith);
                }
                let base = (y * width + x) * 4;
                let color = row[c];
                let b1 = pixels[base + 1].saturating_add(color.0);
                pixels.set(base + 1, b1);
                let b2 = pixels[base + 2].saturating_add(color.1);
                pixels.set(base + 2, b2);
                let b3 = pixels[base + 3].saturating_add(color.2);
                pixels.set(base + 3, b3);
                proof {
                    assert forall|j: int| 0 <= j < start.len() implies #[trigger] pixels@[j] as int
                        == sat_add(
                        start[j] as int,
                        splat_byte_before(*s, w, j, r as int, c + 1),
                    ) by {
                        lemma_row_in_range(w, h, j);
                        vstd::arithmetic::div_mod::lemma_fundamental_div_mod(j, 4);
                        assert(0 <= j % 4 < 4);
                        if j / 4 == y * width + x {
                            lemma_byte_index(w, h, x as int, y as int, j % 4);
                            assert(j == base + j % 4);
                            assert(splat_byte_before(*s, w, j, r as int, c as int) == 0);
                        } else {
                            assert((j / 4) / w != y || (j / 4) % w != x);
                        }
                    }
                }
            } else {
                proof {
                    assert forall|j: int| 0 <= j < start.len() implies #[trigger] pixels@[j] as int
                        == sat_add(
                        start[j] as int,
                        splat_byte_before(*s, w, j, r as int, c + 1),
                    ) by {
                        lemma_row_in_range(w, h, j);
                    }
                }
            }
            c = c + 1;
        }
        r = r + 1;
    }
}

proof fn lemma_sat_add_assoc(a: int, b: int, c: int)
    requires
        0 <= a <= 255,
        0 <= b,
        0 <= c,
    ensures
        sat_add(sat_add(a, b), c) == sat_add(a, b + c),
{
}

/// Renders one frame into `pixels`, a buffer `width` pixels wide and `height`
/// rows high: every byte fades by one, then every splat is added, each byte
/// capped at 255. The order of the splats does not matter.
pub fn draw_frame(pixels: &mut Vec<u8>, width: usize, height: usize, splats: &Vec<Splat>)
    requires
        old(pixels)@.len() == width * height * 4,
    ensures
        final(pixels)@ == frame(old(pixels)@, width as int, splats@),
{
    let ghost start = pixels@;
    let ghost w = width as int;
    decay(pixels);
    let mut k: usize = 0;
    while k < splats.len()
        invariant
            pixels@.len() == start.len(),
            start.len() == width * height * 4,
            w == width,
            k <= splats@.len(),
            forall|j: int|
                0 <= j < start.len() ==> #[trigger] pixels@[j] as int == sat_add(
                    faded(start[j] as int),
                    splats_byte(splats@.take(k as int), w, j),
                ),
        decreases splats@.len() - k,
    {
        let ghost prev = pixels@;
        blend(pixels, width, height, &splats[k]);
        proof {
            assert forall|j: int| 0 <= j < start.len() implies #[trigger] pixels@[j] as int
                == sat_add(faded(start[j] as int), splats_byte(splats@.take(k + 1), w, j)) by {
                let ss = splats@.take(k + 1);
                assert(ss.drop_last() == splats@.take(k as int));
                assert(ss.last() == splats@[k as int]);
                lemma_splats_byte_nonneg(splats@.take(k as int), w, j);
                lemma_splat_byte_nonneg(splats@[k as int], w, j);
                lemma_sat_add_assoc(
                    faded(start[j] as int),
                    splats_byte(splats@.take(k as int), w, j),
                    splat_byte(splats@[k as int], w, j),
                );
            }
        }
        k = k + 1;
    }
    proof {
        assert(splats@.take(splats@.len() as int) == splats@);
        assert(pixels@ =~= frame(start, w, splats@));
    }
}

/// The pixels a splat centred at pixel `center` covers along an axis of `size`
/// pixels: from `center - RENDER_RADIUS` (at least 0) up to, not including,
/// `center + RENDER_RADIUS`, but never the axis's last pixel or beyond.
pub fn splat_span(center: usize, size: usize) -> (r: (usize, usize))
    ensures
        r.0 == (if center >= RENDER_RADIUS { center - RENDER_RADIUS } else { 0 }),
        r.1 == (if center + RENDER_RADIUS < size - 1 { center + RENDER_RADIUS } else if size
            >= 1 { size - 1 } else { 0 }),
{
    let lo = center.saturating_sub(RENDER_RADIUS);
    let last = size.saturating_sub(1);
    let hi = if center < last && last - center > RENDER_RADIUS {
        center + RENDER_RADIUS
    } else {
        last
    };
    (lo, hi)
}

/// The buffer after `n` frames in which nothing is drawn.
pub open spec fn frames_without_splats(buf: Seq<u8>, width: int, n: nat) -> Seq<u8>
    decreases n,
{
    if n == 0 {
        buf
    } else {
        frame(frames_without_splats(buf, width, (n - 1) as nat), width, Seq::empty())
    }
}

/// On a buffer that starts dark, one frame leaves each byte at exactly what
/// the splats add to it, capped at 255: a byte that some splat adds to turns
/// strictly positive, and every other byte stays dark.
pub proof fn lemma_frame_lights_dark_buffer(buf: Seq<u8>, width: int, ss: Seq<Splat>)
    requires
        forall|j: int| 0 <= j < buf.len() ==> #[trigger] buf[j] == 0,
    ensures
        forall|j: int|
            0 <= j < buf.len() ==> #[trigger] frame(buf, width, ss)[j] as int == sat_add(
                0,
                splats_byte(ss, width, j),
            ),
        forall|j: int|
            0 <= j < buf.len() ==> (#[trigger] frame(buf, width, ss)[j] > 0 <==> splats_byte(
                ss,
                width,
                j,
            ) > 0),
{
    assert forall|j: int| 0 <= j < buf.len() implies #[trigger] frame(buf, width, ss)[j] as int
        == sat_add(0, splats_byte(ss, width, j)) by {
        lemma_splats_byte_nonneg(ss, width, j);
    }
}

/// Once nothing is drawn, every byte falls by one each frame until it reaches
/// zero and stays there: after `n` such frames a byte that held `b` holds
/// `max(b - n, 0)`, each frame leaves no byte higher than it was, and after 255
/// frames the whole buffer is dark.
pub proof fn lemma_fades_to_dark(buf: Seq<u8>, width: int, n: nat)
    ensures
        frames_without_splats(buf, width, n).len() == buf.len(),
        forall|j: int|
            0 <= j < buf.len() ==> #[trigger] frames_without_splats(buf, width, n)[j] as int == (
            if buf[j] as int > n {
                buf[j] as int - n
            } else {
                0
            }),
        forall|j: int|
            0 <= j < buf.len() ==> #[trigger] frames_without_splats(buf, width, n + 1)[j]
                <= frames_without_splats(buf, width, n)[j],
        n >= 255 ==> forall|j: int|
            0 <= j < buf.len() ==> #[trigger] frames_without_splats(buf, width, n)[j] == 0,
    decreases n,
{
    if n > 0 {
        lemma_fades_to_dark(buf, width, (n - 1) as nat);
    }
    let cur = frames_without_splats(buf, width, n);
    assert forall|j: int| 0 <= j < buf.len() implies #[trigger] frames_without_splats(
        buf,
        width,
        n + 1,
    )[j] <= cur[j] by {
        assert(splats_byte(Seq::empty(), width, j) == 0);
    }
    if n > 0 {
        let before = frames_without_splats(buf, width, (n - 1) as nat);
        assert forall|j: int| 0 <= j < buf.len() implies #[trigger] cur[j] as int == (if buf[j]
            as int > n {
            buf[j] as int - n
        } else {
            0
        }) by {
            assert(splats_byte(Seq::<Splat>::empty(), width, j) == 0);
            assert(cur[j] as int == faded(before[j] as int));
        }
    }
}

} // verus!
