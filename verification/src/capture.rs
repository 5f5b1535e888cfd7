//! What the X11 capture decides on its own: the display name it accepts, the
//! size it captures, and the cursor image it blends into each BGRA frame.
use vstd::prelude::*;

use crate::text;
use crate::text::{chars_of, trim};

verus! {

/// The X11 display to capture.
#[derive(Debug)]
pub struct X11CaptureConfig {
    pub display: String,
}

/// Whether a display name can be opened: not blank and without a NUL character.
pub open spec fn display_name_error(display: Seq<char>) -> Option<Seq<char>> {
    if text::spec_trim(display).len() == 0 {
        Some("X11 display cannot be empty"@)
    } else if display.contains('\0') {
        Some("X11 display contains an interior null byte"@)
    } else {
        None
    }
}

/// Checks a display name before it is opened.
pub fn validate_display_name(display: &str) -> (r: Result<(), String>)
    ensures
        match display_name_error(display@) {
            None => r is Ok,
            Some(m) => r matches Err(e) && e@ == m,
        },
{
    let cs = chars_of(display);
    if trim(&cs).len() == 0 {
        return Err(String::from_str("X11 display cannot be empty"));
    }
    let mut i: usize = 0;
    while i < cs.len()
        invariant
            cs@ == display@,
            text::spec_trim(display@).len() != 0,
            i <= cs@.len(),
            forall|k: int| 0 <= k < i ==> cs@[k] != '\0',
        decreases cs@.len() - i,
    {
        if cs[i] == '\0' {
            assert(display@[i as int] == '\0');
            return Err(String::from_str("X11 display contains an interior null byte"));
        }
        i = i + 1;
    }
    Ok(())
}

/// The capture size: the screen, at most 1920 by 1080.
pub fn capture_size(screen_width: u32, screen_height: u32) -> (r: (u32, u32))
    ensures
        r.0 == if screen_width < 1920 {
            screen_width
        } else {
            1920
        },
        r.1 == if screen_height < 1080 {
            screen_height
        } else {
            1080
        },
{
    let w = if screen_width < 1920 {
        screen_width
    } else {
        1920
    };
    let h = if screen_height < 1080 {
        screen_height
    } else {
        1080
    };
    (w, h)
}

// ---------------------------------------------------------------------------
// The cursor
// ---------------------------------------------------------------------------
/// The cursor as XFixes gives it: its position, size and hot spot, and one
/// ARGB pixel per position in the low 32 bits of each entry, row by row.
#[derive(Debug, Clone)]
pub struct CursorImage {
    pub x: i16,
    pub y: i16,
    pub width: u16,
    pub height: u16,
    pub xhot: u16,
    pub yhot: u16,
    pub pixels: Vec<u64>,
}

pub struct CursorView {
    pub x: int,
    pub y: int,
    pub width: int,
    pub height: int,
    pub xhot: int,
    pub yhot: int,
    pub pixels: Seq<u64>,
}

impl View for CursorImage {
    type V = CursorView;

    open spec fn view(&self) -> CursorView {
        CursorView {
            x: self.x as int,
            y: self.y as int,
            width: self.width as int,
            height: self.height as int,
            xhot: self.xhot as int,
            yhot: self.yhot as int,
            pixels: self.pixels@,
        }
    }
}

/// The byte offset of channel `j` of pixel `(dx, dy)` in a BGRA frame `fw` pixels wide.
pub open spec fn pix_index(fw: int, dx: int, dy: int, j: int) -> int {
    (dy * fw + dx) * 4 + j
}

/// The ARGB value of the cursor over frame pixel `(dx, dy)`, if the cursor covers it.
pub open spec fn cursor_argb(c: CursorView, dx: int, dy: int) -> Option<u32> {
    let cx = dx - (c.x - c.xhot);
    let cy = dy - (c.y - c.yhot);
    if 0 <= cx < c.width && 0 <= cy < c.height {
        Some((c.pixels[cy * c.width + cx] % 0x1_0000_0000) as u32)
    } else {
        None
    }
}

/// A channel of `src` over `dst` with opacity `a` out of 255.
pub open spec fn blend(src: int, dst: int, a: int) -> int {
    (src * a + dst * (255 - a)) / 255
}

/// Channel `j` (blue, green, red, alpha) of frame pixel `(dx, dy)` with the
/// cursor blended in: unchanged where the cursor does not cover it, is fully
/// transparent there, or the pixel lies past the end of the buffer.
pub open spec fn composited_byte(buf: Seq<u8>, fw: int, c: CursorView, dx: int, dy: int, j: int) -> u8 {
    let i = pix_index(fw, dx, dy, 0);
    match cursor_argb(c, dx, dy) {
        Some(argb) => {
            let a = argb / 0x100_0000;
            if a == 0 || i + 3 >= buf.len() {
                buf[i + j]
            } else if j == 0 {
                blend((argb % 0x100) as int, buf[i] as int, a as int) as u8
            } else if j == 1 {
                blend(((argb / 0x100) % 0x100) as int, buf[i + 1] as int, a as int) as u8
            } else if j == 2 {
                blend(((argb / 0x1_0000) % 0x100) as int, buf[i + 2] as int, a as int) as u8
            } else {
                0xff
            }
        },
        None => buf[i + j],
    }
}

proof fn lemma_pix_index_unique(fw: int, dx1: int, dy1: int, j1: int, dx2: int, dy2: int, j2: int)
    requires
        0 <= dx1 < fw,
        0 <= dx2 < fw,
        0 <= j1 < 4,
        0 <= j2 < 4,
        pix_index(fw, dx1, dy1, j1) == pix_index(fw, dx2, dy2, j2),
    ensures
        dx1 == dx2,
        dy1 == dy2,
        j1 == j2,
{
    let x = pix_index(fw, dx1, dy1, j1);
    vstd::arithmetic::div_mod::lemma_fundamental_div_mod_converse(x, 4, dy1 * fw + dx1, j1);
    vstd::arithmetic::div_mod::lemma_fundamental_div_mod_converse(x, 4, dy2 * fw + dx2, j2);
    let q = dy1 * fw + dx1;
    vstd::arithmetic::div_mod::lemma_fundamental_div_mod_converse(q, fw, dy1, dx1);
    vstd::arithmetic::div_mod::lemma_fundamental_div_mod_converse(q, fw, dy2, dx2);
}

proof fn lemma_pix_index_bound(fw: int, fh: int, dx: int, dy: int, j: int)
    requires
        0 <= dx < fw,
        0 <= dy < fh,
        0 <= j < 4,
    ensures
        0 <= pix_index(fw, dx, dy, j) < fw * fh * 4,
        pix_index(fw, dx, dy, j) == pix_index(fw, dx, dy, 0) + j,
{
    assert(0 <= dy * fw + dx < fw * fh) by (nonlinear_arith)
        requires
            0 <= dx < fw,
            0 <= dy < fh,
    ;
}

/// Whether the cursor pixel over frame pixel `(dx, dy)` comes before cursor
/// position `(cx, cy)`, row by row.
pub open spec fn done_before(c: CursorView, dx: int, dy: int, cx: int, cy: int) -> bool {
    let px = dx - (c.x - c.xhot);
    let py = dy - (c.y - c.yhot);
    0 <= px < c.width && 0 <= py && (py < cy || (py == cy && px < cx))
}

fn blend_channel(src: u32, dst: u8, a: u32) -> (r: u8)
    requires
        src < 256,
        1 <= a < 256,
    ensures
        r == blend(src as int, dst as int, a as int),
{
    let s = src as u16;
    let al = a as u16;
    let d = dst as u16;
    assert(s * al <= 255 * 255) by (nonlinear_arith)
        requires
            s < 256,
            al < 256,
    ;
    assert(d * (255 - al) <= 255 * (255 - al)) by (nonlinear_arith)
        requires
            d < 256,
            al < 256,
    ;
    assert(s * al + d * (255 - al) <= 255 * 255) by (nonlinear_arith)
        requires
            s < 256,
            d < 256,
            1 <= al < 256,
    ;
    ((s * al + d * (255 - al)) / 255) as u8
}

/// Blends the cursor into a BGRA frame `frame_width` by `frame_height` pixels
/// whose rows follow one another without padding; pixels the cursor leaves
/// alone, and bytes past the frame, keep their value.
pub fn composite_cursor(buffer: &mut Vec<u8>, frame_width: u32, frame_height: u32, cursor: &CursorImage)
    requires
        frame_width * frame_height <= 0x4000_0000,
        cursor.pixels@.len() == cursor.width * cursor.height,
    ensures
        final(buffer)@.len() == old(buffer)@.len(),
        forall|dx: int, dy: int, j: int|
            0 <= dx < frame_width && 0 <= dy < frame_height && 0 <= j < 4 && #[trigger] pix_index(
                frame_width as int,
                dx,
                dy,
                j,
            ) < old(buffer)@.len() ==> final(buffer)@[pix_index(frame_width as int, dx, dy, j)]
                == composited_byte(old(buffer)@, frame_width as int, cursor@, dx, dy, j),
        forall|k: int|
            frame_width * frame_height * 4 <= k < old(buffer)@.len() ==> #[trigger] final(buffer)@[k]
                == old(buffer)@[k],
{
    let ghost orig = buffer@;
    let ghost c = cursor@;
    let ghost fw = frame_width as int;
    let ghost fh = frame_height as int;
    if buffer.len() == 0 || frame_width == 0 || frame_height == 0 {
        return;
    }
    let cursor_width = cursor.width as i32;
    let cursor_height = cursor.height as i32;
    if cursor_width <= 0 || cursor_height <= 0 {
        assert forall|dx: int, dy: int, j: int|
            0 <= dx < fw && 0 <= dy < fh && 0 <= j < 4 && #[trigger] pix_index(fw, dx, dy, j)
                < orig.len() implies buffer@[pix_index(fw, dx, dy, j)] == composited_byte(
            orig,
            fw,
            c,
            dx,
            dy,
            j,
        ) by {
            lemma_pix_index_bound(fw, fh, dx, dy, j);
        }
        return;
    }
    let origin_x = cursor.x as i32 - cursor.xhot as i32;
    let origin_y = cursor.y as i32 - cursor.yhot as i32;
    assert(fw <= 0x4000_0000 && fh <= 0x4000_0000) by (nonlinear_arith)
        requires
            fw * fh <= 0x4000_0000,
            fw > 0,
            fh > 0,
    ;
    let plen = cursor.pixels.len();
    let frame_width_i32 = frame_width as i32;
    let frame_height_i32 = frame_height as i32;
    let len = buffer.len();
    let mut cy: i32 = 0;
    while cy < cursor_height
        invariant
            orig == old(buffer)@,
            c == cursor@,
            fw == frame_width,
            fh == frame_height,
            fw > 0,
            fh > 0,
            frame_width * frame_height <= 0x4000_0000,
            cursor.pixels@.len() == cursor.width * cursor.height,
            plen == cursor.pixels@.len(),
            cursor_width == c.width,
            cursor_height == c.height,
            origin_x == c.x - c.xhot,
            origin_y == c.y - c.yhot,
            frame_width_i32 == fw,
            frame_height_i32 == fh,
            len == orig.len(),
            buffer@.len() == len,
            0 <= cy <= cursor_height,
            forall|dx: int, dy: int, j: int|
                0 <= dx < fw && 0 <= dy < fh && 0 <= j < 4 && #[trigger] pix_index(fw, dx, dy, j)
                    < len ==> buffer@[pix_index(fw, dx, dy, j)] == if done_before(
                    c,
                    dx,
                    dy,
                    0,
                    cy as int,
                ) {
                    composited_byte(orig, fw, c, dx, dy, j)
                } else {
                    orig[pix_index(fw, dx, dy, j)]
                },
            forall|k: int| fw * fh * 4 <= k < len ==> #[trigger] buffer@[k] == orig[k],
        decreases cursor_height - cy,
    {
        let dest_y = origin_y + cy;
        if dest_y >= 0 && dest_y < frame_height_i32 {
            let mut cx: i32 = 0;
            while cx < cursor_width
                invariant
                    orig == old(buffer)@,
                    c == cursor@,
                    fw == frame_width,
                    fh == frame_height,
                    fw > 0,
                    fh > 0,
                    frame_width * frame_height <= 0x4000_0000,
                    cursor.pixels@.len() == cursor.width * cursor.height,
                    plen == cursor.pixels@.len(),
                    cursor_width == c.width,
                    cursor_height == c.height,
                    origin_x == c.x - c.xhot,
                    origin_y == c.y - c.yhot,
                    frame_width_i32 == fw,
                    frame_height_i32 == fh,
                    len == orig.len(),
                    buffer@.len() == len,
                    0 <= cy < cursor_height,
                    dest_y == origin_y + cy,
                    0 <= dest_y < fh,
                    0 <= cx <= cursor_width,
                    forall|dx: int, dy: int, j: int|
                        0 <= dx < fw && 0 <= dy < fh && 0 <= j < 4 && #[trigger] pix_index(
                            fw,
                            dx,
                            dy,
                            j,
                        ) < len ==> buffer@[pix_index(fw, dx, dy, j)] == if done_before(
                            c,
                            dx,
                            dy,
                            cx as int,
                            cy as int,
                        ) {
                            composited_byte(orig, fw, c, dx, dy, j)
                        } else {
                            orig[pix_index(fw, dx, dy, j)]
                        },
                    forall|k: int| fw * fh * 4 <= k < len ==> #[trigger] buffer@[k] == orig[k],
                decreases cursor_width - cx,
            {
                let dest_x = origin_x + cx;
                if dest_x >= 0 && dest_x < frame_width_i32 {
                    let ghost dx0 = dest_x as int;
                    let ghost dy0 = dest_y as int;
                    assert(0 <= (cy as int) * (cursor_width as int) + (cx as int) < c.width
                        * c.height) by (nonlinear_arith)
                        requires
                            0 <= cy < c.height,
                            0 <= cx < c.width,
                            cursor_width == c.width,
                    ;
                    let cursor_index = (cy as usize * cursor_width as usize) + cx as usize;
                    let pixel = cursor.pixels[cursor_index];
                    let argb = (pixel % 0x1_0000_0000) as u32;
                    let alpha = argb / 0x100_0000;
                    proof {
                        lemma_pix_index_bound(fw, fh, dx0, dy0, 0);
                        lemma_pix_index_bound(fw, fh, dx0, dy0, 3);
                        assert(dy0 * fw + dx0 < fw * fh);
                        assert(cursor_argb(c, dx0, dy0) == Some(argb));
                    }
                    let dest_index = ((dest_y as u32 * frame_width + dest_x as u32) * 4) as usize;
                    assert(dest_index == pix_index(fw, dx0, dy0, 0));
                    if alpha != 0 && dest_index + 3 < len {
                        let dst_b = buffer[dest_index];
                        let dst_g = buffer[dest_index + 1];
                        let dst_r = buffer[dest_index + 2];
                        let ghost before = buffer@;
                        buffer.set(dest_index, blend_channel(argb % 0x100, dst_b, alpha));
                        buffer.set(dest_index + 1, blend_channel((argb / 0x100) % 0x100, dst_g, alpha));
                        buffer.set(
                            dest_index + 2,
                            blend_channel((argb / 0x1_0000) % 0x100, dst_r, alpha),
                        );
                        buffer.set(dest_index + 3, 0xff);
                        proof {
                            assert forall|dx: int, dy: int, j: int|
                                0 <= dx < fw && 0 <= dy < fh && 0 <= j < 4 && #[trigger] pix_index(
                                    fw,
                                    dx,
                                    dy,
                                    j,
                                ) < len implies buffer@[pix_index(fw, dx, dy, j)] == if done_before(
                                c,
                                dx,
                                dy,
                                cx + 1,
                                cy as int,
                            ) {
                                composited_byte(orig, fw, c, dx, dy, j)
                            } else {
                                orig[pix_index(fw, dx, dy, j)]
                            } by {
                                lemma_pix_index_bound(fw, fh, dx, dy, j);
                                if dx == dx0 && dy == dy0 {
                                    assert(before[pix_index(fw, dx, dy, 0)] == orig[pix_index(fw, dx, dy, 0)]);
                                    assert(before[pix_index(fw, dx, dy, 1)] == orig[pix_index(fw, dx, dy, 1)]);
                                    assert(before[pix_index(fw, dx, dy, 2)] == orig[pix_index(fw, dx, dy, 2)]);
                                } else {
                                    let p = pix_index(fw, dx, dy, j);
                                    if p == dest_index || p == dest_index + 1 || p == dest_index + 2
                                        || p == dest_index + 3 {
                                        let jj = p - dest_index;
                                        lemma_pix_index_unique(fw, dx, dy, j, dx0, dy0, jj);
                                    }
                                    assert(buffer@[p] == before[p]);
                                }
                            }
                            assert forall|k: int| fw * fh * 4 <= k < len implies #[trigger] buffer@[k]
                                == orig[k] by {
                                assert(buffer@[k] == before[k]);
                            }
                        }
                    } else {
                        proof {
                            assert forall|dx: int, dy: int, j: int|
                                0 <= dx < fw && 0 <= dy < fh && 0 <= j < 4 && #[trigger] pix_index(
                                    fw,
                                    dx,
                                    dy,
                                    j,
                                ) < len implies buffer@[pix_index(fw, dx, dy, j)] == if done_before(
                                c,
                                dx,
                                dy,
                                cx + 1,
                                cy as int,
                            ) {
                                composited_byte(orig, fw, c, dx, dy, j)
                            } else {
                                orig[pix_index(fw, dx, dy, j)]
                            } by {
                                lemma_pix_index_bound(fw, fh, dx, dy, j);
                            }
                        }
                    }
                } else {
                    proof {
                        assert forall|dx: int, dy: int, j: int|
                            0 <= dx < fw && 0 <= dy < fh && 0 <= j < 4 && #[trigger] pix_index(
                                fw,
                                dx,
                                dy,
                                j,
                            ) < len implies buffer@[pix_index(fw, dx, dy, j)] == if done_before(
                            c,
                            dx,
                            dy,
                            cx + 1,
                            cy as int,
                        ) {
                            composited_byte(orig, fw, c, dx, dy, j)
                        } else {
                            orig[pix_index(fw, dx, dy, j)]
                        } by {
                            lemma_pix_index_bound(fw, fh, dx, dy, j);
                        }
                    }
                }
                cx = cx + 1;
            }
        }
        proof {
            assert forall|dx: int, dy: int, j: int|
                0 <= dx < fw && 0 <= dy < fh && 0 <= j < 4 && #[trigger] pix_index(fw, dx, dy, j)
                    < len implies buffer@[pix_index(fw, dx, dy, j)] == if done_before(
                c,
                dx,
                dy,
                0,
                cy + 1,
            ) {
                composited_byte(orig, fw, c, dx, dy, j)
            } else {
                orig[pix_index(fw, dx, dy, j)]
            } by {
                lemma_pix_index_bound(fw, fh, dx, dy, j);
            }
        }
        cy = cy + 1;
    }
    assert forall|dx: int, dy: int, j: int|
        0 <= dx < fw && 0 <= dy < fh && 0 <= j < 4 && #[trigger] pix_index(fw, dx, dy, j)
            < orig.len() implies buffer@[pix_index(fw, dx, dy, j)] == composited_byte(
        orig,
        fw,
        c,
        dx,
        dy,
        j,
    ) by {
        lemma_pix_index_bound(fw, fh, dx, dy, j);
    }
}

} // verus!
