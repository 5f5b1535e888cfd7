//! The QR code the host UI shows for pairing: the `qrcode` crate lays out the
//! modules, and each module is drawn as a square of pixels.
use vstd::prelude::*;

verus! {

/// The modules of the QR code of `data` (medium error correction, the smallest
/// version that holds it): the width and the modules row by row, `true` for
/// dark; `None` where the data does not fit a QR code.
pub uninterp spec fn spec_qr_modules(data: Seq<u8>) -> Option<(nat, Seq<bool>)>;

/// `qrcode::QrCode::new(data)`, then `width()` and `to_colors()`, each color
/// told apart as dark or light. Stated: the result is the named layout of
/// `data`; a code of a normal version is 21 to 177 modules wide, and
/// `to_colors` gives one entry per module.
#[verifier::external_body]
fn qr_modules(data: &[u8]) -> (r: Option<(usize, Vec<bool>)>)
    ensures
        match r {
            None => spec_qr_modules(data@) is None,
            Some((w, m)) => {
                &&& spec_qr_modules(data@) == Some((w as nat, m@))
                &&& 21 <= w <= 177
                &&& m@.len() == w * w
            },
        },
{
    match qrcode::QrCode::new(data) {
        Ok(code) => Some(
            (
                code.width(),
                code.to_colors().into_iter().map(|c| match c {
                    qrcode::Color::Dark => true,
                    qrcode::Color::Light => false,
                }).collect(),
            ),
        ),
        Err(_) => None,
    }
}

/// A square image, row by row, `true` for a dark pixel.
pub struct QrImage {
    pub size: usize,
    pub dark: Vec<bool>,
}

/// The module that pixel `i` of an image `width * scale` pixels wide shows.
pub open spec fn module_of_pixel(width: nat, scale: nat, i: int) -> int {
    let size = width * scale;
    ((i / (size as int)) / (scale as int)) * width + ((i % (size as int)) / (scale as int))
}

/// The pixels of a module grid drawn `scale` pixels per module.
pub open spec fn scaled(width: nat, modules: Seq<bool>, scale: nat) -> Seq<bool> {
    let size = width * scale;
    Seq::new(size * size, |i: int| modules[module_of_pixel(width, scale, i)])
}

proof fn lemma_pixel_module(width: nat, scale: nat, py: int, px: int)
    requires
        scale > 0,
        0 <= py < width * scale,
        0 <= px < width * scale,
    ensures
        module_of_pixel(width, scale, py * (width * scale) + px) == (py / (scale as int)) * width + (px
            / (scale as int)),
        0 <= (py / (scale as int)) * width + (px / (scale as int)) < width * width,
        0 <= (py / (scale as int)) < width,
        0 <= (px / (scale as int)) < width,
{
    let size = (width * scale) as int;
    vstd::arithmetic::div_mod::lemma_fundamental_div_mod_converse(py * size + px, size, py, px);
    assert((py / (scale as int)) < width) by {
        assert(py < (scale as int) * (width as int)) by (nonlinear_arith)
            requires
                py < width * scale,
        ;
        vstd::arithmetic::div_mod::lemma_multiply_divide_lt(py, scale as int, width as int);
    }
    assert((px / (scale as int)) < width) by {
        assert(px < (scale as int) * (width as int)) by (nonlinear_arith)
            requires
                px < width * scale,
        ;
        vstd::arithmetic::div_mod::lemma_multiply_divide_lt(px, scale as int, width as int);
    }
    assert(py / (scale as int) >= 0) by {
        vstd::arithmetic::div_mod::lemma_div_pos_is_pos(py, scale as int);
    }
    assert(px / (scale as int) >= 0) by {
        vstd::arithmetic::div_mod::lemma_div_pos_is_pos(px, scale as int);
    }
    let my = py / (scale as int);
    let mx = px / (scale as int);
    assert(0 <= my * width + mx < width * width) by (nonlinear_arith)
        requires
            0 <= my < width,
            0 <= mx < width,
    ;
}

/// Draws each module of a `width` by `width` grid as a `scale` by `scale` square.
pub fn scale_modules(width: usize, modules: &[bool], scale: usize) -> (r: Option<QrImage>)
    requires
        modules@.len() == width * width,
    ensures
        match r {
            None => width * scale * width * scale > usize::MAX,
            Some(img) => {
                &&& img.size == width * scale
                &&& img.dark@ == scaled(width as nat, modules@, scale as nat)
            },
        },
{
    let size = match width.checked_mul(scale) {
        Some(s) => s,
        None => {
            assert(width * scale * width * scale > usize::MAX) by (nonlinear_arith)
                requires
                    width * scale > usize::MAX,
            ;
            return None;
        },
    };
    assert(size * size == width * scale * width * scale) by (nonlinear_arith)
        requires
            size == width * scale,
    ;
    let total = match size.checked_mul(size) {
        Some(t) => t,
        None => return None,
    };
    let mlen = modules.len();
    let ghost target = scaled(width as nat, modules@, scale as nat);
    let mut dark: Vec<bool> = Vec::new();
    if size == 0 {
        assert(target.len() == 0);
        assert(dark@ =~= target);
        return Some(QrImage { size, dark });
    }
    assert(scale > 0);
    let mut py: usize = 0;
    while py < size
        invariant
            size == width * scale,
            total == size * size,
            scale > 0,
            modules@.len() == width * width,
            mlen == modules@.len(),
            target == scaled(width as nat, modules@, scale as nat),
            py <= size,
            dark@.len() == py * size,
            forall|i: int| 0 <= i < dark@.len() ==> dark@[i] == target[i],
        decreases size - py,
    {
        let my = py / scale;
        let mut px: usize = 0;
        assert((py + 1) * size <= size * size) by (nonlinear_arith)
            requires
                py < size,
        ;
        while px < size
            invariant
                size == width * scale,
                total == size * size,
                scale > 0,
                modules@.len() == width * width,
                mlen == modules@.len(),
                target == scaled(width as nat, modules@, scale as nat),
                py < size,
                (py + 1) * size <= size * size,
                my == py / scale,
                px <= size,
                dark@.len() == py * size + px,
                forall|i: int| 0 <= i < dark@.len() ==> dark@[i] == target[i],
            decreases size - px,
        {
            proof {
                lemma_pixel_module(width as nat, scale as nat, py as int, px as int);
            }
            let mx = px / scale;
            let idx = my * width + mx;
            let ghost i = py * size + px;
            assert(i < size * size) by (nonlinear_arith)
                requires
                    i == py * size + px,
                    px < size,
                    (py + 1) * size <= size * size,
            ;
            assert(target[i] == modules@[module_of_pixel(width as nat, scale as nat, i)]);
            assert(i == (py as int) * ((width * scale) as int) + (px as int));
            dark.push(modules[idx]);
            assert(dark@[i] == target[i]);
            px = px + 1;
        }
        assert(py * size + size == (py + 1) * size) by (nonlinear_arith);
        py = py + 1;
    }
    assert(dark@ =~= target);
    Some(QrImage { size, dark })
}

/// The pairing QR code of a text, drawn `scale` pixels per module; `None` where
/// the text does not fit a QR code or the image would not fit in memory.
pub fn qr_to_image(payload: &str, scale: usize) -> (r: Option<QrImage>)
    ensures
        match r {
            None => match spec_qr_modules(vstd::utf8::encode_utf8(payload@)) {
                None => true,
                Some((w, _)) => w * scale * w * scale > usize::MAX,
            },
            Some(img) => match spec_qr_modules(vstd::utf8::encode_utf8(payload@)) {
                None => false,
                Some((w, m)) => img.size == w * scale && img.dark@ == scaled(w, m, scale as nat),
            },
        },
{
    let bytes = crate::crypto::str_bytes(payload);
    match qr_modules(bytes.as_slice()) {
        None => None,
        Some((width, modules)) => scale_modules(width, modules.as_slice(), scale),
    }
}

} // verus!
