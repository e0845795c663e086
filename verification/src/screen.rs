use vstd::prelude::*;

use crate::colors::Color;

verus! {

/// What a screenshot holds: its size and its pixels' bytes, three per pixel
/// (red, green, blue), row after row.
pub struct ScreenView {
    pub width: nat,
    pub height: nat,
    pub bytes: Seq<u8>,
}

impl ScreenView {
    /// The bytes hold at least one full picture of `width` by `height` pixels.
    pub open spec fn fits(self) -> bool {
        self.width * self.height * 3 <= self.bytes.len()
    }

    /// `(x, y)` is a pixel of the picture.
    pub open spec fn contains(self, x: int, y: int) -> bool {
        0 <= x < self.width && 0 <= y < self.height
    }

    /// Index of the first byte of pixel `(x, y)`.
    pub open spec fn offset(self, x: int, y: int) -> int {
        (y * self.width + x) * 3
    }

    /// The colour of pixel `(x, y)`.
    pub open spec fn pixel(self, x: int, y: int) -> Color {
        let i = self.offset(x, y);
        Color { r: self.bytes[i], g: self.bytes[i + 1], b: self.bytes[i + 2] }
    }
}

/// The RGB bytes of an RGBA byte sequence: every fourth byte (alpha) left out.
/// A trailing incomplete pixel keeps the bytes it has, up to three.
pub open spec fn rgb_of_rgba(raw: Seq<u8>) -> Seq<u8> {
    Seq::new((raw.len() - raw.len() / 4) as nat, |j: int| raw[rgba_index(j)])
}

/// Where the `j`-th RGB byte sits among the RGBA bytes.
pub open spec fn rgba_index(j: int) -> int {
    4 * (j / 3) + j % 3
}

/// A screenshot: a picture of `width` by `height` RGB pixels.
pub struct Screen {
    width: u32,
    height: u32,
    data: Vec<u8>,
}

impl View for Screen {
    type V = ScreenView;

    closed spec fn view(&self) -> ScreenView {
        ScreenView { width: self.width as nat, height: self.height as nat, bytes: self.data@ }
    }
}

proof fn lemma_pixel_in_bounds(x: int, y: int, w: int, h: int)
    requires
        0 <= x < w,
        0 <= y < h,
    ensures
        0 <= y * w + x < w * h,
        (y * w + x) * 3 + 3 <= w * h * 3,
{
    assert(y * w + x < w * h) by (nonlinear_arith)
        requires
            0 <= x < w,
            0 <= y < h,
    ;
    assert(0 <= y * w) by (nonlinear_arith)
        requires
            0 <= x < w,
            0 <= y < h,
    ;
}

impl Screen {
    #[verifier::type_invariant]
    spec fn fits_data(self) -> bool {
        self.width * self.height * 3 <= self.data@.len()
    }

    /// Width of the picture in pixels.
    pub fn width(&self) -> (w: u32)
        ensures
            w == self@.width,
    {
        self.width
    }

    /// Height of the picture in pixels.
    pub fn height(&self) -> (h: u32)
        ensures
            h == self@.height,
    {
        self.height
    }

    /// A screenshot always holds a full picture.
    pub fn check_fits(&self)
        ensures
            self@.fits(),
    {
        proof {
            use_type_invariant(self);
        }
    }

    /// Takes a picture from its RGB bytes; `None` when there are fewer bytes than
    /// `width * height * 3`. Extra bytes are kept.
    pub fn from_rgb(width: u32, height: u32, data: Vec<u8>) -> (screen: Option<Screen>)
        ensures
            screen is Some <==> width * height * 3 <= data@.len(),
            screen matches Some(s) ==> s@ == (ScreenView {
                width: width as nat,
                height: height as nat,
                bytes: data@,
            }),
    {
        assert((width as u128) * (height as u128) <= 0xffff_ffff_ffff_ffff) by (nonlinear_arith)
            requires
                width <= 0xffff_ffff,
                height <= 0xffff_ffff,
        ;
        let needed: u128 = (width as u128) * (height as u128) * 3;
        if needed <= data.len() as u128 {
            Some(Screen { width, height, data })
        } else {
            None
        }
    }

    /// Takes a picture from the RGBA bytes of a captured frame: the alpha bytes
    /// are dropped, then the result is checked as [`Screen::from_rgb`] does.
    pub fn from_rgba_frame(width: u32, height: u32, raw: &[u8]) -> (screen: Option<Screen>)
        ensures
            screen is Some <==> width * height * 3 <= rgb_of_rgba(raw@).len(),
            screen matches Some(s) ==> s@ == (ScreenView {
                width: width as nat,
                height: height as nat,
                bytes: rgb_of_rgba(raw@),
            }),
    {
        let rgb = rgba_to_rgb(raw);
        Self::from_rgb(width, height, rgb)
    }

    /// Gives the picture's bytes back.
    pub fn into_data(self) -> (data: Vec<u8>)
        ensures
            data@ == self@.bytes,
    {
        self.data
    }

    /// The colour of pixel `(x, y)`.
    pub fn pixel(&self, x: u32, y: u32) -> (c: Color)
        requires
            self@.contains(x as int, y as int),
        ensures
            c == self@.pixel(x as int, y as int),
    {
        proof {
            use_type_invariant(self);
            lemma_pixel_in_bounds(x as int, y as int, self.width as int, self.height as int);
        }
        let len: usize = self.data.len();
        assert(y * self.width <= y * self.width + x);
        assert((y * self.width + x) * 3 + 3 <= len);
        let row: usize = (y as usize) * (self.width as usize);
        let i: usize = (row + (x as usize)) * 3;
        Color { r: self.data[i], g: self.data[i + 1], b: self.data[i + 2] }
    }
}

proof fn lemma_rgb_push(s: Seq<u8>, b: u8)
    ensures
        rgb_of_rgba(s.push(b)) == (if s.len() % 4 == 3 {
            rgb_of_rgba(s)
        } else {
            rgb_of_rgba(s).push(b)
        }),
{
    let n = s.len() as int;
    let t = s.push(b);
    let q = n / 4;
    let r = n % 4;
    assert(n == 4 * q + r);
    assert((n + 1) / 4 == (if r == 3 { q + 1 } else { q }));
    assert forall|j: int| 0 <= j < n - q implies #[trigger] rgba_index(j) < n by {
        let a = j / 3;
        let c = j % 3;
        assert(j == 3 * a + c);
    }
    if r == 3 {
        assert(rgb_of_rgba(t) =~= rgb_of_rgba(s));
    } else {
        let j = n - q;
        assert(j == 3 * q + r);
        assert(j / 3 == q && j % 3 == r);
        assert(rgb_of_rgba(t) =~= rgb_of_rgba(s).push(b));
    }
}

/// The RGB bytes of the RGBA bytes `raw` (see [`rgb_of_rgba`]).
pub fn rgba_to_rgb(raw: &[u8]) -> (rgb: Vec<u8>)
    ensures
        rgb@ == rgb_of_rgba(raw@),
{
    let mut rgb: Vec<u8> = Vec::new();
    let mut i: usize = 0;
    let mut lane: usize = 0;
    assert(rgb_of_rgba(raw@.take(0)) =~= rgb@);
    while i < raw.len()
        invariant
            i <= raw.len(),
            lane == i % 4,
            rgb@ == rgb_of_rgba(raw@.take(i as int)),
        decreases raw.len() - i,
    {
        proof {
            lemma_rgb_push(raw@.take(i as int), raw@[i as int]);
            assert(raw@.take(i as int).push(raw@[i as int]) =~= raw@.take(i + 1));
        }
        if lane != 3 {
            rgb.push(raw[i]);
            lane = lane + 1;
        } else {
            lane = 0;
        }
        i = i + 1;
    }
    assert(raw@.take(i as int) =~= raw@);
    rgb
}

/// Each pixel of a picture taken from an RGBA frame has the red, green and blue
/// bytes of the frame's pixel at the same place.
pub proof fn lemma_frame_pixel(raw: Seq<u8>, width: nat, height: nat, x: int, y: int)
    requires
        width * height * 3 <= rgb_of_rgba(raw).len(),
        0 <= x < width,
        0 <= y < height,
    ensures
        ({
            let view = ScreenView { width, height, bytes: rgb_of_rgba(raw) };
            let k = y * width + x;
            view.pixel(x, y) == Color { r: raw[4 * k], g: raw[4 * k + 1], b: raw[4 * k + 2] }
        }),
{
    let k = y * width + x;
    lemma_pixel_in_bounds(x, y, width as int, height as int);
    let rgb = rgb_of_rgba(raw);
    assert((3 * k) / 3 == k && (3 * k) % 3 == 0);
    assert((3 * k + 1) / 3 == k && (3 * k + 1) % 3 == 1);
    assert((3 * k + 2) / 3 == k && (3 * k + 2) % 3 == 2);
    assert(k * 3 == 3 * k);
}

} // verus!
