use vstd::prelude::*;

verus! {

/// An RGB raster as a value: its size and its bytes, row-major, three per
/// pixel.
pub struct ImageView {
    pub width: nat,
    pub height: nat,
    pub bytes: Seq<u8>,
}

/// Where the red byte of pixel (`x`, `y`) stands in a raster `width` pixels
/// wide; green and blue follow it.
pub open spec fn pixel_offset(width: nat, x: nat, y: nat) -> int {
    3 * (y * width + x) as int
}

/// The decimal digits of `n`, in ASCII, most significant first.
pub open spec fn decimal(n: nat) -> Seq<u8>
    decreases n,
{
    if n < 10 {
        seq![(48 + n) as u8]
    } else {
        decimal(n / 10).push((48 + n % 10) as u8)
    }
}

/// The binary PPM file of a raster: a header with the format's magic
/// number, its width, height and largest channel value 255, then its bytes.
pub open spec fn ppm(img: ImageView) -> Seq<u8> {
    seq![80u8, 54u8, 10u8] + decimal(img.width) + seq![32u8] + decimal(img.height) + seq![
        10u8,
        50u8,
        53u8,
        53u8,
        10u8,
    ] + img.bytes
}

/// A pixel (`x`, `y`) lies inside a raster `width` by `height` pixels: its
/// three bytes stand inside the raster's bytes.
proof fn lemma_pixel_inside(width: nat, height: nat, x: nat, y: nat)
    requires
        x < width,
        y < height,
    ensures
        y * width + x < width * height,
        pixel_offset(width, x, y) + 3 <= 3 * (width * height),
{
    assert(y * width + x < width * height) by (nonlinear_arith)
        requires
            x < width,
            y < height,
    ;
}

/// A width × height raster of 8-bit RGB pixels, row-major.
pub struct Image {
    width: usize,
    height: usize,
    data: Vec<u8>,
}

impl View for Image {
    type V = ImageView;

    closed spec fn view(&self) -> ImageView {
        ImageView { width: self.width as nat, height: self.height as nat, bytes: self.data@ }
    }
}

impl Image {
    /// The raster holds three bytes for each of its pixels, and their count
    /// fits in `usize`.
    pub open spec fn wf(&self) -> bool {
        &&& self@.bytes.len() == 3 * (self@.width * self@.height)
        &&& 3 * (self@.width * self@.height) <= usize::MAX
    }

    /// A black raster of `width` by `height` pixels.
    pub fn new(width: usize, height: usize) -> (img: Image)
        requires
            3 * (width * height) <= usize::MAX,
        ensures
            img.wf(),
            img@.width == width,
            img@.height == height,
            forall|i: int| 0 <= i < img@.bytes.len() ==> #[trigger] img@.bytes[i] == 0,
    {
        assert(0 <= width * height) by (nonlinear_arith);
        let n: usize = 3 * (width * height);
        let data: Vec<u8> = vec![0u8; n];
        Image { width, height, data }
    }

    /// Width in pixels.
    pub fn width(&self) -> (r: usize)
        ensures
            r == self@.width,
    {
        self.width
    }

    /// Height in pixels.
    pub fn height(&self) -> (r: usize)
        ensures
            r == self@.height,
    {
        self.height
    }

    /// The raster's bytes, row-major, red, green and blue for each pixel.
    pub fn as_bytes(&self) -> (r: &[u8])
        ensures
            r@ == self@.bytes,
    {
        self.data.as_slice()
    }

    /// Sets pixel (`x`, `y`), counted from the top left, to `rgb`; every
    /// other byte keeps its value.
    pub fn put_pixel(&mut self, x: usize, y: usize, rgb: [u8; 3])
        requires
            old(self).wf(),
            x < old(self)@.width,
            y < old(self)@.height,
        ensures
            final(self).wf(),
            final(self)@.width == old(self)@.width,
            final(self)@.height == old(self)@.height,
            final(self)@.bytes == old(self)@.bytes.update(
                pixel_offset(old(self)@.width, x as nat, y as nat),
                rgb[0],
            ).update(pixel_offset(old(self)@.width, x as nat, y as nat) + 1, rgb[1]).update(
                pixel_offset(old(self)@.width, x as nat, y as nat) + 2,
                rgb[2],
            ),
    {
        proof {
            lemma_pixel_inside(self.width as nat, self.height as nat, x as nat, y as nat);
        }
        let o: usize = 3 * (y * self.width + x);
        self.data.set(o, rgb[0]);
        self.data.set(o + 1, rgb[1]);
        self.data.set(o + 2, rgb[2]);
    }

    /// The color of pixel (`x`, `y`), counted from the top left.
    pub fn pixel(&self, x: usize, y: usize) -> (rgb: [u8; 3])
        requires
            self.wf(),
            x < self@.width,
            y < self@.height,
        ensures
            rgb[0] == self@.bytes[pixel_offset(self@.width, x as nat, y as nat)],
            rgb[1] == self@.bytes[pixel_offset(self@.width, x as nat, y as nat) + 1],
            rgb[2] == self@.bytes[pixel_offset(self@.width, x as nat, y as nat) + 2],
    {
        proof {
            lemma_pixel_inside(self.width as nat, self.height as nat, x as nat, y as nat);
        }
        let o: usize = 3 * (y * self.width + x);
        [self.data[o], self.data[o + 1], self.data[o + 2]]
    }

    /// The raster as a binary PPM file.
    pub fn encode_ppm(&self) -> (r: Vec<u8>)
        ensures
            r@ == ppm(self@),
    {
        let mut out: Vec<u8> = Vec::new();
        out.push(80u8);
        out.push(54u8);
        out.push(10u8);
        push_decimal(&mut out, self.width);
        out.push(32u8);
        push_decimal(&mut out, self.height);
        out.push(10u8);
        out.push(50u8);
        out.push(53u8);
        out.push(53u8);
        out.push(10u8);
        let ghost header = out@;
        let mut i: usize = 0;
        while i < self.data.len()
            invariant
                i <= self.data@.len(),
                out@ == header + self.data@.subrange(0, i as int),
            decreases self.data@.len() - i,
        {
            proof {
                assert(self.data@.subrange(0, i + 1) =~= self.data@.subrange(0, i as int).push(
                    self.data@[i as int],
                ));
            }
            out.push(self.data[i]);
            i = i + 1;
        }
        proof {
            assert(self.data@.subrange(0, i as int) =~= self.data@);
            assert(out@ =~= ppm(self@));
        }
        out
    }
}

/// Appends the decimal digits of `n` to `out`.
fn push_decimal(out: &mut Vec<u8>, n: usize)
    ensures
        final(out)@ == old(out)@ + decimal(n as nat),
    decreases n,
{
    if n >= 10 {
        push_decimal(out, n / 10);
    }
    let d: u8 = (n % 10) as u8;
    out.push(48u8 + d);
    proof {
        if n >= 10 {
            assert(final(out)@ =~= old(out)@ + decimal(n as nat));
        } else {
            assert(final(out)@ =~= old(out)@ + decimal(n as nat));
        }
    }
}

} // verus!
