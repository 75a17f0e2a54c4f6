//! The machine's 1-bit screen and its rendering as an RGB bitmap.

use vstd::prelude::*;

verus! {

/// A colour of the bitmap.
#[derive(Clone, Copy, Debug, PartialEq, Eq, Structural)]
pub struct Color {
    pub red: u8,
    pub green: u8,
    pub blue: u8,
}

/// The colour of a pixel that is off.
pub open spec fn off_color() -> Color {
    Color { red: 158, green: 92, blue: 56 }
}

/// The colour of a pixel that is on.
pub open spec fn on_color() -> Color {
    Color { red: 242, green: 176, blue: 111 }
}

/// The colour in which a pixel is shown.
pub fn pixel_color(on: bool) -> (color: Color)
    ensures
        color == if on {
            on_color()
        } else {
            off_color()
        },
{
    if on {
        Color { red: 242, green: 176, blue: 111 }
    } else {
        Color { red: 158, green: 92, blue: 56 }
    }
}

/// Whether bit `bit` of `byte` is set.
pub open spec fn bit_set(byte: u8, bit: u8) -> bool {
    (byte >> bit) & 1 == 1
}

/// A screen as a mathematical value: `pixels` holds row after row, row 0
/// first, each row from x = 0.
pub struct Screen {
    pub width: nat,
    pub height: nat,
    pub pixels: Seq<bool>,
    pub dirty: bool,
}

impl Screen {
    /// Whether the pixel at (`x`, `y`) is on.
    pub open spec fn lit(self, x: int, y: int) -> bool {
        self.pixels[y * self.width + x]
    }

    /// Whether a call to render has anything to do.
    pub open spec fn renders(self, force: bool) -> bool {
        force || self.dirty
    }

    /// The screen with its dirty flag cleared.
    pub open spec fn cleaned(self) -> Screen {
        Screen { dirty: false, ..self }
    }
}

/// The colour that `data` holds for (`x`, `y`) in rows of `width` pixels.
pub open spec fn color_in(data: Seq<u8>, width: int, x: int, y: int) -> Color {
    let at = 3 * (y * width + x);
    Color { red: data[at], green: data[at + 1], blue: data[at + 2] }
}

/// The colour in which `screen` is shown at (`x`, `y`) of its picture, `y`
/// counted from the top: that of the screen's pixel in the same column and
/// in the row as far from the bottom.
pub open spec fn shown(screen: Screen, x: int, y: int) -> Color {
    if screen.lit(x, screen.height - 1 - y) {
        on_color()
    } else {
        off_color()
    }
}

/// The machine's screen: one bit per pixel, eight pixels to a byte, and a
/// flag that is set when a pixel is written.
pub struct FrameBuffer {
    width: u32,
    height: u32,
    image: Vec<u8>,
    image_updated: bool,
}

/// An RGB bitmap: three bytes per pixel, row after row from the top.
#[derive(Debug, PartialEq, Eq)]
pub struct Bitmap {
    pub width: u32,
    pub height: u32,
    pub data: Vec<u8>,
}

impl Bitmap {
    /// The colour at (`x`, `y`), `y` counted from the top.
    pub open spec fn color_at(self, x: int, y: int) -> Color {
        color_in(self.data@, self.width as int, x, y)
    }

    /// Whether the bitmap is the picture of `screen`: of its size, and each
    /// pixel in the colour in which the screen is shown there.
    pub open spec fn shows(self, screen: Screen) -> bool {
        &&& self.width == screen.width
        &&& self.height == screen.height
        &&& self.data@.len() == 3 * (screen.width * screen.height)
        &&& forall|x: int, y: int|
            0 <= x < screen.width && 0 <= y < screen.height ==> #[trigger] self.color_at(x, y)
                == shown(screen, x, y)
    }
}

proof fn lemma_index_in_range(x: int, y: int, width: int, height: int)
    by (nonlinear_arith)
    requires
        0 <= x < width,
        0 <= y < height,
    ensures
        0 <= y * width + x < width * height,
        y * width + x + 1 <= width * height,
{
}

impl View for FrameBuffer {
    type V = Screen;

    closed spec fn view(&self) -> Screen {
        Screen {
            width: self.width as nat,
            height: self.height as nat,
            pixels: Seq::new(
                (self.width * self.height) as nat,
                |i: int| bit_set(self.image@[i / 8], (i % 8) as u8),
            ),
            dirty: self.image_updated,
        }
    }
}

impl FrameBuffer {
    #[verifier::type_invariant]
    spec fn inv(self) -> bool {
        &&& self.width * self.height <= 8 * self.image@.len()
        &&& 3 * (self.width * self.height) <= usize::MAX
    }

    /// A screen of `width` by `height` pixels, all off and not dirty; none
    /// where a bitmap of that size could not be held in memory.
    pub fn new(width: u32, height: u32) -> (made: Option<Self>)
        ensures
            made is Some <==> 3 * (width * height) <= usize::MAX,
            made matches Some(screen) ==> screen@ == (Screen {
                width: width as nat,
                height: height as nat,
                pixels: Seq::new((width * height) as nat, |i: int| false),
                dirty: false,
            }),
    {
        assert(width * height <= 0xFFFF_FFFF * 0xFFFF_FFFF) by (nonlinear_arith)
            requires
                0 <= width <= 0xFFFF_FFFF,
                0 <= height <= 0xFFFF_FFFF,
        ;
        let pixels: u64 = (width as u64) * (height as u64);
        if pixels > (usize::MAX / 3) as u64 {
            return None;
        }
        let bytes: usize = (pixels / 8) as usize + 1;
        let mut image: Vec<u8> = Vec::new();
        let mut i: usize = 0;
        while i < bytes
            invariant
                i <= bytes,
                image@.len() == i,
                forall|j: int| 0 <= j < i ==> image@[j] == 0u8,
            decreases bytes - i,
        {
            image.push(0u8);
            i += 1;
        }
        let screen = FrameBuffer { width, height, image, image_updated: false };
        proof {
            assert forall|k: int| 0 <= k < width * height implies !bit_set(
                #[trigger] screen.image@[k / 8],
                (k % 8) as u8,
            ) by {
                let bit = (k % 8) as u8;
                assert(!bit_set(0u8, bit)) by (bit_vector);
            }
            assert(screen@.pixels =~= Seq::new((width * height) as nat, |i: int| false));
        }
        Some(screen)
    }

    /// The number of columns.
    pub fn width(&self) -> (width: u32)
        ensures
            width == self@.width,
    {
        self.width
    }

    /// The number of rows.
    pub fn height(&self) -> (height: u32)
        ensures
            height == self@.height,
    {
        self.height
    }

    /// Whether a pixel was written since the flag was last cleared.
    pub fn image_updated(&self) -> (dirty: bool)
        ensures
            dirty == self@.dirty,
    {
        self.image_updated
    }

    /// Clears the dirty flag.
    pub fn disable_image_updated(&mut self)
        ensures
            final(self)@ == old(self)@.cleaned(),
    {
        proof {
            use_type_invariant(&*self);
        }
        self.image_updated = false;
    }

    /// Where a pixel is held: the index of its byte, and of its bit in it.
    pub fn get_index(&self, x: u32, y: u32) -> (place: (usize, u8))
        requires
            x < self@.width,
            y < self@.height,
        ensures
            place.0 == (y * self@.width + x) / 8,
            place.1 == (y * self@.width + x) % 8,
    {
        proof {
            use_type_invariant(self);
            lemma_index_in_range(x as int, y as int, self.width as int, self.height as int);
        }
        let index: usize = (y as usize) * (self.width as usize) + (x as usize);
        (index / 8, (index % 8) as u8)
    }

    /// Whether the pixel at (`x`, `y`) is on.
    pub fn pixel(&self, x: u32, y: u32) -> (on: bool)
        requires
            x < self@.width,
            y < self@.height,
        ensures
            on == self@.lit(x as int, y as int),
    {
        proof {
            use_type_invariant(self);
            lemma_index_in_range(x as int, y as int, self.width as int, self.height as int);
        }
        let (byte, bit) = self.get_index(x, y);
        (self.image[byte] >> bit) & 1 == 1
    }

    /// Turns the pixel at (`x`, `y`) on or off, and marks the screen dirty.
    pub fn set_pixel(&mut self, x: u32, y: u32, on: bool)
        requires
            x < old(self)@.width,
            y < old(self)@.height,
        ensures
            final(self)@ == (Screen {
                pixels: old(self)@.pixels.update(y * old(self)@.width + x, on),
                dirty: true,
                ..old(self)@
            }),
    {
        proof {
            use_type_invariant(&*self);
            lemma_index_in_range(x as int, y as int, self.width as int, self.height as int);
        }
        let (byte, bit) = self.get_index(x, y);
        let before: u8 = self.image[byte];
        let after: u8 = if on {
            before | (1u8 << bit)
        } else {
            before & !(1u8 << bit)
        };
        proof {
            assert(forall|other: u8|
                other < 8 && bit < 8 ==> #[trigger] bit_set(after, other) == if other == bit {
                    on
                } else {
                    bit_set(before, other)
                }) by (bit_vector)
                requires
                    after == if on {
                        before | (1u8 << bit)
                    } else {
                        before & !(1u8 << bit)
                    },
            ;
        }
        self.image[byte] = after;
        self.image_updated = true;
        proof {
            let index = y * old(self)@.width + x;
            let want = old(self)@.pixels.update(index, on);
            assert forall|k: int| 0 <= k < want.len() implies self@.pixels[k] == want[k] by {
                if k / 8 == byte as int {
                    assert(bit_set(after, (k % 8) as u8) == if (k % 8) as u8 == bit {
                        on
                    } else {
                        bit_set(before, (k % 8) as u8)
                    });
                }
            }
            assert(self@.pixels =~= want);
        }
    }

    /// Renders the screen where it is dirty, or where `force` is set, and
    /// clears the dirty flag; else does nothing. The bitmap shows the
    /// screen's bottom row at the top.
    pub fn update_screen(&mut self, force: bool) -> (rendered: Option<Bitmap>)
        ensures
            rendered is Some <==> old(self)@.renders(force),
            rendered matches Some(bitmap) ==> bitmap.shows(old(self)@),
            final(self)@ == old(self)@.cleaned(),
    {
        proof {
            use_type_invariant(&*self);
        }
        if !force && !self.image_updated {
            return None;
        }
        let width = self.width;
        let height = self.height;
        let ghost screen = self@;
        let mut data: Vec<u8> = Vec::new();
        let mut y: u32 = 0;
        while y < height
            invariant
                y <= height,
                width == self.width,
                height == self.height,
                screen == self@,
                3 * (width * height) <= usize::MAX,
                data@.len() == 3 * (y * width),
                forall|px: int, py: int|
                    0 <= px < width && 0 <= py < y ==> #[trigger] color_in(data@, width as int, px, py)
                        == shown(screen, px, py),
            decreases height - y,
        {
            let mut x: u32 = 0;
            while x < width
                invariant
                    y < height,
                    x <= width,
                    width == self.width,
                    height == self.height,
                    screen == self@,
                    3 * (width * height) <= usize::MAX,
                    data@.len() == 3 * (y * width + x),
                    forall|px: int, py: int|
                        0 <= px < width && 0 <= py < y ==> #[trigger] color_in(
                            data@,
                            width as int,
                            px,
                            py,
                        ) == shown(screen, px, py),
                    forall|px: int|
                        0 <= px < x ==> #[trigger] color_in(data@, width as int, px, y as int)
                            == shown(screen, px, y as int),
                decreases width - x,
            {
                let ghost before = data@;
                let color = pixel_color(self.pixel(x, height - y - 1));
                proof {
                    lemma_index_in_range(x as int, y as int, width as int, height as int);
                }
                data.push(color.red);
                data.push(color.green);
                data.push(color.blue);
                proof {
                    let w = width as int;
                    assert forall|px: int, py: int| 0 <= px < w && 0 <= py < y implies color_in(
                        data@,
                        w,
                        px,
                        py,
                    ) == shown(screen, px, py) by {
                        lemma_index_in_range(px, py, w, y as int);
                        assert(w * y == y * w) by (nonlinear_arith);
                        assert(3 * (py * w + px) + 2 < before.len());
                        assert(color_in(before, w, px, py) == shown(screen, px, py));
                    }
                    assert forall|px: int| 0 <= px < x + 1 implies color_in(
                        data@,
                        w,
                        px,
                        y as int,
                    ) == shown(screen, px, y as int) by {
                        if px < x {
                            assert(color_in(before, w, px, y as int) == shown(
                                screen,
                                px,
                                y as int,
                            ));
                        }
                    }
                }
                x += 1;
            }
            proof {
                assert((y + 1) * width == y * width + width) by (nonlinear_arith);
            }
            y += 1;
        }
        self.image_updated = false;
        let bitmap = Bitmap { width, height, data };
        proof {
            assert(height * width == width * height) by (nonlinear_arith);
            assert forall|px: int, py: int|
                0 <= px < screen.width && 0 <= py < screen.height implies bitmap.color_at(px, py)
                == shown(screen, px, py) by {
                assert(color_in(bitmap.data@, width as int, px, py) == shown(screen, px, py));
            }
        }
        Some(bitmap)
    }
}

/// Rendering twice in a row rasterises at most once: a call to render
/// leaves the screen clean, whatever it was and whether or not the call was
/// forced, so that the next call, unforced and with no pixel written in
/// between, has nothing to do.
pub proof fn lemma_second_render_is_idle(screen: Screen)
    ensures
        !screen.cleaned().renders(false),
        screen.cleaned().cleaned() == screen.cleaned(),
{
}

} // verus!
