//! The 64x32 monochrome display surface and the hex keypad helpers.
//!
//! The framebuffer is owned by the core and mutated only through XOR-style
//! flips or absolute writes; the embedding program reads pixels out to put
//! them on a real screen. Key state comes in as a 16-bit mask, one bit per
//! hex key.

use vstd::prelude::*;

verus! {

/// Number of pixel columns of the screen.
pub const SCREEN_WIDTH: usize = 64;

/// Number of pixel rows of the screen.
pub const SCREEN_HEIGHT: usize = 32;

/// Number of pixels of the whole framebuffer.
pub const SCREEN_PIXELS: usize = 2048;

/// The 16 values a CHIP-8 keypad key can carry.
#[derive(Clone, Copy, Debug, PartialEq, Eq, Structural)]
pub enum ValidHex {
    Num0,
    Num1,
    Num2,
    Num3,
    Num4,
    Num5,
    Num6,
    Num7,
    Num8,
    Num9,
    A,
    B,
    C,
    D,
    E,
    F,
}

/// The hex value a keypad key stands for.
pub open spec fn spec_hex_value(key: ValidHex) -> u8 {
    match key {
        ValidHex::Num0 => 0,
        ValidHex::Num1 => 1,
        ValidHex::Num2 => 2,
        ValidHex::Num3 => 3,
        ValidHex::Num4 => 4,
        ValidHex::Num5 => 5,
        ValidHex::Num6 => 6,
        ValidHex::Num7 => 7,
        ValidHex::Num8 => 8,
        ValidHex::Num9 => 9,
        ValidHex::A => 10,
        ValidHex::B => 11,
        ValidHex::C => 12,
        ValidHex::D => 13,
        ValidHex::E => 14,
        ValidHex::F => 15,
    }
}

impl ValidHex {
    /// The hex value of this key, 0 through 15.
    pub fn value(self) -> (v: u8)
        ensures
            v == spec_hex_value(self),
            v < 16,
    {
        match self {
            ValidHex::Num0 => 0,
            ValidHex::Num1 => 1,
            ValidHex::Num2 => 2,
            ValidHex::Num3 => 3,
            ValidHex::Num4 => 4,
            ValidHex::Num5 => 5,
            ValidHex::Num6 => 6,
            ValidHex::Num7 => 7,
            ValidHex::Num8 => 8,
            ValidHex::Num9 => 9,
            ValidHex::A => 10,
            ValidHex::B => 11,
            ValidHex::C => 12,
            ValidHex::D => 13,
            ValidHex::E => 14,
            ValidHex::F => 15,
        }
    }

    /// The key for a hex value below 16, and nothing for any other byte.
    pub fn from_value(v: u8) -> (r: Option<ValidHex>)
        ensures
            v < 16 ==> (r matches Some(k) && spec_hex_value(k) == v),
            v >= 16 ==> r is None,
    {
        match v {
            0 => Some(ValidHex::Num0),
            1 => Some(ValidHex::Num1),
            2 => Some(ValidHex::Num2),
            3 => Some(ValidHex::Num3),
            4 => Some(ValidHex::Num4),
            5 => Some(ValidHex::Num5),
            6 => Some(ValidHex::Num6),
            7 => Some(ValidHex::Num7),
            8 => Some(ValidHex::Num8),
            9 => Some(ValidHex::Num9),
            10 => Some(ValidHex::A),
            11 => Some(ValidHex::B),
            12 => Some(ValidHex::C),
            13 => Some(ValidHex::D),
            14 => Some(ValidHex::E),
            15 => Some(ValidHex::F),
            _ => None,
        }
    }
}

/// Whether key number `k` is down in the key mask `keys` (bit `k` set).
pub open spec fn spec_key_down(keys: u16, k: int) -> bool
    recommends
        0 <= k < 16,
{
    (keys >> (k as u16)) & 1 == 1
}

/// Whether the key with hex value `key` is pressed in the key mask.
pub fn key_pressed(keys: u16, key: u8) -> (r: bool)
    requires
        key < 16,
    ensures
        r == spec_key_down(keys, key as int),
{
    (keys >> (key as u16)) & 1 == 1
}

/// The keys reported pressed by the key mask, in ascending hex order,
/// considering only the values below `upto`.
pub open spec fn spec_pressed_keys(keys: u16, upto: int) -> Seq<ValidHex>
    decreases upto,
{
    if upto <= 0 {
        Seq::empty()
    } else {
        if spec_key_down(keys, upto - 1) {
            spec_pressed_keys(keys, upto - 1).push(spec_hex_of_int(upto - 1))
        } else {
            spec_pressed_keys(keys, upto - 1)
        }
    }
}

/// The keypad key with hex value `k`, for `k` between 0 and 15.
pub open spec fn spec_hex_of_int(k: int) -> ValidHex {
    if k == 0 {
        ValidHex::Num0
    } else if k == 1 {
        ValidHex::Num1
    } else if k == 2 {
        ValidHex::Num2
    } else if k == 3 {
        ValidHex::Num3
    } else if k == 4 {
        ValidHex::Num4
    } else if k == 5 {
        ValidHex::Num5
    } else if k == 6 {
        ValidHex::Num6
    } else if k == 7 {
        ValidHex::Num7
    } else if k == 8 {
        ValidHex::Num8
    } else if k == 9 {
        ValidHex::Num9
    } else if k == 10 {
        ValidHex::A
    } else if k == 11 {
        ValidHex::B
    } else if k == 12 {
        ValidHex::C
    } else if k == 13 {
        ValidHex::D
    } else if k == 14 {
        ValidHex::E
    } else {
        ValidHex::F
    }
}

/// All keys that the key mask reports pressed, in ascending hex order.
pub fn pressed_keys(keys: u16) -> (r: Vec<ValidHex>)
    ensures
        r@ == spec_pressed_keys(keys, 16),
{
    let mut r: Vec<ValidHex> = Vec::new();
    let mut k: u8 = 0;
    while k < 16
        invariant
            k <= 16,
            r@ == spec_pressed_keys(keys, k as int),
        decreases 16 - k,
    {
        if key_pressed(keys, k) {
            proof {
                assert(spec_hex_value(spec_hex_of_int(k as int)) == k);
            }
            match ValidHex::from_value(k) {
                Some(h) => {
                    r.push(h);
                    proof {
                        assert(h == spec_hex_of_int(k as int));
                    }
                },
                None => {},
            }
        }
        k = k + 1;
    }
    r
}

/// The 32-row, 64-column boolean pixel matrix, stored row-major: the pixel at
/// column `x` of row `y` sits at index `y * 64 + x` of the view.
pub struct Display {
    buffer: Vec<bool>,
}

impl View for Display {
    type V = Seq<bool>;

    closed spec fn view(&self) -> Seq<bool> {
        self.buffer@
    }
}

impl Display {
    /// A display holds exactly one boolean per screen pixel.
    pub open spec fn wf(&self) -> bool {
        self@.len() == SCREEN_PIXELS
    }

    /// A fresh display with every pixel off.
    pub fn new() -> (d: Display)
        ensures
            d.wf(),
            d@ == Seq::new(SCREEN_PIXELS as nat, |i: int| false),
    {
        let mut buffer: Vec<bool> = Vec::new();
        let mut i: usize = 0;
        while i < SCREEN_PIXELS
            invariant
                i <= SCREEN_PIXELS,
                buffer@ == Seq::new(i as nat, |j: int| false),
            decreases SCREEN_PIXELS - i,
        {
            buffer.push(false);
            proof {
                assert(buffer@ =~= Seq::new((i + 1) as nat, |j: int| false));
            }
            i = i + 1;
        }
        let d = Display { buffer };
        d
    }

    /// The state of the pixel at column `x`, row `y`.
    pub fn pixel(&self, x: usize, y: usize) -> (r: bool)
        requires
            self.wf(),
            x < SCREEN_WIDTH,
            y < SCREEN_HEIGHT,
        ensures
            r == self@[y * 64 + x],
    {
        self.buffer[y * 64 + x]
    }

    /// Writes the pixel at column `x`, row `y` to `value`, leaving every
    /// other pixel alone.
    pub fn set_pixel(&mut self, x: usize, y: usize, value: bool)
        requires
            old(self).wf(),
            x < SCREEN_WIDTH,
            y < SCREEN_HEIGHT,
        ensures
            final(self)@ == old(self)@.update(y * 64 + x, value),
            final(self).wf(),
    {
        self.buffer[y * 64 + x] = value;
    }

    /// Flips the pixel at column `x`, row `y`, and reports whether the pixel
    /// was on before the flip (that is, whether the flip turned it off).
    pub fn flip_pixel(&mut self, x: u8, y: u8) -> (was_set: bool)
        requires
            old(self).wf(),
            x < 64,
            y < 32,
        ensures
            final(self)@ == old(self)@.update(y as int * 64 + x as int, !old(self)@[y as int * 64 + x as int]),
            was_set == old(self)@[y as int * 64 + x as int],
            final(self).wf(),
    {
        let idx: usize = (y as usize) * 64 + (x as usize);
        let before: bool = self.buffer[idx];
        self.buffer[idx] = !before;
        before
    }

    /// Turns every pixel off.
    pub fn clear(&mut self)
        requires
            old(self).wf(),
        ensures
            final(self)@ == Seq::new(SCREEN_PIXELS as nat, |i: int| false),
            final(self).wf(),
    {
        let mut i: usize = 0;
        while i < SCREEN_PIXELS
            invariant
                i <= SCREEN_PIXELS,
                self@.len() == SCREEN_PIXELS,
                forall|j: int| 0 <= j < i ==> !self@[j],
            decreases SCREEN_PIXELS - i,
        {
            self.buffer[i] = false;
            i = i + 1;
        }
        proof {
            assert(self@ =~= Seq::new(SCREEN_PIXELS as nat, |i: int| false));
        }
    }
}

} // verus!
