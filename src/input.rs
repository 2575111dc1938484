use vstd::prelude::*;

verus! {

/// Bit of the movement-up control in an input byte.
pub const UP: u8 = 1;

/// Bit of the movement-down control in an input byte.
pub const DOWN: u8 = 2;

/// Bit of the movement-left control in an input byte.
pub const LEFT: u8 = 4;

/// Bit of the movement-right control in an input byte.
pub const RIGHT: u8 = 8;

/// Bit of the fire control in an input byte.
pub const FIRE: u8 = 16;

/// The bits that no control uses; a valid input byte has all of them clear.
pub const RESERVED: u8 = 0xe0;

/// One of the five controls a participant can hold down during a tick.
#[derive(Clone, Copy, Debug, PartialEq, Eq, Structural)]
pub enum GameControl {
    Up,
    Down,
    Left,
    Right,
    Fire,
}

/// The controls held during one tick, one flag per control.
#[derive(Clone, Copy, Debug, PartialEq, Eq, Structural)]
pub struct InputFlags {
    pub up: bool,
    pub down: bool,
    pub left: bool,
    pub right: bool,
    pub fire: bool,
}

/// Why an input byte could not be read as a set of controls.
#[derive(Clone, Copy, Debug, PartialEq, Eq, Structural)]
pub enum DecodeError {
    /// The byte (carried here) has at least one reserved bit set.
    InvalidInputBits(u8),
}

/// Whether a flag set holds a control.
pub open spec fn spec_contains(f: InputFlags, c: GameControl) -> bool {
    match c {
        GameControl::Up => f.up,
        GameControl::Down => f.down,
        GameControl::Left => f.left,
        GameControl::Right => f.right,
        GameControl::Fire => f.fire,
    }
}

pub open spec fn bit_if(b: bool, mask: u8) -> u8 {
    if b {
        mask
    } else {
        0
    }
}

/// The wire byte of a flag set: the sum (equally, the OR) of the masks of the
/// controls it holds.
pub open spec fn spec_encode(f: InputFlags) -> u8 {
    (bit_if(f.up, UP) + bit_if(f.down, DOWN) + bit_if(f.left, LEFT) + bit_if(f.right, RIGHT)
        + bit_if(f.fire, FIRE)) as u8
}

/// Whether a byte is a valid input: none of the three high bits set.
pub open spec fn spec_valid_byte(b: u8) -> bool {
    b < 32
}

/// The flag set a valid byte stands for: bit 0 up, bit 1 down, bit 2 left,
/// bit 3 right, bit 4 fire.
pub open spec fn spec_flags_of(b: u8) -> InputFlags {
    InputFlags {
        up: b % 2 == 1,
        down: (b / 2) % 2 == 1,
        left: (b / 4) % 2 == 1,
        right: (b / 8) % 2 == 1,
        fire: (b / 16) % 2 == 1,
    }
}

/// Reading a byte back: the flags it stands for, or the error for a reserved bit.
pub open spec fn spec_decode(b: u8) -> Result<InputFlags, DecodeError> {
    if spec_valid_byte(b) {
        Ok(spec_flags_of(b))
    } else {
        Err(DecodeError::InvalidInputBits(b))
    }
}

/// The bitwise tests that decoding makes agree with the arithmetic ones.
proof fn lemma_bit_tests(b: u8)
    ensures
        (b & RESERVED == 0) == (b < 32),
        (b & UP != 0) == (b % 2 == 1),
        (b & DOWN != 0) == ((b / 2) % 2 == 1),
        (b & LEFT != 0) == ((b / 4) % 2 == 1),
        (b & RIGHT != 0) == ((b / 8) % 2 == 1),
        (b & FIRE != 0) == ((b / 16) % 2 == 1),
{
    assert((b & 0xe0 == 0) == (b < 32) && (b & 1 != 0) == (b % 2 == 1) && (b & 2 != 0) == ((b
        / 2) % 2 == 1) && (b & 4 != 0) == ((b / 4) % 2 == 1) && (b & 8 != 0) == ((b / 8) % 2
        == 1) && (b & 16 != 0) == ((b / 16) % 2 == 1)) by (bit_vector);
}

/// Decoding the encoding of any flag set gives that flag set back.
pub proof fn lemma_decode_encode(f: InputFlags)
    ensures
        spec_decode(spec_encode(f)) == Ok::<InputFlags, DecodeError>(f),
{
}

/// Every byte with one of the three high bits set is rejected, carrying that byte.
pub proof fn lemma_reserved_rejected(b: u8)
    requires
        b & 0x20 != 0 || b & 0x40 != 0 || b & 0x80 != 0,
    ensures
        spec_decode(b) == Err::<InputFlags, DecodeError>(DecodeError::InvalidInputBits(b)),
{
    assert(b >= 32) by (bit_vector)
        requires
            b & 0x20 != 0 || b & 0x40 != 0 || b & 0x80 != 0,
    ;
}

/// A valid byte is the encoding of the flags it decodes to.
pub proof fn lemma_encode_decode(b: u8)
    requires
        spec_valid_byte(b),
    ensures
        spec_encode(spec_flags_of(b)) == b,
{
}

impl InputFlags {
    /// The flag set with no control held.
    pub fn empty() -> (r: InputFlags)
        ensures
            !r.up && !r.down && !r.left && !r.right && !r.fire,
            spec_encode(r) == 0,
    {
        InputFlags { up: false, down: false, left: false, right: false, fire: false }
    }

    /// Whether no control is held.
    pub fn is_empty(&self) -> (r: bool)
        ensures
            r == (!self.up && !self.down && !self.left && !self.right && !self.fire),
    {
        !self.up && !self.down && !self.left && !self.right && !self.fire
    }

    /// Whether the control is held.
    pub fn contains(&self, c: GameControl) -> (r: bool)
        ensures
            r == spec_contains(*self, c),
    {
        match c {
            GameControl::Up => self.up,
            GameControl::Down => self.down,
            GameControl::Left => self.left,
            GameControl::Right => self.right,
            GameControl::Fire => self.fire,
        }
    }

    /// Marks the control as held, leaving the others as they were.
    pub fn insert(&mut self, c: GameControl)
        ensures
            spec_contains(*final(self), c),
            forall|o: GameControl| o != c ==> spec_contains(*final(self), o) == spec_contains(
                *old(self),
                o,
            ),
    {
        match c {
            GameControl::Up => self.up = true,
            GameControl::Down => self.down = true,
            GameControl::Left => self.left = true,
            GameControl::Right => self.right = true,
            GameControl::Fire => self.fire = true,
        }
    }

    /// The wire byte of this flag set.
    pub fn encode(&self) -> (r: u8)
        ensures
            r == spec_encode(*self),
            spec_valid_byte(r),
    {
        let u: u8 = if self.up { UP } else { 0 };
        let d: u8 = if self.down { DOWN } else { 0 };
        let l: u8 = if self.left { LEFT } else { 0 };
        let r: u8 = if self.right { RIGHT } else { 0 };
        let f: u8 = if self.fire { FIRE } else { 0 };
        u + d + l + r + f
    }

    /// Same as `encode`.
    pub fn bits(&self) -> (r: u8)
        ensures
            r == spec_encode(*self),
    {
        self.encode()
    }

    /// Reads a wire byte: the flag set it encodes, or `InvalidInputBits` when a
    /// reserved bit is set.
    pub fn decode(b: u8) -> (r: Result<InputFlags, DecodeError>)
        ensures
            r == spec_decode(b),
            r is Ok ==> spec_encode(r->Ok_0) == b,
    {
        proof {
            lemma_bit_tests(b);
        }
        if b & RESERVED != 0 {
            return Err(DecodeError::InvalidInputBits(b));
        }
        proof {
            lemma_encode_decode(b);
        }
        Ok(
            InputFlags {
                up: b & UP != 0,
                down: b & DOWN != 0,
                left: b & LEFT != 0,
                right: b & RIGHT != 0,
                fire: b & FIRE != 0,
            },
        )
    }

    /// The flag set a byte encodes, or `None` when a reserved bit is set.
    pub fn from_bits(b: u8) -> (r: Option<InputFlags>)
        ensures
            r is Some <==> spec_valid_byte(b),
            r is Some ==> r->Some_0 == spec_flags_of(b),
    {
        match InputFlags::decode(b) {
            Ok(f) => Some(f),
            Err(_) => None,
        }
    }
}

/// The input of one participant for one tick, as it travels between peers.
#[derive(Clone, Copy, Debug, PartialEq, Eq, Structural)]
pub struct InputProtocol {
    /// The encoded flag byte.
    pub input: u8,
}

impl InputProtocol {
    /// Wraps the encoding of a flag set.
    pub fn new(input: InputFlags) -> (r: InputProtocol)
        ensures
            r.input == spec_encode(input),
    {
        InputProtocol { input: input.encode() }
    }

    /// Reads the carried byte back as a flag set.
    pub fn to_flags(&self) -> (r: Result<InputFlags, DecodeError>)
        ensures
            r == spec_decode(self.input),
    {
        InputFlags::decode(self.input)
    }
}

impl From<InputFlags> for InputProtocol {
    fn from(input: InputFlags) -> (r: InputProtocol)
        ensures
            r.input == spec_encode(input),
    {
        InputProtocol::new(input)
    }
}

impl vstd::std_specs::convert::FromSpecImpl<InputFlags> for InputProtocol {
    open spec fn obeys_from_spec() -> bool {
        true
    }

    open spec fn from_spec(input: InputFlags) -> InputProtocol {
        InputProtocol { input: spec_encode(input) }
    }
}

} // verus!
