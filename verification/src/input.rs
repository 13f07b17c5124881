//! The per-frame input of one player: a set of named buttons packed in a byte.

use vstd::prelude::*;

verus! {

/// One of the four buttons a player can hold during a frame.
#[derive(Clone, Copy, Debug, PartialEq, Eq, Hash, Structural)]
pub enum Button {
    Shoot,
    Left,
    Right,
    Jump,
}

/// The state of the four keys the buttons are bound to.
#[derive(Clone, Copy, Debug, PartialEq, Eq, Structural)]
pub struct Keys {
    /// The key bound to [`Button::Shoot`].
    pub a: bool,
    /// The key bound to [`Button::Left`].
    pub left: bool,
    /// The key bound to [`Button::Right`].
    pub right: bool,
    /// The key bound to [`Button::Jump`].
    pub space: bool,
}

impl Keys {
    /// Whether the key bound to `button` is down.
    pub open spec fn down(self, button: Button) -> bool {
        match button {
            Button::Shoot => self.a,
            Button::Left => self.left,
            Button::Right => self.right,
            Button::Jump => self.space,
        }
    }
}

/// The bit that stands for a button in the packed byte.
pub open spec fn button_mask(button: Button) -> u8 {
    match button {
        Button::Shoot => 1u8,
        Button::Left => 2u8,
        Button::Right => 4u8,
        Button::Jump => 8u8,
    }
}

/// The bit that stands for `button` in the packed byte.
pub fn mask_of(button: Button) -> (m: u8)
    ensures
        m == button_mask(button),
{
    match button {
        Button::Shoot => 1,
        Button::Left => 2,
        Button::Right => 4,
        Button::Jump => 8,
    }
}

/// The buttons held by one player during one frame.
///
/// The value is one byte and nothing else, so that two inputs are equal
/// exactly when the same buttons are held.
#[derive(Clone, Copy, Debug, PartialEq, Eq, Hash, Structural)]
pub struct Input {
    bits: u8,
}

impl Input {
    /// The packed byte.
    pub closed spec fn spec_bits(self) -> u8 {
        self.bits
    }

    /// Whether `button` is held.
    pub open spec fn has(self, button: Button) -> bool {
        self.spec_bits() & button_mask(button) != 0
    }

    /// No bit outside the four buttons is set.
    pub open spec fn wf(self) -> bool {
        self.spec_bits() & 0xf0u8 == 0
    }

    /// The input with no button held.
    pub fn empty() -> (r: Input)
        ensures
            r.spec_bits() == 0,
            r.wf(),
            forall|b: Button| !r.has(b),
    {
        assert(forall|m: u8| 0u8 & m == 0) by (bit_vector);
        Input { bits: 0 }
    }

    /// The input whose packed byte is `bits` without the bits that stand for
    /// no button.
    pub fn from_bits_truncate(bits: u8) -> (r: Input)
        ensures
            r.spec_bits() == bits & 0x0fu8,
            r.wf(),
            forall|b: Button| r.has(b) == (bits & button_mask(b) != 0),
    {
        assert((bits & 0x0fu8) & 0xf0u8 == 0 && (bits & 0x0fu8) & 1u8 == bits & 1u8 && (bits
            & 0x0fu8) & 2u8 == bits & 2u8 && (bits & 0x0fu8) & 4u8 == bits & 4u8 && (bits & 0x0fu8)
            & 8u8 == bits & 8u8) by (bit_vector);
        Input { bits: bits & 0x0f }
    }

    /// The packed byte: bit 0 is Shoot, bit 1 Left, bit 2 Right, bit 3 Jump.
    pub fn bits(&self) -> (b: u8)
        ensures
            b == self.spec_bits(),
    {
        self.bits
    }

    /// Whether `button` is held.
    pub fn contains(&self, button: Button) -> (held: bool)
        ensures
            held == self.has(button),
    {
        self.bits & mask_of(button) != 0
    }

    /// Holds `button` down; the other buttons stay as they are.
    pub fn insert(&mut self, button: Button)
        ensures
            final(self).has(button),
            forall|b: Button| b != button ==> final(self).has(b) == old(self).has(b),
            old(self).wf() ==> final(self).wf(),
            final(self).spec_bits() == old(self).spec_bits() | button_mask(button),
    {
        let m = mask_of(button);
        let ghost before = self.bits;
        self.bits = self.bits | m;
        proof {
            lemma_insert_bit(before, button);
        }
    }

    /// The buttons whose keys are down.
    pub fn current(keys: Keys) -> (r: Input)
        ensures
            r.wf(),
            forall|b: Button| r.has(b) == keys.down(b),
    {
        let mut r = Input::empty();
        if keys.a {
            r.insert(Button::Shoot);
        }
        if keys.left {
            r.insert(Button::Left);
        }
        if keys.right {
            r.insert(Button::Right);
        }
        if keys.space {
            r.insert(Button::Jump);
        }
        r
    }
}

/// Setting the bit of one button sets that button and no other, and leaves
/// the upper four bits alone.
proof fn lemma_insert_bit(bits: u8, button: Button)
    ensures
        (bits | button_mask(button)) & button_mask(button) != 0,
        forall|b: Button|
            b != button ==> (((bits | button_mask(button)) & button_mask(b) != 0) == (bits
                & button_mask(b) != 0)),
        bits & 0xf0u8 == 0 ==> (bits | button_mask(button)) & 0xf0u8 == 0,
{
    assert((bits | 1u8) & 1u8 != 0 && (bits | 2u8) & 2u8 != 0 && (bits | 4u8) & 4u8 != 0 && (bits
        | 8u8) & 8u8 != 0) by (bit_vector);
    assert(forall|m: u8, n: u8|
        (m == 1 || m == 2 || m == 4 || m == 8) && (n == 1 || n == 2 || n == 4 || n == 8) && m
            != n ==> #[trigger] ((bits | m) & n) == bits & n) by (bit_vector);
    assert(forall|m: u8|
        (m == 1 || m == 2 || m == 4 || m == 8) && bits & 0xf0u8 == 0 ==> #[trigger] (bits | m)
            & 0xf0u8 == 0) by (bit_vector);
}

/// Two inputs are equal exactly when the same buttons are held: comparing two
/// inputs, as a session does to tell a right guess from a wrong one, compares
/// what the players did and nothing else.
pub proof fn lemma_equal_iff_same_buttons(a: Input, b: Input)
    requires
        a.wf(),
        b.wf(),
    ensures
        (a == b) <==> (forall|button: Button| a.has(button) == b.has(button)),
{
    let x = a.bits;
    let y = b.bits;
    if forall|button: Button| a.has(button) == b.has(button) {
        assert(a.has(Button::Shoot) == b.has(Button::Shoot));
        assert(a.has(Button::Left) == b.has(Button::Left));
        assert(a.has(Button::Right) == b.has(Button::Right));
        assert(a.has(Button::Jump) == b.has(Button::Jump));
        assert(x & 0xf0u8 == 0 && y & 0xf0u8 == 0 && ((x & 1u8 != 0) == (y & 1u8 != 0)) && ((x
            & 2u8 != 0) == (y & 2u8 != 0)) && ((x & 4u8 != 0) == (y & 4u8 != 0)) && ((x & 8u8
            != 0) == (y & 8u8 != 0)) ==> x == y) by (bit_vector);
    }
}

} // verus!
