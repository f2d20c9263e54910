//! Who speaks on the wire, and what a parameter is called.

use crate::sorted::{before, law_before_irreflexive, lemma_before_two, Key, Rank};
use crate::text::chars_of;
use vstd::prelude::*;

verus! {

/// A system on the network and a component in it.
#[derive(Clone, Copy, Debug, PartialEq, Eq, PartialOrd, Ord, Structural)]
pub struct MavlinkId {
    pub system: u8,
    pub component: u8,
}

impl Key for MavlinkId {
    open spec fn rank(&self) -> Seq<int> {
        seq![self.system as int, self.component as int]
    }

    fn against(&self, other: &Self) -> (r: Rank) {
        proof {
            lemma_before_two(
                self.system as int,
                self.component as int,
                other.system as int,
                other.component as int,
            );
        }
        if self.system < other.system || (self.system == other.system && self.component
            < other.component) {
            Rank::Before
        } else if self.system == other.system && self.component == other.component {
            Rank::Same
        } else {
            Rank::Behind
        }
    }
}

/// Two ids with one rank are one id.
pub proof fn lemma_mavlink_rank(a: MavlinkId, b: MavlinkId)
    ensures
        a.rank() == b.rank() <==> a == b,
{
    lemma_before_two(a.system as int, a.component as int, b.system as int, b.component as int);
}

/// An id packed into sixteen bits, the system in the low byte.
#[derive(Debug)]
pub struct AtomicMavlinkId(u16);

impl View for AtomicMavlinkId {
    type V = MavlinkId;

    closed spec fn view(&self) -> MavlinkId {
        MavlinkId { system: (self.0 % 0x100) as u8, component: (self.0 / 0x100) as u8 }
    }
}

impl AtomicMavlinkId {
    /// The cell that holds the id of `sys` and `com`.
    pub fn new(sys: u8, com: u8) -> (r: Self)
        ensures
            r@ == (MavlinkId { system: sys, component: com }),
    {
        Self(sys as u16 + 0x100 * com as u16)
    }

    /// The id that the cell holds.
    pub fn load(&self) -> (r: MavlinkId)
        ensures
            r == self@,
    {
        let system: u8 = (self.0 % 0x100) as u8;
        let component: u8 = (self.0 / 0x100) as u8;
        MavlinkId { system, component }
    }

    /// Puts another id into the cell.
    pub fn store(&mut self, mav_id: MavlinkId)
        ensures
            final(self)@ == mav_id,
    {
        self.0 = mav_id.system as u16 + 0x100 * mav_id.component as u16;
    }
}

/// The most bytes that the wire has for a parameter's name.
pub const IDENT_SIZE: usize = 16;

/// The name of a parameter: a text of at most sixteen bytes.
#[derive(Debug)]
pub struct Ident {
    text: String,
}

impl View for Ident {
    type V = Seq<char>;

    closed spec fn view(&self) -> Seq<char> {
        self.text@
    }
}

/// A text that fits the wire as a parameter's name.
pub open spec fn fits_ident(text: Seq<char>) -> bool {
    vstd::utf8::encode_utf8(text).len() <= IDENT_SIZE
}

/// The numbers that a text is ordered by: its characters.
pub open spec fn text_rank(text: Seq<char>) -> Seq<int> {
    Seq::new(text.len(), |i: int| text[i] as int)
}

impl Ident {
    #[verifier::type_invariant]
    spec fn inv(self) -> bool {
        fits_ident(self.text@)
    }

    /// The name made of a text; `None` where the text is too long.
    pub fn new(text: &str) -> (r: Option<Ident>)
        ensures
            r is Some <==> fits_ident(text@),
            r matches Some(ident) ==> ident@ == text@,
    {
        if text.as_bytes().len() <= IDENT_SIZE {
            let copy = text.to_owned();
            Some(Ident { text: copy })
        } else {
            None
        }
    }

    /// The text of the name.
    pub fn as_str(&self) -> (r: &str)
        ensures
            r@ == self@,
            fits_ident(self@),
    {
        proof {
            use_type_invariant(self);
        }
        self.text.as_str()
    }
}

impl Clone for Ident {
    fn clone(&self) -> (r: Self)
        ensures
            r == *self,
    {
        proof {
            use_type_invariant(self);
        }
        Ident { text: self.text.clone() }
    }
}

impl Key for Ident {
    open spec fn rank(&self) -> Seq<int> {
        text_rank(self@)
    }

    fn against(&self, other: &Self) -> (r: Rank) {
        text_against(self.text.as_str(), other.text.as_str())
    }
}

/// Compares two texts by their characters.
pub fn text_against(left: &str, right: &str) -> (r: Rank)
    ensures
        r == Rank::Before <==> before(text_rank(left@), text_rank(right@)),
        r == Rank::Same <==> text_rank(left@) == text_rank(right@),
{
    let a = chars_of(left);
    let b = chars_of(right);
    let ghost x = text_rank(left@);
    let ghost y = text_rank(right@);
    let mut i: usize = 0;
    assert(x.skip(0) =~= x);
    assert(y.skip(0) =~= y);
    while i < a.len() && i < b.len() && a[i] == b[i]
        invariant
            i <= a@.len(),
            i <= b@.len(),
            a@ == left@,
            b@ == right@,
            x == text_rank(left@),
            y == text_rank(right@),
            forall|k: int| 0 <= k < i ==> x[k] == y[k],
            before(x, y) == before(x.skip(i as int), y.skip(i as int)),
        decreases a@.len() - i,
    {
        assert(x.skip(i as int).skip(1) =~= x.skip(i as int + 1));
        assert(y.skip(i as int).skip(1) =~= y.skip(i as int + 1));
        i += 1;
    }
    if i == b.len() {
        if i == a.len() {
            assert(x =~= y);
            proof {
                law_before_irreflexive(x);
            }
            Rank::Same
        } else {
            Rank::Behind
        }
    } else if i == a.len() {
        Rank::Before
    } else {
        assert(x[i as int] != y[i as int]);
        if a[i] < b[i] {
            Rank::Before
        } else {
            Rank::Behind
        }
    }
}

/// Two texts with one rank are one text.
pub proof fn lemma_text_rank(a: Seq<char>, b: Seq<char>)
    ensures
        text_rank(a) == text_rank(b) <==> a == b,
{
    if text_rank(a) == text_rank(b) {
        assert(a.len() == text_rank(a).len());
        assert(b.len() == text_rank(b).len());
        assert forall|i: int| 0 <= i < a.len() implies a[i] == b[i] by {
            assert(text_rank(a)[i] == text_rank(b)[i]);
            assert(a[i] as int == b[i] as int);
        }
        assert(a =~= b);
    }
}

} // verus!
