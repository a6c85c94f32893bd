use rand::Rng;
use vstd::prelude::*;

verus! {

/// A seat's card is drawn by `rand::Rng::gen_range(0..len)` on
/// `rand::thread_rng()`. rand documents the result as lying in the
/// half-open range, and the call panics on an empty range, which
/// `requires` leaves out. Which index comes out is chance: nothing more is
/// claimed of it.
#[verifier::external_body]
fn random_index(len: usize) -> (index: usize)
    requires
        len > 0,
    ensures
        index < len,
{
    rand::thread_rng().gen_range(0..len)
}

/// The time of a finished game: `chrono::Local::now()` written by
/// `to_rfc3339`. It depends on the clock and the machine's time zone, so
/// nothing is claimed of the text.
#[verifier::external_body]
pub(crate) fn current_timestamp() -> (stamp: String) {
    chrono::Local::now().to_rfc3339()
}

/// One answer of the random source: how many cards it was asked to choose
/// among, and the index it chose. Only `draw` makes one, so a `Draw` always
/// is what the random source answered.
pub struct Draw {
    range: usize,
    index: usize,
}

impl Draw {
    /// How many cards the random source was asked to choose among.
    pub closed spec fn range(self) -> nat {
        self.range as nat
    }

    /// The index the random source chose.
    pub closed spec fn index(self) -> nat {
        self.index as nat
    }

    /// The index the random source chose.
    pub fn chosen(&self) -> (index: usize)
        ensures
            index == self.index(),
    {
        self.index
    }
}

/// Asks the random source for an index among `len` cards.
pub(crate) fn draw(len: usize) -> (d: Draw)
    requires
        len > 0,
    ensures
        d.range() == len,
        d.index() < len,
{
    Draw { range: len, index: random_index(len) }
}

} // verus!
