use vstd::prelude::*;

verus! {

/// The nesting depth at which a line of a check log is printed.
#[derive(Clone, Copy)]
pub struct Indent(pub usize);

impl Indent {
    /// The depth one level deeper.
    pub open spec fn deeper(self) -> Indent {
        Indent((self.0 + 1) as usize)
    }

    /// The depth one level shallower; the top level stays the top level.
    pub open spec fn shallower(self) -> Indent {
        if self.0 == 0 {
            self
        } else {
            Indent((self.0 - 1) as usize)
        }
    }

    /// One level deeper.
    pub fn increase(&mut self)
        requires
            old(self).0 < usize::MAX,
        ensures
            *final(self) == old(self).deeper(),
    {
        self.0 = self.0 + 1;
    }

    /// One level shallower; the top level stays the top level.
    pub fn decrease(&mut self)
        ensures
            *final(self) == old(self).shallower(),
    {
        self.0 = self.0.saturating_sub(1);
    }
}

/// Going one level deeper and back up again returns to the same depth.
pub proof fn lemma_decrease_undoes_increase(i: Indent)
    requires
        i.0 < usize::MAX,
    ensures
        i.deeper().shallower() == i,
        i.deeper().0 == i.0 + 1,
{
}

} // verus!
