use vstd::prelude::*;

use crate::base::Base;

verus! {

/// A cell of the rewriting workspace: a base of the strand being rewritten,
/// and the base paired with it on the complementary strand, each possibly absent.
#[derive(Debug, PartialEq, Eq, Structural, Clone, Copy)]
pub struct BasePair {
    pub bind: Option<Base>,
    pub comp: Option<Base>,
}

impl BasePair {
    /// The cell with its two slots exchanged.
    pub open spec fn swapped(self) -> BasePair {
        BasePair { bind: self.comp, comp: self.bind }
    }

    /// The cell with its complement slot filled from its primary slot, where
    /// that one holds a base.
    pub open spec fn filled(self) -> BasePair {
        match self.bind {
            Some(b) => BasePair { bind: self.bind, comp: Some(b.complement()) },
            None => self,
        }
    }

    pub fn swap(&mut self)
        ensures
            *final(self) == old(self).swapped(),
    {
        let bind = self.bind;
        self.bind = self.comp;
        self.comp = bind;
    }

    pub fn add_comp(&mut self)
        ensures
            *final(self) == old(self).filled(),
    {
        if let Some(bind_base) = self.bind {
            self.comp = Some(bind_base.get_complement());
        }
    }
}

} // verus!
