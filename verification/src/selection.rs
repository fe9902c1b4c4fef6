//! The selection: the highlighted position in the displayed list.

use vstd::prelude::*;
use vstd::arithmetic::div_mod::{lemma_fundamental_div_mod, lemma_fundamental_div_mod_converse};

verus! {

/// The selection after a step forward in a list of `len` entries: unchanged
/// in an empty list, the first entry if none was selected, else the next
/// entry, and the first after the last.
pub open spec fn advanced(index: Option<usize>, len: nat) -> Option<usize> {
    if len == 0 {
        index
    } else {
        match index {
            None => Some(0usize),
            Some(i) => Some(((i + 1) % (len as int)) as usize),
        }
    }
}

/// The selection after a step back in a list of `len` entries: unchanged in
/// an empty list, the first entry if none was selected, else the entry
/// before, and the last before the first.
pub open spec fn retreated(index: Option<usize>, len: nat) -> Option<usize> {
    if len == 0 {
        index
    } else {
        match index {
            None => Some(0usize),
            Some(i) => Some(((i + len - 1) % (len as int)) as usize),
        }
    }
}

/// The selection after the selected entry was removed and `len` entries
/// are left: none in an empty list, else the same position, or the last
/// entry if that position is gone.
pub open spec fn clamped(index: usize, len: nat) -> Option<usize> {
    if len == 0 {
        None
    } else if index < len {
        Some(index)
    } else {
        Some((len - 1) as usize)
    }
}

/// A selection is in range for a list when it is none or a position of the list.
pub open spec fn in_range(index: Option<usize>, len: nat) -> bool {
    match index {
        None => true,
        Some(i) => i < len,
    }
}

/// The highlighted position in the displayed list, if any.
#[derive(Clone, Copy, Debug)]
pub struct Selection {
    pub index: Option<usize>,
}

impl Selection {
    /// A selection of nothing.
    pub fn new() -> (s: Selection)
        ensures
            s.index is None,
    {
        Selection { index: None }
    }

    /// The selected position.
    pub fn selected(&self) -> (index: Option<usize>)
        ensures
            index == self.index,
    {
        self.index
    }

    /// Selects a position, or nothing.
    pub fn select(&mut self, index: Option<usize>)
        ensures
            final(self).index == index,
    {
        self.index = index;
    }

    /// Steps forward in a list of `len` entries, from the last entry to the first.
    pub fn advance(&mut self, len: usize)
        ensures
            final(self).index == advanced(old(self).index, len as nat),
            len > 0 ==> in_range(final(self).index, len as nat),
    {
        if len == 0 {
            return ;
        }
        match self.index {
            None => {
                self.index = Some(0);
            },
            Some(i) => {
                let r: usize = i % len;
                let next: usize = if r == len - 1 {
                    0
                } else {
                    r + 1
                };
                proof {
                    let q = i as int / len as int;
                    lemma_fundamental_div_mod(i as int, len as int);
                    if r == len - 1 {
                        assert(i + 1 == (q + 1) * len + 0) by (nonlinear_arith)
                            requires
                                i == len * q + r,
                                r == len - 1,
                        ;
                        lemma_fundamental_div_mod_converse(i + 1, len as int, q + 1, 0);
                    } else {
                        assert(i + 1 == q * len + (r + 1)) by (nonlinear_arith)
                            requires
                                i == len * q + r,
                        ;
                        lemma_fundamental_div_mod_converse(i + 1, len as int, q, r + 1);
                    }
                }
                self.index = Some(next);
            },
        }
    }

    /// Steps back in a list of `len` entries, from the first entry to the last.
    pub fn retreat(&mut self, len: usize)
        ensures
            final(self).index == retreated(old(self).index, len as nat),
            len > 0 ==> in_range(final(self).index, len as nat),
    {
        if len == 0 {
            return ;
        }
        match self.index {
            None => {
                self.index = Some(0);
            },
            Some(i) => {
                let r: usize = i % len;
                let next: usize = if r == 0 {
                    len - 1
                } else {
                    r - 1
                };
                proof {
                    let q = i as int / len as int;
                    lemma_fundamental_div_mod(i as int, len as int);
                    if r == 0 {
                        assert(i + len - 1 == q * len + (len - 1)) by (nonlinear_arith)
                            requires
                                i == len * q + r,
                                r == 0,
                        ;
                        lemma_fundamental_div_mod_converse(i + len - 1, len as int, q, len - 1);
                    } else {
                        assert(i + len - 1 == (q + 1) * len + (r - 1)) by (nonlinear_arith)
                            requires
                                i == len * q + r,
                        ;
                        lemma_fundamental_div_mod_converse(i + len - 1, len as int, q + 1, r - 1);
                    }
                }
                self.index = Some(next);
            },
        }
    }

    /// Repairs the selection after the entry at `index` was removed and
    /// `len` entries are left.
    pub fn clamp(&mut self, index: usize, len: usize)
        ensures
            final(self).index == clamped(index, len as nat),
            in_range(final(self).index, len as nat),
            final(self).index is None <==> len == 0,
    {
        if len == 0 {
            self.index = None;
        } else if index < len {
            self.index = Some(index);
        } else {
            self.index = Some(len - 1);
        }
    }
}

} // verus!
