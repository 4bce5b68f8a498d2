use vstd::prelude::*;

verus! {

/// The block that placing a block puts down: one of a list of scene
/// characters, cycled forwards and backwards.
pub struct BlockSelector {
    options: Vec<char>,
    sel_idx: usize,
}

impl BlockSelector {
    pub closed spec fn choices(&self) -> Seq<char> {
        self.options@
    }

    pub closed spec fn selected(&self) -> nat {
        self.sel_idx as nat
    }

    pub closed spec fn wf(&self) -> bool {
        self.options@.len() == 0 || self.sel_idx < self.options@.len()
    }

    /// The selected character; `'X'` when there is none to select.
    pub open spec fn current(&self) -> char {
        if self.selected() < self.choices().len() {
            self.choices()[self.selected() as int]
        } else {
            'X'
        }
    }

    /// A selector over `options` with the first one selected.
    pub fn new(options: Vec<char>) -> (s: BlockSelector)
        ensures
            s.wf(),
            s.choices() == options@,
            s.selected() == 0,
    {
        BlockSelector { options, sel_idx: 0 }
    }

    pub fn sel_idx(&self) -> (r: usize)
        ensures
            r == self.selected(),
    {
        self.sel_idx
    }

    pub fn options(&self) -> (r: &Vec<char>)
        ensures
            r@ == self.choices(),
    {
        &self.options
    }

    pub fn current_block_char(&self) -> (r: char)
        ensures
            r == self.current(),
    {
        if self.sel_idx < self.options.len() {
            self.options[self.sel_idx]
        } else {
            'X'
        }
    }

    /// Selects the following option, wrapping from the last to the first.
    pub fn next(&mut self)
        requires
            old(self).wf(),
        ensures
            final(self).wf(),
            final(self).choices() == old(self).choices(),
            old(self).choices().len() == 0 ==> final(self).selected() == old(self).selected(),
            old(self).choices().len() > 0 ==> final(self).selected() == (old(self).selected() + 1)
                % old(self).choices().len(),
    {
        if self.options.len() > 0 {
            self.sel_idx = (self.sel_idx + 1) % self.options.len();
        }
    }

    /// Selects the preceding option, wrapping from the first to the last.
    pub fn prev(&mut self)
        requires
            old(self).wf(),
        ensures
            final(self).wf(),
            final(self).choices() == old(self).choices(),
            old(self).choices().len() == 0 ==> final(self).selected() == old(self).selected(),
            old(self).choices().len() > 0 ==> final(self).selected() == if old(self).selected() == 0 {
                (old(self).choices().len() - 1) as nat
            } else {
                (old(self).selected() - 1) as nat
            },
    {
        if self.options.len() > 0 {
            if self.sel_idx == 0 {
                self.sel_idx = self.options.len() - 1;
            } else {
                self.sel_idx = self.sel_idx - 1;
            }
        }
    }
}

} // verus!
