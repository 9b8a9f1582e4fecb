use vstd::prelude::*;

verus! {

/// An ordered mapping from a 32-bit unsigned code to a symbolic name.
///
/// Entries are kept sorted by strictly ascending code, so every code occurs at
/// most once and walking the entries in order enumerates the codes in
/// ascending order. Viewed abstractly as a `Map<u32, Seq<char>>`.
pub struct EnumTable {
    pub entries: Vec<(u32, String)>,
}

impl EnumTable {
    /// The entries are sorted by strictly ascending code.
    pub open spec fn wf(self) -> bool {
        forall|i: int, j: int|
            0 <= i < j < self.entries@.len() ==> self.entries@[i].0 < self.entries@[j].0
    }

    pub open spec fn spec_has(self, code: u32) -> bool {
        exists|i: int| 0 <= i < self.entries@.len() && self.entries@[i].0 == code
    }

    pub open spec fn spec_index_of(self, code: u32) -> int {
        choose|i: int| 0 <= i < self.entries@.len() && self.entries@[i].0 == code
    }

    pub open spec fn spec_at(self, code: u32) -> Seq<char> {
        self.entries@[self.spec_index_of(code)].1@
    }

    /// Each entry is visible in the view, under its own code.
    pub proof fn lemma_entries_in_view(self)
        requires
            self.wf(),
        ensures
            forall|i: int|
                #![trigger self.entries@[i]]
                0 <= i < self.entries@.len() ==> self@.contains_key(self.entries@[i].0)
                    && self@[self.entries@[i].0] == self.entries@[i].1@,
    {
        assert forall|i: int|
            #![trigger self.entries@[i]]
            0 <= i < self.entries@.len() implies self@.contains_key(self.entries@[i].0)
            && self@[self.entries@[i].0] == self.entries@[i].1@ by {
            let code = self.entries@[i].0;
            assert(self.spec_has(code));
            let k = self.spec_index_of(code);
            assert(0 <= k < self.entries@.len() && self.entries@[k].0 == code);
            if k < i {
                assert(self.entries@[k].0 < self.entries@[i].0);
            } else if i < k {
                assert(self.entries@[i].0 < self.entries@[k].0);
            }
            assert(k == i);
        }
    }

    pub fn new() -> (r: EnumTable)
        ensures
            r.wf(),
            r@ == Map::<u32, Seq<char>>::empty(),
            r.entries@.len() == 0,
    {
        let r = EnumTable { entries: Vec::new() };
        proof {
            assert(r@ =~= Map::<u32, Seq<char>>::empty());
        }
        r
    }

    pub fn len(&self) -> (n: usize)
        ensures
            n == self.entries@.len(),
    {
        self.entries.len()
    }

    /// Looks a code up, as the view's map does.
    pub fn get(&self, code: u32) -> (r: Option<&String>)
        requires
            self.wf(),
        ensures
            match r {
                Some(name) => self@.contains_key(code) && name@ == self@[code],
                None => !self@.contains_key(code),
            },
    {
        let n = self.entries.len();
        let mut i: usize = 0;
        while i < n
            invariant
                self.wf(),
                n == self.entries@.len(),
                0 <= i <= n,
                forall|j: int| 0 <= j < i ==> self.entries@[j].0 != code,
            decreases n - i,
        {
            if self.entries[i].0 == code {
                proof {
                    self.lemma_entries_in_view();
                }
                return Some(&self.entries[i].1);
            }
            i += 1;
        }
        proof {
            assert(!self.spec_has(code));
        }
        None
    }

    /// The index of the first entry whose code is not below `code`.
    fn find_pos(&self, code: u32) -> (pos: usize)
        requires
            self.wf(),
        ensures
            0 <= pos <= self.entries@.len(),
            forall|j: int| 0 <= j < pos ==> self.entries@[j].0 < code,
            pos < self.entries@.len() ==> self.entries@[pos as int].0 >= code,
    {
        let n = self.entries.len();
        let mut pos: usize = 0;
        while pos < n && self.entries[pos].0 < code
            invariant
                self.wf(),
                n == self.entries@.len(),
                0 <= pos <= n,
                forall|j: int| 0 <= j < pos ==> self.entries@[j].0 < code,
            decreases n - pos,
        {
            pos += 1;
        }
        pos
    }

    /// Inserts only when the code is absent: an existing entry is kept.
    pub fn insert_if_absent(&mut self, code: u32, name: String)
        requires
            old(self).wf(),
        ensures
            final(self).wf(),
            final(self)@ == if old(self)@.contains_key(code) {
                old(self)@
            } else {
                old(self)@.insert(code, name@)
            },
    {
        let pos = self.find_pos(code);
        let ghost prev = *self;
        if pos < self.entries.len() && self.entries[pos].0 == code {
            proof {
                assert(self.spec_has(code));
            }
        } else {
            proof {
                if prev.spec_has(code) {
                    let k = prev.spec_index_of(code);
                    assert(0 <= k < prev.entries@.len() && prev.entries@[k].0 == code);
                    if k > pos {
                        assert(prev.entries@[pos as int].0 < prev.entries@[k].0);
                    }
                    assert(false);
                }
            }
            self.entries.insert(pos, (code, name));
            proof {
                assert forall|j: int| pos < j < self.entries@.len() implies
                    self.entries@[j].0 > code by {
                    assert(self.entries@[j] == prev.entries@[j - 1]);
                    assert(prev.entries@[j - 1].0 >= code);
                    assert(prev.entries@[j - 1].0 != code);
                }
                self.lemma_sorted_after_insert(prev, pos as int, code);
                self.lemma_view_after_insert(prev, pos as int, code, name@);
            }
        }
    }

    /// Inserts, overwriting any entry already present for the code.
    pub fn insert(&mut self, code: u32, name: String)
        requires
            old(self).wf(),
        ensures
            final(self).wf(),
            final(self)@ == old(self)@.insert(code, name@),
    {
        let ghost prev = *self;
        self.remove(code);
        proof {
            assert(!self@.contains_key(code));
        }
        self.insert_if_absent(code, name);
        proof {
            assert(self@ =~= prev@.insert(code, name@));
        }
    }

    /// Removes the entry for the code, if one is present.
    pub fn remove(&mut self, code: u32)
        requires
            old(self).wf(),
        ensures
            final(self).wf(),
            final(self)@ == old(self)@.remove(code),
    {
        let pos = self.find_pos(code);
        let ghost prev = *self;
        if pos < self.entries.len() && self.entries[pos].0 == code {
            self.entries.remove(pos);
            proof {
                assert forall|i: int, j: int| 0 <= i < j < self.entries@.len() implies
                    self.entries@[i].0 < self.entries@[j].0 by {
                    if i >= pos {
                        assert(self.entries@[i] == prev.entries@[i + 1]);
                    }
                    if j >= pos {
                        assert(self.entries@[j] == prev.entries@[j + 1]);
                    }
                }
                prev.lemma_entries_in_view();
                self.lemma_entries_in_view();
                assert forall|c: u32| self@.contains_key(c) implies
                    prev@.remove(code).contains_key(c) && self@[c] == prev@.remove(code)[c] by {
                    let k = self.spec_index_of(c);
                    assert(0 <= k < self.entries@.len() && self.entries@[k].0 == c);
                    let ghost kp = if k < pos { k } else { k + 1 };
                    assert(prev.entries@[kp] == self.entries@[k]);
                    if kp == pos {
                        assert(false);
                    }
                    assert(c != code);
                };
                assert forall|c: u32| prev@.remove(code).contains_key(c) implies
                    self@.contains_key(c) by {
                    let k = prev.spec_index_of(c);
                    assert(0 <= k < prev.entries@.len() && prev.entries@[k].0 == c);
                    if k == pos {
                        assert(false);
                    }
                    let ghost kn = if k < pos { k } else { k - 1 };
                    assert(self.entries@[kn] == prev.entries@[k]);
                };
                assert(self@ =~= prev@.remove(code));
            }
        } else {
            proof {
                if prev.spec_has(code) {
                    let k = prev.spec_index_of(code);
                    assert(0 <= k < prev.entries@.len() && prev.entries@[k].0 == code);
                    if k > pos {
                        assert(prev.entries@[pos as int].0 < prev.entries@[k].0);
                    }
                    assert(false);
                }
                assert(self@ =~= prev@.remove(code));
            }
        }
    }

    proof fn lemma_sorted_after_insert(self, prev: EnumTable, pos: int, code: u32)
        requires
            prev.wf(),
            0 <= pos <= prev.entries@.len(),
            forall|j: int| 0 <= j < pos ==> prev.entries@[j].0 < code,
            self.entries@ == prev.entries@.insert(pos, self.entries@[pos]),
            self.entries@[pos].0 == code,
            forall|j: int| pos < j < self.entries@.len() ==> self.entries@[j].0 > code,
        ensures
            self.wf(),
    {
        assert forall|i: int, j: int| 0 <= i < j < self.entries@.len() implies
            self.entries@[i].0 < self.entries@[j].0 by {
            if i < pos {
                assert(self.entries@[i] == prev.entries@[i]);
            }
            if j < pos {
                assert(self.entries@[j] == prev.entries@[j]);
            }
            if i > pos {
                assert(self.entries@[i] == prev.entries@[i - 1]);
            }
            if j > pos {
                assert(self.entries@[j] == prev.entries@[j - 1]);
            }
        }
    }

    proof fn lemma_view_after_insert(self, prev: EnumTable, pos: int, code: u32, name: Seq<char>)
        requires
            prev.wf(),
            self.wf(),
            0 <= pos <= prev.entries@.len(),
            self.entries@ == prev.entries@.insert(pos, self.entries@[pos]),
            self.entries@[pos].0 == code,
            self.entries@[pos].1@ == name,
        ensures
            self@ == prev@.insert(code, name),
    {
        prev.lemma_entries_in_view();
        self.lemma_entries_in_view();
        assert forall|c: u32| self@.contains_key(c) implies
            prev@.insert(code, name).contains_key(c)
            && self@[c] == prev@.insert(code, name)[c] by {
            let k = self.spec_index_of(c);
            assert(0 <= k < self.entries@.len() && self.entries@[k].0 == c);
            if k == pos {
                assert(c == code);
                assert(self@[c] == name);
            } else {
                assert(c != code) by {
                    if self.entries@[k].0 == self.entries@[pos].0 {
                        if k < pos {
                            assert(self.entries@[k].0 < self.entries@[pos].0);
                        } else {
                            assert(self.entries@[pos].0 < self.entries@[k].0);
                        }
                    }
                }
                let ghost kp = if k < pos { k } else { k - 1 };
                assert(prev.entries@[kp] == self.entries@[k]);
            }
        };
        assert forall|c: u32| prev@.insert(code, name).contains_key(c) implies
            self@.contains_key(c) by {
            if c == code {
                assert(self.entries@[pos].0 == c);
            } else {
                let k = prev.spec_index_of(c);
                assert(0 <= k < prev.entries@.len() && prev.entries@[k].0 == c);
                let ghost kn = if k < pos { k } else { k + 1 };
                assert(self.entries@[kn] == prev.entries@[k]);
            }
        };
        assert(self@ =~= prev@.insert(code, name));
    }
}

impl View for EnumTable {
    type V = Map<u32, Seq<char>>;

    open spec fn view(&self) -> Map<u32, Seq<char>> {
        Map::new(|code: u32| self.spec_has(code), |code: u32| self.spec_at(code))
    }
}

} // verus!
