//! Sets of lines by file.
use crate::path_map::PathMap;
use crate::text::owned;
use vstd::prelude::*;

verus! {

/// A set of line numbers, kept in ascending order.
pub struct LineSet {
    lines: Vec<u64>,
}

/// Whether numbers are strictly ascending.
pub open spec fn is_ascending(lines: Seq<u64>) -> bool {
    forall|i: int, j: int| 0 <= i < j < lines.len() ==> lines[i] < lines[j]
}

proof fn lemma_ascending_set(lines: Seq<u64>)
    requires
        is_ascending(lines),
    ensures
        lines.to_set().finite(),
        lines.to_set().len() == lines.len(),
    decreases lines.len(),
{
    if lines.len() == 0 {
        assert(lines.to_set() =~= Set::<u64>::empty());
    } else {
        let front = lines.drop_last();
        assert(is_ascending(front));
        lemma_ascending_set(front);
        assert(!front.to_set().contains(lines.last())) by {
            if front.contains(lines.last()) {
                let i = choose|i: int| 0 <= i < front.len() && front[i] == lines.last();
                assert(lines[i] < lines[lines.len() - 1]);
            }
        }
        assert(lines.to_set() =~= front.to_set().insert(lines.last())) by {
            assert forall|x: u64| lines.to_set().contains(x) == front.to_set().insert(
                lines.last(),
            ).contains(x) by {
                if lines.contains(x) {
                    let i = choose|i: int| 0 <= i < lines.len() && lines[i] == x;
                    if i < front.len() {
                        assert(front[i] == x);
                    }
                }
                if front.contains(x) {
                    let i = choose|i: int| 0 <= i < front.len() && front[i] == x;
                    assert(lines[i] == x);
                }
                assert(lines[lines.len() - 1] == lines.last());
            }
        }
    }
}

impl View for LineSet {
    type V = Set<u64>;

    closed spec fn view(&self) -> Set<u64> {
        self.lines@.to_set()
    }
}

impl LineSet {
    /// The numbers are in ascending order.
    pub closed spec fn wf(self) -> bool {
        is_ascending(self.lines@)
    }

    /// An empty set.
    pub fn new() -> (r: LineSet)
        ensures
            r.wf(),
            r@ == Set::<u64>::empty(),
    {
        let r = LineSet { lines: Vec::new() };
        assert(r@ =~= Set::<u64>::empty());
        r
    }

    /// The number of lines.
    pub fn len(&self) -> (n: usize)
        requires
            self.wf(),
        ensures
            self@.finite(),
            n == self@.len(),
    {
        proof {
            lemma_ascending_set(self.lines@);
        }
        self.lines.len()
    }

    /// Adds a line; whether it is new.
    pub fn insert(&mut self, line: u64) -> (new: bool)
        requires
            old(self).wf(),
        ensures
            final(self).wf(),
            new == !old(self)@.contains(line),
            final(self)@ == old(self)@.insert(line),
    {
        let ghost before = self.lines@;
        let mut at: usize = self.lines.len();
        while at > 0 && self.lines[at - 1] > line
            invariant
                at <= self.lines@.len(),
                self.lines@ == before,
                is_ascending(before),
                forall|j: int| at <= j < before.len() ==> before[j] > line,
            decreases at,
        {
            at -= 1;
        }
        if at > 0 && self.lines[at - 1] == line {
            proof {
                assert(before.contains(line)) by {
                    assert(before[at - 1] == line);
                }
                assert(self@ =~= old(self)@.insert(line));
            }
            return false;
        }
        assert forall|j: int| 0 <= j < at implies before[j] < line by {
            if j < at - 1 {
                assert(before[j] < before[at - 1]);
            }
        }
        self.lines.insert(at, line);
        proof {
            let after = self.lines@;
            assert(is_ascending(after)) by {
                assert forall|i: int, j: int| 0 <= i < j < after.len() implies after[i]
                    < after[j] by {
                    let a = if i < at { i } else { i - 1 };
                    let b = if j < at { j } else { j - 1 };
                    if i != at && j != at {
                        assert(before[a] < before[b]);
                    }
                }
            }
            assert(!before.contains(line));
            assert forall|x: u64| after.to_set().contains(x) == before.to_set().insert(
                line,
            ).contains(x) by {
                if after.contains(x) {
                    let i = choose|i: int| 0 <= i < after.len() && after[i] == x;
                    if i < at {
                        assert(before[i] == x);
                    } else if i > at {
                        assert(before[i - 1] == x);
                    }
                }
                if before.contains(x) {
                    let i = choose|i: int| 0 <= i < before.len() && before[i] == x;
                    if i < at {
                        assert(after[i] == x);
                    } else {
                        assert(after[i + 1] == x);
                    }
                }
                assert(after[at as int] == line);
            }
            assert(self@ =~= old(self)@.insert(line));
        }
        true
    }
}

/// Lines by file.
pub struct LinesByFile {
    index: PathMap<usize>,
    sets: Vec<LineSet>,
}

/// The lines of one file.
pub open spec fn lines_in(all: Set<(Seq<char>, u64)>, file: Seq<char>) -> Set<u64> {
    Set::new(|n: u64| all.contains((file, n)))
}

impl View for LinesByFile {
    type V = Set<(Seq<char>, u64)>;

    closed spec fn view(&self) -> Set<(Seq<char>, u64)> {
        Set::new(
            |p: (Seq<char>, u64)|
                self.index@.contains_key(p.0) && self.sets@[self.index@[p.0] as int]@.contains(p.1),
        )
    }
}

impl LinesByFile {
    /// Each file has a set of its own.
    pub closed spec fn wf(self) -> bool {
        &&& self.index.wf()
        &&& forall|f: Seq<char>| #[trigger]
            self.index@.contains_key(f) ==> self.index@[f] < self.sets@.len()
        &&& forall|f: Seq<char>, g: Seq<char>|
            #![trigger self.index@.contains_key(f), self.index@.contains_key(g)]
            self.index@.contains_key(f) && self.index@.contains_key(g) && self.index@[f]
                == self.index@[g] ==> f == g
        &&& forall|k: int| 0 <= k < self.sets@.len() ==> (#[trigger] self.sets@[k]).wf()
    }

    /// No lines.
    pub fn new() -> (r: LinesByFile)
        ensures
            r.wf(),
            r@ == Set::<(Seq<char>, u64)>::empty(),
    {
        let r = LinesByFile { index: PathMap::new(), sets: Vec::new() };
        assert(r@ =~= Set::<(Seq<char>, u64)>::empty());
        r
    }

    /// Adds a line of a file; whether it is new.
    pub fn insert(&mut self, file: &str, line: u64) -> (new: bool)
        requires
            old(self).wf(),
        ensures
            final(self).wf(),
            new == !old(self)@.contains((file@, line)),
            final(self)@ == old(self)@.insert((file@, line)),
    {
        let ghost before = *self;
        let known = match self.index.get(file) {
            Some(at) => Some(*at),
            None => None,
        };
        match known {
            Some(at) => {
                let new = self.sets[at].insert(line);
                proof {
                    assert(self.sets@.len() == before.sets@.len());
                    assert forall|p: (Seq<char>, u64)| self@.contains(p) == before@.insert(
                        (file@, line),
                    ).contains(p) by {
                        if self.index@.contains_key(p.0) && p.0 != file@ {
                            assert(self.index@.contains_key(file@));
                            assert(self.index@[p.0] != at);
                        }
                    }
                    assert(self@ =~= before@.insert((file@, line)));
                }
                new
            },
            None => {
                let at: usize = self.sets.len();
                let mut set = LineSet::new();
                let _ = set.insert(line);
                self.sets.push(set);
                self.index.insert(owned(file), at);
                proof {
                    assert forall|p: (Seq<char>, u64)| self@.contains(p) == before@.insert(
                        (file@, line),
                    ).contains(p) by {
                        if p.0 != file@ && before.index@.contains_key(p.0) {
                            assert(self.sets@[before.index@[p.0] as int]
                                == before.sets@[before.index@[p.0] as int]);
                        }
                    }
                    assert(self@ =~= before@.insert((file@, line)));
                    assert forall|f: Seq<char>, g: Seq<char>|
                        #![trigger self.index@.contains_key(f), self.index@.contains_key(g)]
                        self.index@.contains_key(f) && self.index@.contains_key(g)
                            && self.index@[f] == self.index@[g] implies f == g by {
                        if f != file@ {
                            assert(before.index@.contains_key(f));
                        }
                        if g != file@ {
                            assert(before.index@.contains_key(g));
                        }
                    }
                }
                true
            },
        }
    }

    /// The number of lines of a file.
    pub fn count(&self, file: &str) -> (n: usize)
        requires
            self.wf(),
        ensures
            lines_in(self@, file@).finite(),
            n == lines_in(self@, file@).len(),
    {
        match self.index.get(file) {
            Some(at) => {
                let n: usize = self.sets[*at].len();
                proof {
                    assert(lines_in(self@, file@) =~= self.sets@[*at as int]@);
                }
                n
            },
            None => {
                proof {
                    assert(lines_in(self@, file@) =~= Set::<u64>::empty());
                }
                0
            },
        }
    }
}

} // verus!
