//! Positions in repaired text and in the bytes it was decoded from.
//!
//! Decoding replaces every undecodable sequence by one replacement character
//! of three bytes, so that a position behind it is no longer the position on
//! disk. The repairs are kept, and positions are mapped back through them.
use vstd::prelude::*;

verus! {

/// One replaced sequence.
#[derive(Clone, Copy, Debug, PartialEq, Eq, Structural)]
pub struct Repair {
    /// Where the replacement character starts in the decoded text.
    pub at: usize,
    /// How many source bytes it stands for.
    pub source_len: usize,
}

/// The bytes of a replacement character.
pub const REPLACEMENT_LEN: usize = 3;

/// The repairs of a text, in the order of their places.
#[derive(Debug)]
pub struct LossyFixups {
    repairs: Vec<Repair>,
}

/// Whether repairs stand in order, do not overlap, and each stands for one to
/// three bytes.
pub open spec fn in_order(repairs: Seq<Repair>) -> bool {
    &&& forall|i: int|
        0 <= i < repairs.len() ==> 1 <= (#[trigger] repairs[i]).source_len <= REPLACEMENT_LEN
    &&& forall|i: int, j: int|
        0 <= i < j < repairs.len() ==> (#[trigger] repairs[i]).at + REPLACEMENT_LEN
            <= (#[trigger] repairs[j]).at
}

/// How many bytes one repair has added before a position: none up to as many
/// bytes of the replacement as it stands for, and one for each byte behind
/// them.
pub open spec fn widened_by(repair: Repair, offset: int) -> int {
    let inside = if offset - repair.at > REPLACEMENT_LEN {
        REPLACEMENT_LEN as int
    } else {
        offset - repair.at
    };
    if inside > repair.source_len {
        inside - repair.source_len
    } else {
        0
    }
}

/// How many bytes the repairs before a position have added.
pub open spec fn widened(repairs: Seq<Repair>, offset: int) -> int
    decreases repairs.len(),
{
    if repairs.len() == 0 {
        0
    } else {
        widened(repairs.drop_last(), offset) + widened_by(repairs.last(), offset)
    }
}

/// The position on disk of a position in the decoded text.
pub open spec fn source_offset(repairs: Seq<Repair>, offset: int) -> int {
    offset - widened(repairs, offset)
}

/// The repairs before a position add no more bytes than two thirds of what
/// lies before it.
proof fn lemma_widened(repairs: Seq<Repair>, offset: int)
    requires
        in_order(repairs),
        0 <= offset,
    ensures
        0 <= widened(repairs, offset) <= offset,
        repairs.len() > 0 ==> widened(repairs, offset) <= repairs.last().at + REPLACEMENT_LEN,
    decreases repairs.len(),
{
    if repairs.len() > 0 {
        let front = repairs.drop_last();
        assert forall|i: int| 0 <= i < front.len() implies 1 <= (#[trigger] front[i]).source_len
            <= REPLACEMENT_LEN by {
            assert(front[i] == repairs[i]);
        }
        assert forall|i: int, j: int| 0 <= i < j < front.len() implies (#[trigger] front[i]).at
            + REPLACEMENT_LEN <= (#[trigger] front[j]).at by {
            assert(front[i] == repairs[i] && front[j] == repairs[j]);
        }
        lemma_widened(front, offset);
        let last = repairs[repairs.len() - 1];
        assert(repairs.last() == last);
        if front.len() > 0 {
            let before = repairs[repairs.len() - 2];
            assert(front.last() == before);
            assert(before.at + REPLACEMENT_LEN <= last.at);
        } else {
            assert(widened(front, offset) == 0);
        }
    }
}

/// A later position in the decoded text is not earlier on disk.
pub proof fn law_source_offsets_keep_order(repairs: Seq<Repair>, a: int, b: int)
    requires
        in_order(repairs),
        0 <= a <= b,
    ensures
        source_offset(repairs, a) <= source_offset(repairs, b),
    decreases repairs.len(),
{
    lemma_gap(repairs, a, b);
}

/// The repairs between two positions lie between them.
proof fn lemma_gap(repairs: Seq<Repair>, a: int, b: int)
    requires
        in_order(repairs),
        0 <= a <= b,
    ensures
        widened(repairs, b) - widened(repairs, a) <= b - a,
        widened(repairs, b) >= widened(repairs, a),
        repairs.len() > 0 && repairs.last().at + REPLACEMENT_LEN <= b ==> widened(repairs, b)
            - widened(repairs, a) <= if repairs.last().at + REPLACEMENT_LEN > a {
            repairs.last().at + REPLACEMENT_LEN - a
        } else {
            0
        },
        repairs.len() > 0 && repairs.last().at + REPLACEMENT_LEN <= a ==> widened(repairs, b)
            == widened(repairs, a),
    decreases repairs.len(),
{
    if repairs.len() > 0 {
        let front = repairs.drop_last();
        assert forall|i: int| 0 <= i < front.len() implies 1 <= (#[trigger] front[i]).source_len
            <= REPLACEMENT_LEN by {
            assert(front[i] == repairs[i]);
        }
        assert forall|i: int, j: int| 0 <= i < j < front.len() implies (#[trigger] front[i]).at
            + REPLACEMENT_LEN <= (#[trigger] front[j]).at by {
            assert(front[i] == repairs[i] && front[j] == repairs[j]);
        }
        lemma_gap(front, a, b);
        let last = repairs[repairs.len() - 1];
        assert(repairs.last() == last);
        if front.len() > 0 {
            let before = repairs[repairs.len() - 2];
            assert(front.last() == before);
            assert(before.at + REPLACEMENT_LEN <= last.at);
        } else {
            assert(widened(front, a) == 0 && widened(front, b) == 0);
        }
    }
}

/// Between two positions there are no more bytes on disk than in the text.
pub proof fn lemma_source_shrinks(repairs: Seq<Repair>, a: int, b: int)
    requires
        in_order(repairs),
        0 <= a <= b,
    ensures
        source_offset(repairs, b) - source_offset(repairs, a) <= b - a,
{
    lemma_gap(repairs, a, b);
}

impl View for LossyFixups {
    type V = Seq<Repair>;

    closed spec fn view(&self) -> Seq<Repair> {
        self.repairs@
    }
}

impl Default for LossyFixups {
    fn default() -> (r: LossyFixups)
        ensures
            r.wf(),
            r@ == Seq::<Repair>::empty(),
    {
        let r = LossyFixups { repairs: Vec::new() };
        assert(r@ =~= Seq::<Repair>::empty());
        r
    }
}

impl LossyFixups {
    /// The repairs stand in order.
    pub open spec fn wf(self) -> bool {
        in_order(self@)
    }

    /// The repairs of a text; none where they do not stand in order.
    pub fn from_repairs(repairs: Vec<Repair>) -> (r: Option<LossyFixups>)
        ensures
            match r {
                Some(f) => f.wf() && f@ == repairs@ && in_order(repairs@),
                None => !in_order(repairs@),
            },
    {
        let mut i: usize = 0;
        while i < repairs.len()
            invariant
                i <= repairs@.len(),
                in_order(repairs@.take(i as int)),
            decreases repairs@.len() - i,
        {
            let repair = repairs[i];
            if repair.source_len < 1 || repair.source_len > REPLACEMENT_LEN {
                assert(!(1 <= repairs@[i as int].source_len <= REPLACEMENT_LEN));
                return None;
            }
            if i > 0 {
                let before = repairs[i - 1];
                if repair.at < REPLACEMENT_LEN || repair.at - REPLACEMENT_LEN < before.at {
                    assert(!(repairs@[i - 1].at + REPLACEMENT_LEN <= repairs@[i as int].at));
                    return None;
                }
            }
            proof {
                let small = repairs@.take(i as int);
                let large = repairs@.take(i + 1);
                assert forall|a: int| 0 <= a < large.len() implies 1 <= (
                #[trigger] large[a]).source_len <= REPLACEMENT_LEN by {
                    if a < i {
                        assert(small[a] == large[a]);
                    }
                }
                assert forall|a: int, b: int| 0 <= a < b < large.len() implies (
                #[trigger] large[a]).at + REPLACEMENT_LEN <= (#[trigger] large[b]).at by {
                    if b < i {
                        assert(small[a] == large[a] && small[b] == large[b]);
                    } else if a < i - 1 {
                        assert(small[a] == large[a] && small[i - 1] == large[i - 1]);
                    }
                }
            }
            i += 1;
        }
        assert(repairs@.take(repairs@.len() as int) =~= repairs@);
        Some(LossyFixups { repairs })
    }

    /// Whether nothing was repaired.
    pub fn is_empty(&self) -> (r: bool)
        ensures
            r == (self@.len() == 0),
    {
        self.repairs.len() == 0
    }

    /// The position on disk of a position in the decoded text.
    pub fn to_source_offset(&self, offset: usize) -> (r: usize)
        requires
            self.wf(),
        ensures
            r == source_offset(self@, offset as int),
            r <= offset,
    {
        let mut added: usize = 0;
        let mut i: usize = 0;
        assert(self@.take(0) =~= Seq::<Repair>::empty());
        while i < self.repairs.len()
            invariant
                i <= self@.len(),
                self@ == self.repairs@,
                self.wf(),
                added == widened(self@.take(i as int), offset as int),
                added <= offset,
            decreases self@.len() - i,
        {
            let repair = self.repairs[i];
            proof {
                let large = self@.take(i + 1);
                assert(large.drop_last() =~= self@.take(i as int));
                assert(large.last() == self@[i as int]);
                assert(in_order(large)) by {
                    assert forall|a: int| 0 <= a < large.len() implies 1 <= (
                    #[trigger] large[a]).source_len <= REPLACEMENT_LEN by {
                        assert(self@[a] == large[a]);
                    }
                    assert forall|a: int, b: int| 0 <= a < b < large.len() implies (
                    #[trigger] large[a]).at + REPLACEMENT_LEN <= (#[trigger] large[b]).at by {
                        assert(self@[a] == large[a] && self@[b] == large[b]);
                    }
                }
                lemma_widened(large, offset as int);
                assert(1 <= self@[i as int].source_len <= REPLACEMENT_LEN);
            }
            if offset > repair.at {
                let inside: usize = if offset - repair.at > REPLACEMENT_LEN {
                    REPLACEMENT_LEN
                } else {
                    offset - repair.at
                };
                if inside > repair.source_len {
                    added += inside - repair.source_len;
                }
            }
            i += 1;
        }
        assert(self@.take(self@.len() as int) =~= self@);
        offset - added
    }
}

} // verus!
