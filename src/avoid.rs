use vstd::prelude::*;

verus! {

/// Number of re-initializations a brain search may make before it accepts
/// its last candidate unconditionally.
pub const MAX_BRAIN_RETRIES: u32 = 16;

/// Set of canonical brain-hash texts that freshly initialized brains avoid.
pub struct BadBrainHashes {
    hashes: Vec<String>,
}

/// What a brain search does with its current candidate.
#[derive(PartialEq, Eq, Structural, Clone, Copy, Debug)]
pub enum SearchAction {
    Accept,
    Retry,
}

/// Whether a search rejects a candidate whose hash is `h`, after `retries`
/// re-initializations, given the avoided set `bad`.
pub open spec fn rejects(bad: Set<Seq<char>>, retries: nat, h: Seq<char>) -> bool {
    retries < MAX_BRAIN_RETRIES && bad.contains(h)
}

/// Number of re-initializations a search makes when, for each `i`, the
/// candidate produced after `i` re-initializations hashes to `hashes[i]`.
pub open spec fn retries_made(bad: Set<Seq<char>>, hashes: Seq<Seq<char>>, from: nat) -> nat
    decreases MAX_BRAIN_RETRIES - from,
{
    if from >= MAX_BRAIN_RETRIES || from >= hashes.len() || !rejects(bad, from, hashes[from as int]) {
        from
    } else {
        retries_made(bad, hashes, from + 1)
    }
}

impl BadBrainHashes {
    /// The set of hash texts held.
    pub closed spec fn view(&self) -> Set<Seq<char>> {
        self.hashes@.map_values(|h: String| h@).to_set()
    }

    /// Each text is held once.
    pub closed spec fn wf(&self) -> bool {
        forall|i: int, j: int|
            0 <= i < j < self.hashes@.len() ==> self.hashes@[i]@ != self.hashes@[j]@
    }

    /// The empty set: nothing is avoided.
    pub fn new() -> (r: BadBrainHashes)
        ensures
            r.wf(),
            r@ == Set::<Seq<char>>::empty(),
    {
        let r = BadBrainHashes { hashes: Vec::new() };
        assert(r@ =~= Set::<Seq<char>>::empty());
        r
    }

    /// Number of distinct texts held.
    pub fn len(&self) -> (n: usize)
        requires
            self.wf(),
        ensures
            n == self@.len(),
    {
        proof {
            self.lemma_len();
        }
        self.hashes.len()
    }

    proof fn lemma_len(&self)
        requires
            self.wf(),
        ensures
            self@.len() == self.hashes@.len(),
    {
        let vs = self.hashes@.map_values(|h: String| h@);
        assert forall|i: int, j: int| 0 <= i < j < vs.len() implies vs[i] != vs[j] by {
            assert(vs[i] == self.hashes@[i]@);
            assert(vs[j] == self.hashes@[j]@);
        }
        vs.unique_seq_to_set();
    }

    pub fn contains(&self, h: &String) -> (r: bool)
        ensures
            r == self@.contains(h@),
    {
        let ghost vs = self.hashes@.map_values(|x: String| x@);
        let mut i: usize = 0;
        while i < self.hashes.len()
            invariant
                i <= self.hashes@.len(),
                vs == self.hashes@.map_values(|x: String| x@),
                forall|k: int| 0 <= k < i ==> self.hashes@[k]@ != h@,
            decreases self.hashes@.len() - i,
        {
            if self.hashes[i] == *h {
                assert(vs[i as int] == h@);
                return true;
            }
            i = i + 1;
        }
        proof {
            if vs.to_set().contains(h@) {
                let k = choose|k: int| 0 <= k < vs.len() && vs[k] == h@;
                assert(self.hashes@[k]@ == h@);
            }
        }
        false
    }

    /// Adds `h`; a text already held is not added twice.
    pub fn insert(&mut self, h: String)
        requires
            old(self).wf(),
        ensures
            final(self).wf(),
            final(self)@ == old(self)@.insert(h@),
    {
        if !self.contains(&h) {
            let ghost hv = h@;
            let ghost before = self.hashes@;
            self.hashes.push(h);
            proof {
                assert(self.hashes@.map_values(|x: String| x@) =~= before.map_values(|x: String| x@).push(hv));
                assert forall|i: int| 0 <= i < before.len() implies before[i]@ != hv by {
                    let vs = before.map_values(|x: String| x@);
                    assert(vs[i] == before[i]@);
                    assert(vs.to_set().contains(vs[i]));
                }
                before.map_values(|x: String| x@).lemma_push_to_set_commute(hv);
                assert(self.hashes@.map_values(|x: String| x@).to_set() =~= before.map_values(
                    |x: String| x@,
                ).to_set().insert(hv));
            }
        } else {
            assert(self@.insert(h@) =~= self@);
        }
    }

    /// Builds the set of the texts in `list`, duplicates held once.
    pub fn from_list(list: Vec<String>) -> (r: BadBrainHashes)
        ensures
            r.wf(),
            r@ == list@.map_values(|h: String| h@).to_set(),
    {
        let mut r = BadBrainHashes::new();
        let mut i: usize = 0;
        while i < list.len()
            invariant
                i <= list@.len(),
                r.wf(),
                r@ == list@.subrange(0, i as int).map_values(|h: String| h@).to_set(),
            decreases list@.len() - i,
        {
            let h = list[i].clone();
            r.insert(h);
            proof {
                assert(list@.subrange(0, i as int + 1).map_values(|h: String| h@) =~= list@.subrange(
                    0,
                    i as int,
                ).map_values(|h: String| h@).push(list@[i as int]@));
                list@.subrange(0, i as int).map_values(|h: String| h@).lemma_push_to_set_commute(
                    list@[i as int]@,
                );
                assert(list@.subrange(0, i as int + 1).map_values(|h: String| h@).to_set()
                    =~= list@.subrange(0, i as int).map_values(|h: String| h@).to_set().insert(
                    list@[i as int]@,
                ));
            }
            i = i + 1;
        }
        assert(list@.subrange(0, list@.len() as int) =~= list@);
        r
    }
}

/// Progress of one bounded search for a brain whose hash is not avoided:
/// the number of re-initializations made so far.
pub struct BrainSearch {
    retries: u32,
}

impl BrainSearch {
    /// Re-initializations made so far.
    pub closed spec fn view(&self) -> nat {
        self.retries as nat
    }

    /// A search never exceeds its retry budget.
    pub open spec fn wf(&self) -> bool {
        self@ <= MAX_BRAIN_RETRIES
    }

    /// A search at its first candidate.
    pub fn new() -> (r: BrainSearch)
        ensures
            r@ == 0,
            r.wf(),
    {
        BrainSearch { retries: 0 }
    }

    /// Re-initializations made so far.
    pub fn retries(&self) -> (r: u32)
        ensures
            r == self@,
    {
        self.retries
    }

    /// Whether the current candidate must be hashed at all: not when nothing
    /// is avoided, nor once the retries are used up (it is then accepted).
    pub fn needs_check(&self, bad: &BadBrainHashes) -> (r: bool)
        requires
            bad.wf(),
        ensures
            r == (bad@.len() > 0 && self@ < MAX_BRAIN_RETRIES),
    {
        let n = bad.len();
        n > 0 && self.retries < MAX_BRAIN_RETRIES
    }

    /// Decision on the current candidate, whose canonical hash text is `hash`;
    /// a rejection counts one more re-initialization.
    pub fn on_candidate_hash(&mut self, bad: &BadBrainHashes, hash: &String) -> (r: SearchAction)
        requires
            old(self).wf(),
        ensures
            final(self).wf(),
            (r == SearchAction::Retry) == rejects(bad@, old(self)@, hash@),
            r == SearchAction::Retry ==> final(self)@ == old(self)@ + 1,
            r == SearchAction::Accept ==> final(self)@ == old(self)@,
    {
        if self.retries < MAX_BRAIN_RETRIES && bad.contains(hash) {
            self.retries = self.retries + 1;
            SearchAction::Retry
        } else {
            SearchAction::Accept
        }
    }
}

/// A search never makes more than `MAX_BRAIN_RETRIES` re-initializations,
/// and every candidate it passed over had an avoided hash.
pub proof fn lemma_search_bounded(bad: Set<Seq<char>>, hashes: Seq<Seq<char>>, from: nat)
    requires
        from <= MAX_BRAIN_RETRIES,
    ensures
        from <= retries_made(bad, hashes, from) <= MAX_BRAIN_RETRIES,
        forall|i: nat|
            from <= i < retries_made(bad, hashes, from) ==> #[trigger] rejects(bad, i, hashes[i as int]),
    decreases MAX_BRAIN_RETRIES - from,
{
    if from >= MAX_BRAIN_RETRIES || from >= hashes.len() || !rejects(bad, from, hashes[from as int]) {
    } else {
        lemma_search_bounded(bad, hashes, from + 1);
    }
}

/// When every candidate hashes into the avoided set, the search makes exactly
/// `MAX_BRAIN_RETRIES` re-initializations and accepts the candidate produced
/// by the last of them.
pub proof fn lemma_all_bad_exhausts_retries(bad: Set<Seq<char>>, hashes: Seq<Seq<char>>)
    requires
        hashes.len() > MAX_BRAIN_RETRIES,
        forall|i: int| 0 <= i < hashes.len() ==> bad.contains(#[trigger] hashes[i]),
    ensures
        retries_made(bad, hashes, 0) == MAX_BRAIN_RETRIES,
        !rejects(bad, MAX_BRAIN_RETRIES as nat, hashes[MAX_BRAIN_RETRIES as int]),
{
    lemma_all_bad_from(bad, hashes, 0);
}

proof fn lemma_all_bad_from(bad: Set<Seq<char>>, hashes: Seq<Seq<char>>, from: nat)
    requires
        from <= MAX_BRAIN_RETRIES,
        hashes.len() > MAX_BRAIN_RETRIES,
        forall|i: int| 0 <= i < hashes.len() ==> bad.contains(#[trigger] hashes[i]),
    ensures
        retries_made(bad, hashes, from) == MAX_BRAIN_RETRIES,
    decreases MAX_BRAIN_RETRIES - from,
{
    if from < MAX_BRAIN_RETRIES {
        assert(bad.contains(hashes[from as int]));
        lemma_all_bad_from(bad, hashes, from + 1);
    }
}

} // verus!
