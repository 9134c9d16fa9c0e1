//! Shared detection state: content signatures, per-size occurrence counters,
//! and the confirmed-filtered size set, with the classification step that
//! decides whether a successful probe is a finding or noise.
//!
//! The state is modelled by [`StateView`]: a sequence of signatures, a total
//! map from response size to its consecutive-occurrence count, and the set of
//! confirmed-filtered sizes.  The classification and decision steps are pure
//! functions on the model ([`classify_result`], [`classify_next`],
//! [`resolve_result`], [`resolve_next`]), and the executable methods are
//! proved to follow them exactly.

use vstd::prelude::*;
use crate::text::contains_bytes;
use crate::text::contains_seq;
use crate::text::select_signatures;
use crate::text::selected_signatures;

verus! {

/// The verdict on one successful (2xx) probe.
///
/// `AwaitDecision` means the size-repetition threshold was reached: the
/// operator must confirm or decline the filter before the probe's final
/// verdict is known (see [`ScanState::resolve_decision`]).
#[derive(Clone, Copy, Debug, PartialEq, Eq, Structural)]
pub enum Classification {
    Suppressed,
    Confirmed,
    AwaitDecision,
}

/// The mathematical model of the detection state.
#[verifier::ext_equal]
pub ghost struct StateView {
    /// The content signatures, in load order.
    pub sigs: Seq<Seq<u8>>,
    /// Consecutive-occurrence count per response size; zero when unseen.
    pub counts: Map<usize, nat>,
    /// The response sizes confirmed as noise.
    pub filtered: Set<usize>,
}

/// The body contains at least one of the stored signature fragments.
pub open spec fn sig_match(sigs: Seq<Seq<u8>>, body: Seq<u8>) -> bool {
    exists|i: int| 0 <= i < sigs.len() && contains_seq(body, sigs[i])
}

/// A state with the given signatures, no counts, and nothing filtered.
pub open spec fn fresh_view(sigs: Seq<Seq<u8>>) -> StateView {
    StateView {
        sigs: sigs,
        counts: Map::new(|s: usize| true, |s: usize| 0),
        filtered: Set::empty(),
    }
}

/// The occurrence-count threshold at which the operator is consulted.
pub open spec fn prompt_threshold() -> nat {
    5
}

/// The count after one more occurrence: one higher, capped at the threshold.
pub open spec fn bumped_count(c: nat) -> nat {
    if c < prompt_threshold() {
        c + 1
    } else {
        prompt_threshold()
    }
}

/// The verdict of one classification step.
pub open spec fn classify_result(v: StateView, body: Seq<u8>, size: usize) -> Classification {
    if v.filtered.contains(size) {
        Classification::Suppressed
    } else if sig_match(v.sigs, body) {
        Classification::Suppressed
    } else if bumped_count(v.counts[size]) >= prompt_threshold() {
        Classification::AwaitDecision
    } else {
        Classification::Confirmed
    }
}

/// The state after one classification step: suppressed probes change nothing;
/// otherwise the size's count is bumped.
pub open spec fn classify_next(v: StateView, body: Seq<u8>, size: usize) -> StateView {
    if v.filtered.contains(size) || sig_match(v.sigs, body) {
        v
    } else {
        StateView { counts: v.counts.insert(size, bumped_count(v.counts[size])), ..v }
    }
}

/// The final verdict of a probe whose classification awaited the operator.
pub open spec fn resolve_result(accept: bool) -> Classification {
    if accept {
        Classification::Suppressed
    } else {
        Classification::Confirmed
    }
}

/// The state after the operator's decision: confirming adds the size to the
/// filtered set; declining resets its count to zero.
pub open spec fn resolve_next(v: StateView, size: usize, accept: bool) -> StateView {
    if accept {
        StateView { filtered: v.filtered.insert(size), ..v }
    } else {
        StateView { counts: v.counts.insert(size, 0), ..v }
    }
}

/// The count stored for `size` in the entry list: the value at its entry, or
/// zero when no entry carries that size.
pub open spec fn count_in(entries: Seq<(usize, usize)>, size: usize) -> nat
    decreases entries.len(),
{
    if entries.len() == 0 {
        0
    } else if entries[0].0 == size {
        entries[0].1 as nat
    } else {
        count_in(entries.drop_first(), size)
    }
}

/// No two entries carry the same size.
pub open spec fn unique_keys(entries: Seq<(usize, usize)>) -> bool {
    forall|i: int, j: int| 0 <= i < j < entries.len() ==> entries[i].0 != entries[j].0
}

proof fn lemma_count_absent(entries: Seq<(usize, usize)>, size: usize)
    requires
        forall|j: int| 0 <= j < entries.len() ==> entries[j].0 != size,
    ensures
        count_in(entries, size) == 0,
    decreases entries.len(),
{
    if entries.len() > 0 {
        lemma_count_absent(entries.drop_first(), size);
    }
}

proof fn lemma_count_at_index(entries: Seq<(usize, usize)>, i: int)
    requires
        unique_keys(entries),
        0 <= i < entries.len(),
    ensures
        count_in(entries, entries[i].0) == entries[i].1,
    decreases i,
{
    if i > 0 {
        let t = entries.drop_first();
        assert(unique_keys(t));
        lemma_count_at_index(t, i - 1);
    }
}

proof fn lemma_count_update(entries: Seq<(usize, usize)>, i: int, v: usize, t: usize)
    requires
        unique_keys(entries),
        0 <= i < entries.len(),
    ensures
        count_in(entries.update(i, (entries[i].0, v)), t) == if t == entries[i].0 {
            v as nat
        } else {
            count_in(entries, t)
        },
    decreases i,
{
    let size = entries[i].0;
    let upd = entries.update(i, (size, v));
    if i == 0 {
        assert(upd[0] == (size, v));
        assert(upd.drop_first() =~= entries.drop_first());
    } else {
        let t0 = entries.drop_first();
        assert(unique_keys(t0));
        assert(t0[i - 1] == entries[i]);
        lemma_count_update(t0, i - 1, v, t);
        assert(upd[0] == entries[0]);
        assert(upd.drop_first() =~= t0.update(i - 1, (size, v)));
    }
}

proof fn lemma_count_push(entries: Seq<(usize, usize)>, size: usize, v: usize, t: usize)
    requires
        forall|j: int| 0 <= j < entries.len() ==> entries[j].0 != size,
    ensures
        count_in(entries.push((size, v)), t) == if t == size {
            v as nat
        } else {
            count_in(entries, t)
        },
    decreases entries.len(),
{
    let p = entries.push((size, v));
    if entries.len() == 0 {
        assert(p[0] == (size, v));
        assert(p.drop_first() =~= Seq::<(usize, usize)>::empty());
        lemma_count_absent(p.drop_first(), t);
    } else {
        lemma_count_push(entries.drop_first(), size, v, t);
        assert(p[0] == entries[0]);
        assert(p.drop_first() =~= entries.drop_first().push((size, v)));
    }
}

/// The shared detection state of one scan run.
pub struct ScanState {
    signatures: Vec<Vec<u8>>,
    size_counts: Vec<(usize, usize)>,
    filtered_sizes: Vec<usize>,
}

impl View for ScanState {
    type V = StateView;

    closed spec fn view(&self) -> StateView {
        StateView {
            sigs: self.signatures.deep_view(),
            counts: Map::new(|s: usize| true, |s: usize| count_in(self.size_counts@, s)),
            filtered: Set::new(|s: usize| self.filtered_sizes@.contains(s)),
        }
    }
}

fn contains_size(sizes: &Vec<usize>, size: usize) -> (r: bool)
    ensures
        r == sizes@.contains(size),
{
    let mut i: usize = 0;
    while i < sizes.len()
        invariant
            0 <= i <= sizes@.len(),
            forall|j: int| 0 <= j < i ==> sizes@[j] != size,
        decreases sizes@.len() - i,
    {
        if sizes[i] == size {
            return true;
        }
        i += 1;
    }
    false
}

fn matches_any(sigs: &Vec<Vec<u8>>, body: &Vec<u8>) -> (r: bool)
    ensures
        r == sig_match(sigs.deep_view(), body@),
{
    let mut i: usize = 0;
    while i < sigs.len()
        invariant
            0 <= i <= sigs@.len(),
            sigs.deep_view().len() == sigs@.len(),
            forall|j: int| 0 <= j < i ==> !contains_seq(body@, sigs.deep_view()[j]),
        decreases sigs@.len() - i,
    {
        proof {
            assert(sigs.deep_view()[i as int] == sigs@[i as int]@);
        }
        if contains_bytes(body, &sigs[i]) {
            return true;
        }
        i += 1;
    }
    false
}

fn find_size_index(entries: &Vec<(usize, usize)>, size: usize) -> (r: Option<usize>)
    ensures
        match r {
            Some(i) => i < entries@.len() && entries@[i as int].0 == size,
            None => forall|j: int| 0 <= j < entries@.len() ==> entries@[j].0 != size,
        },
{
    let mut i: usize = 0;
    while i < entries.len()
        invariant
            0 <= i <= entries@.len(),
            forall|j: int| 0 <= j < i ==> entries@[j].0 != size,
        decreases entries@.len() - i,
    {
        if entries[i].0 == size {
            return Some(i);
        }
        i += 1;
    }
    None
}

impl ScanState {
    /// Representation invariant: one entry per size, counts capped at the
    /// prompt threshold.
    pub closed spec fn inv(&self) -> bool {
        unique_keys(self.size_counts@) && forall|i: int|
            0 <= i < self.size_counts@.len() ==> #[trigger] self.size_counts@[i].1 <= 5
    }

    /// An empty detection state: no signatures, no counts, nothing filtered.
    pub fn new() -> (r: ScanState)
        ensures
            r.inv(),
            r@ == fresh_view(Seq::<Seq<u8>>::empty()),
    {
        let r = ScanState {
            signatures: Vec::new(),
            size_counts: Vec::new(),
            filtered_sizes: Vec::new(),
        };
        proof {
            assert(r@ =~~= fresh_view(Seq::<Seq<u8>>::empty()));
        }
        r
    }

    /// A detection state whose signatures are the kept lines of a filter
    /// file: blank and `#`-prefixed lines dropped, the rest trimmed.
    pub fn with_signatures(lines: &Vec<Vec<u8>>) -> (r: ScanState)
        ensures
            r.inv(),
            r@ == fresh_view(selected_signatures(lines.deep_view())),
    {
        let sigs = select_signatures(lines);
        let r = ScanState { signatures: sigs, size_counts: Vec::new(), filtered_sizes: Vec::new() };
        proof {
            assert(r@ =~~= fresh_view(selected_signatures(lines.deep_view())));
        }
        r
    }

    /// Is this response already known to be noise?  True exactly when the
    /// body contains a stored signature or the size is confirmed-filtered.
    /// Reads only; the counters are untouched.
    pub fn is_filtered(&self, content: &Vec<u8>, size: usize) -> (r: bool)
        ensures
            r == (sig_match(self@.sigs, content@) || self@.filtered.contains(size)),
    {
        if matches_any(&self.signatures, content) {
            return true;
        }
        contains_size(&self.filtered_sizes, size)
    }

    /// Classify one successful probe and update the counters, as one atomic
    /// step on the state: suppressed when the size is filtered or a signature
    /// matches; otherwise the size's count is bumped, and reaching the
    /// threshold asks for the operator's decision.
    pub fn classify(&mut self, body: &Vec<u8>, size: usize) -> (c: Classification)
        requires
            old(self).inv(),
        ensures
            final(self).inv(),
            c == classify_result(old(self)@, body@, size),
            final(self)@ == classify_next(old(self)@, body@, size),
    {
        let ghost v0 = self@;
        if contains_size(&self.filtered_sizes, size) {
            return Classification::Suppressed;
        }
        if matches_any(&self.signatures, body) {
            return Classification::Suppressed;
        }
        let ghost e0 = self.size_counts@;
        match find_size_index(&self.size_counts, size) {
            None => {
                proof {
                    lemma_count_absent(e0, size);
                }
                self.size_counts.push((size, 1));
                proof {
                    assert(self.size_counts@ == e0.push((size, 1)));
                    assert forall|t: usize| #[trigger] count_in(self.size_counts@, t) == (if t
                        == size {
                        1nat
                    } else {
                        count_in(e0, t)
                    }) by {
                        lemma_count_push(e0, size, 1, t);
                    }
                    assert(v0.counts[size] == 0);
                    assert(self@.counts =~= v0.counts.insert(size, bumped_count(v0.counts[size])));
                    assert(self@ =~~= classify_next(v0, body@, size));
                    assert forall|a: int, b: int|
                        0 <= a < b < self.size_counts@.len() implies self.size_counts@[a].0
                        != self.size_counts@[b].0 by {
                        assert(self.size_counts@[a] == e0[a]);
                        if b < e0.len() {
                            assert(self.size_counts@[b] == e0[b]);
                        } else {
                            assert(self.size_counts@[b] == (size, 1usize));
                        }
                    }
                    assert forall|j: int|
                        0 <= j < self.size_counts@.len() implies #[trigger] self.size_counts@[j].1
                        <= 5 by {
                        if j < e0.len() {
                            assert(self.size_counts@[j] == e0[j]);
                        } else {
                            assert(self.size_counts@[j] == (size, 1usize));
                        }
                    }
                }
                Classification::Confirmed
            },
            Some(i) => {
                let cnt = self.size_counts[i].1;
                proof {
                    lemma_count_at_index(e0, i as int);
                    assert(v0.counts[size] == cnt as nat);
                    assert(cnt <= 5);
                }
                if cnt < 5 {
                    self.size_counts.set(i, (size, cnt + 1));
                    proof {
                        assert(self.size_counts@ == e0.update(i as int, (size, (cnt + 1) as usize)));
                        assert forall|t: usize| #[trigger] count_in(self.size_counts@, t) == (if t
                            == size {
                            (cnt + 1) as nat
                        } else {
                            count_in(e0, t)
                        }) by {
                            lemma_count_update(e0, i as int, (cnt + 1) as usize, t);
                        }
                        assert(self@.counts =~= v0.counts.insert(
                            size,
                            bumped_count(v0.counts[size]),
                        ));
                        assert(self@ =~~= classify_next(v0, body@, size));
                        assert forall|a: int, b: int|
                            0 <= a < b < self.size_counts@.len() implies self.size_counts@[a].0
                            != self.size_counts@[b].0 by {
                            assert(self.size_counts@[a].0 == e0[a].0);
                            assert(self.size_counts@[b].0 == e0[b].0);
                        }
                        assert forall|j: int|
                            0 <= j < self.size_counts@.len() implies #[trigger] self
                            .size_counts@[j].1 <= 5 by {
                            if j != i {
                                assert(self.size_counts@[j] == e0[j]);
                            }
                        }
                    }
                    if cnt + 1 >= 5 {
                        Classification::AwaitDecision
                    } else {
                        Classification::Confirmed
                    }
                } else {
                    proof {
                        assert(v0.counts[size] == 5);
                        assert(v0.counts.insert(size, 5nat) =~= v0.counts);
                        assert(self@ =~~= classify_next(v0, body@, size));
                    }
                    Classification::AwaitDecision
                }
            },
        }
    }

    /// Record the operator's decision for a size whose classification
    /// awaited it: confirming makes the size permanently filtered, declining
    /// resets its count to zero; the verdict of the pending probe follows.
    pub fn resolve_decision(&mut self, size: usize, accept: bool) -> (c: Classification)
        requires
            old(self).inv(),
        ensures
            final(self).inv(),
            c == resolve_result(accept),
            final(self)@ == resolve_next(old(self)@, size, accept),
    {
        let ghost v0 = self@;
        if accept {
            let ghost f0 = self.filtered_sizes@;
            self.filtered_sizes.push(size);
            proof {
                assert(self.filtered_sizes@ == f0.push(size));
                assert forall|s: usize| #[trigger] self@.filtered.contains(s)
                    == v0.filtered.insert(size).contains(s) by {
                    assert(self@.filtered.contains(s) == f0.push(size).contains(s));
                    assert(v0.filtered.contains(s) == f0.contains(s));
                    if f0.contains(s) {
                        let j = choose|j: int| 0 <= j < f0.len() && f0[j] == s;
                        assert(f0.push(size)[j] == s);
                        assert(f0.push(size).contains(s));
                    }
                    if s == size {
                        assert(f0.push(size)[f0.len() as int] == s);
                        assert(f0.push(size).contains(s));
                    }
                    if f0.push(size).contains(s) {
                        let j = choose|j: int|
                            0 <= j < f0.push(size).len() && f0.push(size)[j] == s;
                        if j < f0.len() {
                            assert(f0[j] == s);
                            assert(f0.contains(s));
                        }
                    }
                }
                assert(self@.filtered =~= v0.filtered.insert(size));
                assert(self@ =~~= resolve_next(v0, size, true));
            }
            Classification::Suppressed
        } else {
            let ghost e0 = self.size_counts@;
            match find_size_index(&self.size_counts, size) {
                Some(i) => {
                    self.size_counts.set(i, (size, 0));
                    proof {
                        assert(self.size_counts@ == e0.update(i as int, (size, 0usize)));
                        assert forall|t: usize| #[trigger] count_in(self.size_counts@, t) == (if t
                            == size {
                            0nat
                        } else {
                            count_in(e0, t)
                        }) by {
                            lemma_count_update(e0, i as int, 0, t);
                        }
                        assert(self@.counts =~= v0.counts.insert(size, 0nat));
                        assert(self@ =~~= resolve_next(v0, size, false));
                        assert forall|a: int, b: int|
                            0 <= a < b < self.size_counts@.len() implies self.size_counts@[a].0
                            != self.size_counts@[b].0 by {
                            assert(self.size_counts@[a].0 == e0[a].0);
                            assert(self.size_counts@[b].0 == e0[b].0);
                        }
                        assert forall|j: int|
                            0 <= j < self.size_counts@.len() implies #[trigger] self
                            .size_counts@[j].1 <= 5 by {
                            if j != i {
                                assert(self.size_counts@[j] == e0[j]);
                            }
                        }
                    }
                },
                None => {
                    proof {
                        lemma_count_absent(e0, size);
                        assert(v0.counts.insert(size, 0nat) =~= v0.counts);
                        assert(self@ =~~= resolve_next(v0, size, false));
                    }
                },
            }
            Classification::Confirmed
        }
    }
}

/// Once a size is confirmed-filtered, every later response of that size is
/// suppressed and the state does not change: no prompt can follow.
pub proof fn lemma_filtered_idempotent(v: StateView, body: Seq<u8>, size: usize)
    requires
        v.filtered.contains(size),
    ensures
        classify_result(v, body, size) == Classification::Suppressed,
        classify_next(v, body, size) == v,
{
}

/// The filtered set never shrinks: classification leaves it unchanged, and a
/// decision can only add to it.
pub proof fn lemma_filtered_monotone(v: StateView, body: Seq<u8>, size: usize, accept: bool)
    ensures
        classify_next(v, body, size).filtered == v.filtered,
        v.filtered.subset_of(resolve_next(v, size, accept).filtered),
{
}

/// Signature matching is a pure substring test: a body containing any stored
/// fragment is suppressed, whatever the size, the counters, and the filters
/// hold.
pub proof fn lemma_signature_suppresses(v: StateView, body: Seq<u8>, size: usize)
    requires
        sig_match(v.sigs, body),
    ensures
        classify_result(v, body, size) == Classification::Suppressed,
{
}

/// For a size that is neither filtered nor signature-matched, the fifth
/// occurrence — and only that one — raises the operator decision: below the
/// threshold the probe is confirmed and the count rises by one; declining
/// resets the count to zero, so five further occurrences are needed to raise
/// the decision again.
pub proof fn lemma_fifth_occurrence_triggers(v: StateView, body: Seq<u8>, size: usize)
    requires
        !v.filtered.contains(size),
        !sig_match(v.sigs, body),
    ensures
        (classify_result(v, body, size) == Classification::AwaitDecision) <==> v.counts[size]
            + 1 >= prompt_threshold(),
        v.counts[size] + 1 < prompt_threshold() ==> classify_result(v, body, size)
            == Classification::Confirmed && classify_next(v, body, size).counts[size]
            == v.counts[size] + 1,
        resolve_next(classify_next(v, body, size), size, false).counts[size] == 0,
{
}

} // verus!
