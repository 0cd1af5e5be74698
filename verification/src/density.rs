use vstd::prelude::*;

verus! {

/// How one component density of one event enters the likelihood.
#[derive(Clone, Copy, Debug, PartialEq, Eq, Structural)]
pub enum DensityClass {
    /// The density is not finite or is negative.
    Invalid,
    /// The density is exactly zero.
    Zero,
    /// The density is finite and strictly positive.
    Positive,
}

/// Why the densities of one event cannot enter the likelihood.
#[derive(Clone, Copy, Debug, PartialEq, Eq, Structural)]
pub enum DensityFault {
    /// The PDF of this component returned an invalid density.
    InvalidDensity { component: usize },
    /// Every component density of the event is zero.
    AllZero,
}

/// No class in the sequence is `Invalid`.
pub open spec fn no_invalid(classes: Seq<DensityClass>) -> bool {
    forall|i: int| 0 <= i < classes.len() ==> classes[i] != DensityClass::Invalid
}

/// Some class in the sequence is `Positive`.
pub open spec fn some_positive(classes: Seq<DensityClass>) -> bool {
    exists|i: int| 0 <= i < classes.len() && classes[i] == DensityClass::Positive
}

/// `i` is the first component whose density is invalid.
pub open spec fn is_first_invalid(classes: Seq<DensityClass>, i: int) -> bool {
    &&& 0 <= i < classes.len()
    &&& classes[i] == DensityClass::Invalid
    &&& no_invalid(classes.take(i))
}

/// The verdict on the densities of one event, in component order: the first
/// invalid density is reported; otherwise the event is accepted when some
/// density is positive and refused when all are zero.
pub open spec fn event_verdict(classes: Seq<DensityClass>) -> Result<(), DensityFault> {
    if !no_invalid(classes) {
        Err(
            DensityFault::InvalidDensity {
                component: (choose|i: int| is_first_invalid(classes, i)) as usize,
            },
        )
    } else if some_positive(classes) {
        Ok(())
    } else {
        Err(DensityFault::AllZero)
    }
}

/// Once the densities seen so far are all valid and the next one is
/// invalid, the verdict on the event is that fault, whatever the densities of
/// the remaining components are.
pub proof fn lemma_first_fault_decides(
    prefix: Seq<DensityClass>,
    rest: Seq<DensityClass>,
)
    requires
        no_invalid(prefix),
    ensures
        event_verdict(prefix.push(DensityClass::Invalid) + rest) == Err::<(), DensityFault>(
            DensityFault::InvalidDensity { component: prefix.len() as usize },
        ),
{
    let all = prefix.push(DensityClass::Invalid) + rest;
    let n = prefix.len() as int;
    assert(all.take(n) =~= prefix);
    assert(all[n] == DensityClass::Invalid);
    assert(is_first_invalid(all, n));
    let i = choose|i: int| is_first_invalid(all, i);
    if i < n {
        assert(all.take(n)[i] == DensityClass::Invalid);
    } else if i > n {
        assert(all.take(i)[n] == DensityClass::Invalid);
    }
}

/// When no density of an event is invalid, the event is accepted exactly
/// when some component density is positive, whatever the number of
/// components; otherwise it is refused as all zero.
pub proof fn lemma_valid_event_accepted_iff_positive(classes: Seq<DensityClass>)
    requires
        forall|i: int| 0 <= i < classes.len() ==> #[trigger] classes[i] != DensityClass::Invalid,
    ensures
        event_verdict(classes) == Ok::<(), DensityFault>(()) <==> exists|i: int|
            0 <= i < classes.len() && #[trigger] classes[i] == DensityClass::Positive,
        event_verdict(classes) != Ok::<(), DensityFault>(()) ==> event_verdict(classes)
            == Err::<(), DensityFault>(DensityFault::AllZero),
{
}

/// Where some density is invalid, there is a first invalid one.
pub proof fn lemma_first_invalid_exists(classes: Seq<DensityClass>, k: int)
    requires
        0 <= k < classes.len(),
        classes[k] == DensityClass::Invalid,
    ensures
        exists|i: int| is_first_invalid(classes, i),
    decreases k,
{
    if no_invalid(classes.take(k)) {
        assert(is_first_invalid(classes, k));
    } else {
        let m = choose|m: int| 0 <= m < k && classes.take(k)[m] == DensityClass::Invalid;
        assert(classes[m] == DensityClass::Invalid);
        lemma_first_invalid_exists(classes, m);
    }
}

/// Whatever the classes: an accepted event has no invalid density and a
/// positive one; a refusal as all zero means every density is zero; a refusal
/// for an invalid density names the first component whose density is
/// invalid. (Component indices are `usize`, so at most `usize::MAX`
/// components are considered.)
pub proof fn lemma_verdict_meaning(classes: Seq<DensityClass>)
    requires
        classes.len() <= usize::MAX,
    ensures
        event_verdict(classes) == Ok::<(), DensityFault>(()) ==> {
            &&& forall|i: int|
                0 <= i < classes.len() ==> #[trigger] classes[i] != DensityClass::Invalid
            &&& exists|i: int| 0 <= i < classes.len() && #[trigger] classes[i] == DensityClass::Positive
        },
        event_verdict(classes) == Err::<(), DensityFault>(DensityFault::AllZero) ==> forall|i: int|
            0 <= i < classes.len() ==> #[trigger] classes[i] == DensityClass::Zero,
        event_verdict(classes) matches Err(DensityFault::InvalidDensity { component }) ==> {
            &&& component < classes.len()
            &&& classes[component as int] == DensityClass::Invalid
            &&& forall|k: int|
                0 <= k < component ==> #[trigger] classes[k] != DensityClass::Invalid
        },
{
    if !no_invalid(classes) {
        let k = choose|k: int| 0 <= k < classes.len() && classes[k] == DensityClass::Invalid;
        lemma_first_invalid_exists(classes, k);
        let c = choose|i: int| is_first_invalid(classes, i);
        assert forall|m: int| 0 <= m < c implies #[trigger] classes[m] != DensityClass::Invalid by {
            assert(classes.take(c)[m] == classes[m]);
        }
    } else if !some_positive(classes) {
        assert forall|i: int| 0 <= i < classes.len() implies #[trigger] classes[i]
            == DensityClass::Zero by {
            assert(classes[i] != DensityClass::Invalid);
            assert(classes[i] != DensityClass::Positive);
        }
    }
}

/// The densities of one event, observed one component at a time in
/// component order, stopping at the first invalid one.
pub struct EventScan {
    observed: usize,
    any_positive: bool,
    seen: Ghost<Seq<DensityClass>>,
}

impl View for EventScan {
    type V = Seq<DensityClass>;

    /// The classes observed so far, in component order.
    closed spec fn view(&self) -> Seq<DensityClass> {
        self.seen@
    }
}

impl EventScan {
    /// The counters agree with the observed classes, none of which is
    /// invalid.
    pub closed spec fn wf(&self) -> bool {
        &&& self.observed == self.seen@.len()
        &&& self.any_positive == some_positive(self.seen@)
        &&& no_invalid(self.seen@)
    }

    /// A scan that has observed nothing.
    pub fn new() -> (scan: Self)
        ensures
            scan.wf(),
            scan@ == Seq::<DensityClass>::empty(),
    {
        EventScan { observed: 0, any_positive: false, seen: Ghost(Seq::empty()) }
    }

    /// The classes observed by a well-formed scan are all valid.
    pub proof fn lemma_observed_valid(&self)
        requires
            self.wf(),
        ensures
            no_invalid(self@),
    {
    }

    /// Observes the class of the next component's density. An invalid
    /// density is refused with its component index and leaves the scan as it
    /// was; any other is recorded.
    pub fn observe(&mut self, class: DensityClass) -> (outcome: Result<(), DensityFault>)
        requires
            old(self).wf(),
            old(self)@.len() < usize::MAX,
        ensures
            final(self).wf(),
            class == DensityClass::Invalid ==> {
                &&& outcome == Err::<(), DensityFault>(
                    DensityFault::InvalidDensity { component: old(self)@.len() as usize },
                )
                &&& outcome == event_verdict(old(self)@.push(class))
                &&& final(self)@ == old(self)@
            },
            class != DensityClass::Invalid ==> {
                &&& outcome == Ok::<(), DensityFault>(())
                &&& final(self)@ == old(self)@.push(class)
            },
    {
        match class {
            DensityClass::Invalid => {
                proof {
                    lemma_first_fault_decides(self.seen@, Seq::empty());
                    assert(self.seen@.push(class) + Seq::empty() =~= self.seen@.push(class));
                }
                Err(DensityFault::InvalidDensity { component: self.observed })
            },
            _ => {
                let ghost before = self.seen@;
                self.seen = Ghost(before.push(class));
                self.observed = self.observed + 1;
                let positive = match class {
                    DensityClass::Positive => true,
                    _ => false,
                };
                self.any_positive = self.any_positive || positive;
                proof {
                    let after = self.seen@;
                    assert(after[after.len() - 1] == class);
                    if some_positive(before) {
                        let i = choose|i: int|
                            0 <= i < before.len() && before[i] == DensityClass::Positive;
                        assert(after[i] == DensityClass::Positive);
                    }
                    if some_positive(after) && !positive {
                        let i = choose|i: int|
                            0 <= i < after.len() && after[i] == DensityClass::Positive;
                        assert(before[i] == DensityClass::Positive);
                    }
                    assert forall|i: int| 0 <= i < after.len() implies after[i]
                        != DensityClass::Invalid by {
                        if i < before.len() {
                            assert(after[i] == before[i]);
                        }
                    }
                }
                Ok(())
            },
        }
    }

    /// The verdict once every component of the event has been observed.
    pub fn finish(&self) -> (verdict: Result<(), DensityFault>)
        requires
            self.wf(),
        ensures
            verdict == event_verdict(self@),
            verdict == Ok::<(), DensityFault>(()) <==> exists|i: int|
                0 <= i < self@.len() && #[trigger] self@[i] == DensityClass::Positive,
            verdict != Ok::<(), DensityFault>(()) ==> verdict == Err::<(), DensityFault>(
                DensityFault::AllZero,
            ),
    {
        proof {
            lemma_valid_event_accepted_iff_positive(self@);
        }
        if self.any_positive {
            Ok(())
        } else {
            Err(DensityFault::AllZero)
        }
    }
}

} // verus!
