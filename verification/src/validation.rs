use vstd::prelude::*;

verus! {

/// The structural reasons for which a fit request is refused before any PDF
/// is evaluated, in the order in which they are checked.
#[derive(Clone, Copy, Debug, PartialEq, Eq, Structural)]
pub enum InputError {
    /// There are no events.
    EmptyData,
    /// There are no component PDFs.
    NoPdfs,
    /// The events do not share one nonzero dimension.
    InconsistentDimension,
    /// Some event coordinate is not finite.
    NonFiniteCoordinate,
    /// The optimizer step limit is zero.
    ZeroMaxSteps,
    /// The convergence tolerance is not finite and strictly positive.
    InvalidTolerance,
    /// The event-weight vector does not have one entry per event.
    EventWeightCount { found: usize, expected: usize },
    /// Some event weight is not finite.
    NonFiniteEventWeight,
    /// The shape parameter at `index` repeats the name of an earlier one.
    DuplicateShapeParameter { index: usize },
    /// The shape parameter at `index` has an empty name, a non-finite
    /// initial value, a NaN bound, a lower bound not strictly below its upper
    /// bound, or an initial value outside its bounds.
    InvalidShapeParameter { index: usize },
    /// The initial yields do not have one finite, nonnegative value per PDF
    /// with a positive sum.
    InvalidInitialYields,
}

/// What the validation of a fit request reads from the request.
///
/// Lengths, names and the optimizer step limit are held as they are; the
/// properties of floating-point values (finiteness, sign, sums) are held as
/// the outcome of their test.
#[derive(Debug)]
pub struct InputSummary {
    /// The dimension of each event, in event order.
    pub event_dimensions: Vec<usize>,
    /// The number of component PDFs.
    pub n_pdfs: usize,
    /// Whether every coordinate of every event is finite.
    pub coordinates_finite: bool,
    /// The optimizer step limit, if any.
    pub max_steps: Option<usize>,
    /// Whether the tolerance is finite and strictly positive.
    pub tolerance_valid: bool,
    /// The number of supplied event weights, or `None` for unit weights.
    pub event_weight_count: Option<usize>,
    /// Whether every supplied event weight is finite.
    pub event_weights_finite: bool,
    /// The shape-parameter names, in declaration order.
    pub shape_parameter_names: Vec<String>,
    /// For each shape parameter, in declaration order, whether its initial
    /// value is finite, neither bound is NaN, its lower bound is strictly
    /// below its upper bound, and its initial value lies within them. A
    /// parameter without an entry counts as not satisfying this.
    pub shape_parameter_values_valid: Vec<bool>,
    /// The number of supplied initial yields, or `None` for the default of
    /// one equal yield per PDF.
    pub initial_yield_count: Option<usize>,
    /// Whether the initial yields in effect (supplied or default) are all
    /// finite and nonnegative and have a positive sum.
    pub initial_yields_valid: bool,
}

/// The names as character sequences.
pub open spec fn name_views(names: Seq<String>) -> Seq<Seq<char>> {
    names.map_values(|name: String| name@)
}

/// The name at `i` equals a name at some smaller index.
pub open spec fn repeats_earlier(names: Seq<Seq<char>>, i: int) -> bool {
    exists|j: int| 0 <= j < i && names[j] == names[i]
}

/// `i` is the smallest index whose name repeats an earlier name.
pub open spec fn is_first_repeat(names: Seq<Seq<char>>, i: int) -> bool {
    &&& 0 <= i < names.len()
    &&& repeats_earlier(names, i)
    &&& forall|k: int| 0 <= k < i ==> !repeats_earlier(names, k)
}

/// No two names are equal.
pub open spec fn all_distinct(names: Seq<Seq<char>>) -> bool {
    forall|i: int, j: int| 0 <= i < j < names.len() ==> names[i] != names[j]
}

/// The index of the first repeated name, where some name repeats.
pub open spec fn first_repeat(names: Seq<Seq<char>>) -> int {
    choose|i: int| is_first_repeat(names, i)
}

/// At most one index is the first repeat.
pub proof fn lemma_first_repeat_unique(names: Seq<Seq<char>>, i: int, k: int)
    requires
        is_first_repeat(names, i),
        is_first_repeat(names, k),
    ensures
        i == k,
{
}

/// A sequence with two equal names has a first repeated name, and
/// `first_repeat` is it.
pub proof fn lemma_first_repeat_exists(names: Seq<Seq<char>>)
    requires
        !all_distinct(names),
    ensures
        is_first_repeat(names, first_repeat(names)),
    decreases names.len(),
{
    let (a, b) = choose|a: int, b: int| 0 <= a < b < names.len() && names[a] == names[b];
    if names.len() > 0 {
        let shorter = names.drop_last();
        if !all_distinct(shorter) {
            lemma_first_repeat_exists(shorter);
            let i = first_repeat(shorter);
            assert forall|k: int| 0 <= k < i implies !repeats_earlier(names, k) by {
                if repeats_earlier(names, k) {
                    let j = choose|j: int| 0 <= j < k && names[j] == names[k];
                    assert(shorter[j] == shorter[k]);
                    assert(repeats_earlier(shorter, k));
                }
            }
            assert(names[i] == shorter[i]);
            let j = choose|j: int| 0 <= j < i && shorter[j] == shorter[i];
            assert(names[j] == names[i]);
            assert(is_first_repeat(names, i));
        } else {
            let last = names.len() - 1;
            assert(b == last) by {
                if b < last {
                    assert(shorter[a] == shorter[b]);
                }
            }
            assert forall|k: int| 0 <= k < last implies !repeats_earlier(names, k) by {
                if repeats_earlier(names, k) {
                    let j = choose|j: int| 0 <= j < k && names[j] == names[k];
                    assert(shorter[j] == shorter[k]);
                }
            }
            assert(is_first_repeat(names, last));
        }
    }
}

impl InputSummary {
    /// Every event has the dimension of the first event, and it is nonzero.
    pub open spec fn dimensions_consistent(&self) -> bool {
        &&& self.event_dimensions@.len() > 0
        &&& self.event_dimensions@[0] > 0
        &&& forall|i: int|
            0 <= i < self.event_dimensions@.len() ==> #[trigger] self.event_dimensions@[i]
                == self.event_dimensions@[0]
    }

    /// The shape parameter at `i` has an empty name or values that are not
    /// valid.
    pub open spec fn shape_parameter_malformed(&self, i: int) -> bool {
        ||| self.shape_parameter_names@[i]@.len() == 0
        ||| !(i < self.shape_parameter_values_valid@.len() && self.shape_parameter_values_valid@[i])
    }

    /// `i` is the smallest index of a malformed shape parameter.
    pub open spec fn is_first_malformed(&self, i: int) -> bool {
        &&& 0 <= i < self.shape_parameter_names@.len()
        &&& self.shape_parameter_malformed(i)
        &&& forall|k: int| 0 <= k < i ==> !#[trigger] self.shape_parameter_malformed(k)
    }

    /// No shape parameter is malformed.
    pub open spec fn shape_parameters_well_formed(&self) -> bool {
        forall|i: int|
            0 <= i < self.shape_parameter_names@.len() ==> !#[trigger] self.shape_parameter_malformed(i)
    }

    /// The outcome of validation: the first check that fails, in the order
    /// events, PDFs, dimensions, coordinates, step limit, tolerance, weight
    /// count, weight values, shape-parameter names, shape-parameter values,
    /// initial yields.
    pub open spec fn verdict(&self) -> Result<(), InputError> {
        let n_events = self.event_dimensions@.len();
        let names = name_views(self.shape_parameter_names@);
        if n_events == 0 {
            Err(InputError::EmptyData)
        } else if self.n_pdfs == 0 {
            Err(InputError::NoPdfs)
        } else if !self.dimensions_consistent() {
            Err(InputError::InconsistentDimension)
        } else if !self.coordinates_finite {
            Err(InputError::NonFiniteCoordinate)
        } else if self.max_steps == Some(0usize) {
            Err(InputError::ZeroMaxSteps)
        } else if !self.tolerance_valid {
            Err(InputError::InvalidTolerance)
        } else if self.event_weight_count is Some && self.event_weight_count->0 != n_events {
            Err(
                InputError::EventWeightCount {
                    found: self.event_weight_count->0,
                    expected: n_events as usize,
                },
            )
        } else if self.event_weight_count is Some && !self.event_weights_finite {
            Err(InputError::NonFiniteEventWeight)
        } else if !all_distinct(names) {
            Err(InputError::DuplicateShapeParameter { index: first_repeat(names) as usize })
        } else if !self.shape_parameters_well_formed() {
            Err(
                InputError::InvalidShapeParameter {
                    index: (choose|i: int| self.is_first_malformed(i)) as usize,
                },
            )
        } else if (self.initial_yield_count is Some && self.initial_yield_count->0 != self.n_pdfs)
            || !self.initial_yields_valid {
            Err(InputError::InvalidInitialYields)
        } else {
            Ok(())
        }
    }

    /// A request that passes validation has events of one common nonzero
    /// dimension, at least one PDF, a nonzero step limit if any, one event
    /// weight per event if weights are given, pairwise distinct and nonempty
    /// shape-parameter names with valid values, and one initial yield per
    /// PDF.
    pub proof fn lemma_accepted_request_is_well_formed(&self)
        requires
            self.verdict() is Ok,
        ensures
            self.event_dimensions@.len() > 0,
            self.n_pdfs > 0,
            self.dimensions_consistent(),
            self.coordinates_finite,
            self.max_steps != Some(0usize),
            self.tolerance_valid,
            self.event_weight_count is Some ==> self.event_weight_count->0
                == self.event_dimensions@.len() && self.event_weights_finite,
            all_distinct(name_views(self.shape_parameter_names@)),
            self.shape_parameters_well_formed(),
            self.initial_yield_count is Some ==> self.initial_yield_count->0 == self.n_pdfs,
            self.initial_yields_valid,
    {
    }

    /// Every requirement on a fit request, each stated on the summary's
    /// fields: events exist and share one nonzero dimension, PDFs exist,
    /// coordinates are finite, a step limit if any is nonzero, the tolerance
    /// is valid, weights if given are finite and one per event, shape
    /// parameters have pairwise distinct nonempty names and valid values, a
    /// supplied initial-yield vector has one entry per PDF, and the initial
    /// yields in effect are valid.
    pub open spec fn request_well_formed(&self) -> bool {
        let dims = self.event_dimensions@;
        let names = self.shape_parameter_names@;
        let flags = self.shape_parameter_values_valid@;
        &&& dims.len() > 0
        &&& self.n_pdfs > 0
        &&& dims[0] > 0
        &&& forall|i: int| 0 <= i < dims.len() ==> #[trigger] dims[i] == dims[0]
        &&& self.coordinates_finite
        &&& self.max_steps != Some(0usize)
        &&& self.tolerance_valid
        &&& (self.event_weight_count is Some ==> self.event_weight_count->0 == dims.len()
            && self.event_weights_finite)
        &&& forall|i: int, j: int|
            0 <= i < j < names.len() ==> #[trigger] names[i]@ != #[trigger] names[j]@
        &&& forall|i: int|
            0 <= i < names.len() ==> #[trigger] names[i]@.len() > 0 && i < flags.len() && flags[i]
        &&& (self.initial_yield_count is Some ==> self.initial_yield_count->0 == self.n_pdfs)
        &&& self.initial_yields_valid
    }

    /// A request is accepted exactly when it meets every requirement: no
    /// check refuses a request that meets them all, whatever its number of
    /// events, PDFs or dimensions.
    pub proof fn lemma_accepted_iff_well_formed(&self)
        ensures
            self.verdict() == Ok::<(), InputError>(()) <==> self.request_well_formed(),
    {
        let names = self.shape_parameter_names@;
        let views = name_views(names);
        if self.request_well_formed() {
            assert forall|i: int, j: int| 0 <= i < j < views.len() implies views[i]
                != views[j] by {
                assert(views[i] == names[i]@);
                assert(views[j] == names[j]@);
            }
            assert forall|i: int| 0 <= i < names.len() implies !#[trigger] self.shape_parameter_malformed(
                i,
            ) by {
                assert(names[i]@.len() > 0);
            }
        }
        if self.verdict() == Ok::<(), InputError>(()) {
            assert forall|i: int, j: int| 0 <= i < j < names.len() implies #[trigger] names[i]@
                != #[trigger] names[j]@ by {
                assert(views[i] == names[i]@);
                assert(views[j] == names[j]@);
            }
            assert forall|i: int| 0 <= i < names.len() implies #[trigger] names[i]@.len() > 0
                && i < self.shape_parameter_values_valid@.len()
                && self.shape_parameter_values_valid@[i] by {
                assert(!self.shape_parameter_malformed(i));
            }
        }
    }

    /// Where some shape parameter is malformed, there is a first one.
    pub proof fn lemma_first_malformed_exists(&self, k: int)
        requires
            0 <= k < self.shape_parameter_names@.len(),
            self.shape_parameter_malformed(k),
        ensures
            exists|i: int| self.is_first_malformed(i),
        decreases k,
    {
        if forall|m: int| 0 <= m < k ==> !#[trigger] self.shape_parameter_malformed(m) {
            assert(self.is_first_malformed(k));
        } else {
            let m = choose|m: int| 0 <= m < k && #[trigger] self.shape_parameter_malformed(m);
            self.lemma_first_malformed_exists(m);
        }
    }

    /// Each refusal names a check that the request fails, and every check
    /// before it in the order passes.
    #[verifier::spinoff_prover]
    #[verifier::rlimit(40)]
    pub proof fn lemma_refusal_names_failed_check(&self)
        ensures
            self.verdict() == Err::<(), InputError>(InputError::EmptyData) ==> self.event_dimensions@.len()
                == 0,
            self.verdict() == Err::<(), InputError>(InputError::NoPdfs) ==> self.event_dimensions@.len()
                > 0 && self.n_pdfs == 0,
            self.verdict() == Err::<(), InputError>(InputError::InconsistentDimension) ==> {
                &&& self.event_dimensions@.len() > 0
                &&& self.n_pdfs > 0
                &&& (self.event_dimensions@[0] == 0 || exists|i: int|
                    0 <= i < self.event_dimensions@.len() && #[trigger] self.event_dimensions@[i]
                        != self.event_dimensions@[0])
            },
            self.verdict() == Err::<(), InputError>(InputError::NonFiniteCoordinate)
                ==> !self.coordinates_finite,
            self.verdict() == Err::<(), InputError>(InputError::ZeroMaxSteps) ==> self.max_steps
                == Some(0usize),
            self.verdict() == Err::<(), InputError>(InputError::InvalidTolerance)
                ==> !self.tolerance_valid,
            self.verdict() matches Err(InputError::EventWeightCount { found, expected }) ==> {
                &&& self.event_weight_count == Some(found)
                &&& expected == self.event_dimensions@.len()
                &&& found != expected
            },
            self.verdict() == Err::<(), InputError>(InputError::NonFiniteEventWeight) ==> {
                &&& self.event_weight_count == Some(self.event_dimensions@.len() as usize)
                &&& !self.event_weights_finite
            },
            self.verdict() matches Err(InputError::DuplicateShapeParameter { index }) ==> {
                &&& index < self.shape_parameter_names@.len()
                &&& exists|j: int|
                    0 <= j < index && #[trigger] self.shape_parameter_names@[j]@
                        == self.shape_parameter_names@[index as int]@
            },
            self.verdict() matches Err(InputError::InvalidShapeParameter { index }) ==> {
                &&& index < self.shape_parameter_names@.len()
                &&& (self.shape_parameter_names@[index as int]@.len() == 0 || !(index
                    < self.shape_parameter_values_valid@.len()
                    && self.shape_parameter_values_valid@[index as int]))
                &&& forall|k: int|
                    0 <= k < index ==> #[trigger] self.shape_parameter_names@[k]@.len() > 0 && k
                        < self.shape_parameter_values_valid@.len()
                        && self.shape_parameter_values_valid@[k]
            },
            self.verdict() == Err::<(), InputError>(InputError::InvalidInitialYields) ==> {
                ||| (self.initial_yield_count is Some && self.initial_yield_count->0 != self.n_pdfs)
                ||| !self.initial_yields_valid
            },
    {
        let names = self.shape_parameter_names@;
        let views = name_views(names);
        assert(self.event_dimensions.len() == self.event_dimensions@.len());
        assert(self.shape_parameter_names.len() == names.len());
        match self.verdict() {
            Err(InputError::InconsistentDimension) => {
                if self.event_dimensions@[0] != 0 {
                    let i = choose|i: int|
                        0 <= i < self.event_dimensions@.len() && !(#[trigger] self.event_dimensions@[i]
                            == self.event_dimensions@[0]);
                    assert(self.event_dimensions@[i] != self.event_dimensions@[0]);
                }
            },
            Err(InputError::DuplicateShapeParameter { index }) => {
                lemma_first_repeat_exists(views);
                let i = first_repeat(views);
                let j = choose|j: int| 0 <= j < i && views[j] == views[i];
                assert(views[j] == names[j]@);
                assert(views[i] == names[i]@);
            },
            Err(InputError::InvalidShapeParameter { index }) => {
                let k0 = choose|i: int|
                    0 <= i < names.len() && #[trigger] self.shape_parameter_malformed(i);
                self.lemma_first_malformed_exists(k0);
                assert forall|k: int| 0 <= k < index implies #[trigger] names[k]@.len() > 0 && k
                    < self.shape_parameter_values_valid@.len()
                    && self.shape_parameter_values_valid@[k] by {
                    assert(!self.shape_parameter_malformed(k));
                }
            },
            _ => {},
        }
    }

    /// Checks the request and reports the first failed check.
    pub fn validate(&self) -> (verdict: Result<(), InputError>)
        ensures
            verdict == self.verdict(),
            verdict == Ok::<(), InputError>(()) <==> self.request_well_formed(),
    {
        proof {
            self.lemma_accepted_iff_well_formed();
        }
        let n_events = self.event_dimensions.len();
        if n_events == 0 {
            return Err(InputError::EmptyData);
        }
        if self.n_pdfs == 0 {
            return Err(InputError::NoPdfs);
        }
        if !dimensions_agree(&self.event_dimensions) {
            return Err(InputError::InconsistentDimension);
        }
        if !self.coordinates_finite {
            return Err(InputError::NonFiniteCoordinate);
        }
        if let Some(steps) = self.max_steps {
            if steps == 0 {
                return Err(InputError::ZeroMaxSteps);
            }
        }
        if !self.tolerance_valid {
            return Err(InputError::InvalidTolerance);
        }
        if let Some(found) = self.event_weight_count {
            if found != n_events {
                return Err(InputError::EventWeightCount { found, expected: n_events });
            }
            if !self.event_weights_finite {
                return Err(InputError::NonFiniteEventWeight);
            }
        }
        if let Some(index) = first_repeated_name(&self.shape_parameter_names) {
            proof {
                let names = name_views(self.shape_parameter_names@);
                lemma_first_repeat_exists(names);
                lemma_first_repeat_unique(names, index as int, first_repeat(names));
            }
            return Err(InputError::DuplicateShapeParameter { index });
        }
        if let Some(index) = self.first_malformed_shape_parameter() {
            proof {
                let k = choose|k: int| self.is_first_malformed(k);
                if k != index as int {
                    if k < index as int {
                        assert(!self.shape_parameter_malformed(k));
                    } else {
                        assert(!self.shape_parameter_malformed(index as int));
                    }
                }
            }
            return Err(InputError::InvalidShapeParameter { index });
        }
        let count_matches = match self.initial_yield_count {
            Some(count) => count == self.n_pdfs,
            None => true,
        };
        if !count_matches || !self.initial_yields_valid {
            return Err(InputError::InvalidInitialYields);
        }
        Ok(())
    }
}

impl InputSummary {
    /// The smallest index of a malformed shape parameter, or `None` when
    /// every shape parameter is well formed.
    pub fn first_malformed_shape_parameter(&self) -> (index: Option<usize>)
        ensures
            match index {
                Some(i) => self.is_first_malformed(i as int),
                None => self.shape_parameters_well_formed(),
            },
    {
        let n = self.shape_parameter_names.len();
        let mut i: usize = 0;
        while i < n
            invariant
                0 <= i <= n,
                n == self.shape_parameter_names@.len(),
                forall|k: int| 0 <= k < i ==> !#[trigger] self.shape_parameter_malformed(k),
            decreases n - i,
        {
            let name_empty = self.shape_parameter_names[i].as_str().is_empty();
            let values_valid = i < self.shape_parameter_values_valid.len()
                && self.shape_parameter_values_valid[i];
            if name_empty || !values_valid {
                assert(self.shape_parameter_malformed(i as int));
                return Some(i);
            }
            assert(!self.shape_parameter_malformed(i as int));
            i = i + 1;
        }
        None
    }
}

/// Whether all dimensions equal the first one and it is nonzero.
pub fn dimensions_agree(dims: &Vec<usize>) -> (agree: bool)
    requires
        dims.len() > 0,
    ensures
        agree <==> (dims[0] > 0 && forall|i: int| 0 <= i < dims.len() ==> #[trigger] dims[i] == dims[0]),
{
    let dimension = dims[0];
    if dimension == 0 {
        return false;
    }
    let mut i: usize = 1;
    while i < dims.len()
        invariant
            1 <= i <= dims.len(),
            dimension == dims[0],
            forall|k: int| 0 <= k < i ==> #[trigger] dims[k] == dimension,
        decreases dims.len() - i,
    {
        if dims[i] != dimension {
            return false;
        }
        i = i + 1;
    }
    true
}

/// The smallest index whose name repeats an earlier name, or `None` when all
/// names are distinct.
pub fn first_repeated_name(names: &Vec<String>) -> (index: Option<usize>)
    ensures
        match index {
            Some(i) => is_first_repeat(name_views(names@), i as int),
            None => all_distinct(name_views(names@)),
        },
{
    let ghost views = name_views(names@);
    let mut i: usize = 0;
    while i < names.len()
        invariant
            0 <= i <= names.len(),
            views == name_views(names@),
            forall|k: int| 0 <= k < i ==> !repeats_earlier(views, k),
        decreases names.len() - i,
    {
        let mut j: usize = 0;
        while j < i
            invariant
                0 <= j <= i < names.len(),
                views == name_views(names@),
                forall|k: int| 0 <= k < i ==> !repeats_earlier(views, k),
                forall|m: int| 0 <= m < j ==> views[m] != views[i as int],
            decreases i - j,
        {
            if names[j] == names[i] {
                assert(views[j as int] == views[i as int]);
                return Some(i);
            }
            j = j + 1;
        }
        i = i + 1;
    }
    assert forall|a: int, b: int| 0 <= a < b < views.len() implies views[a] != views[b] by {
        if views[a] == views[b] {
            assert(repeats_earlier(views, b));
        }
    }
    None
}

} // verus!
