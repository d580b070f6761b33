//! The linear-regression scoring engine.
//!
//! Every numeric value is carried as an IEEE-754 double bit pattern
//! (`u64`, see `fbits`).  The engine owns everything that can be decided
//! over bit patterns: validation, the shape of the dot product, taking a
//! magnitude, the min with one, and clamping the confidence into its
//! range.  The four arithmetic primitives themselves (add, sub, mul, div
//! of doubles) are the one thing the engine cannot perform on patterns;
//! the caller hands them in as a function value, and the contract states
//! the result in terms of that function's own postcondition.

use vstd::prelude::*;
use crate::fbits::{abs_bits, is_finite_bits, is_nan_bits, le_bits, min_bits, spec_is_finite, spec_is_nan, spec_le};

verus! {

/// The number of features every input vector must carry.
pub const EXPECTED_FEATURES: usize = 10;

/// Bit pattern of the model's bias term, 2.5.
pub const BIAS_BITS: u64 = 0x4004000000000000;

/// Bit pattern of 0.0: the dot product starts from it.
pub const ZERO_BITS: u64 = 0;

/// Bit pattern of 1.0: cap of the normalized distance.
pub const ONE_BITS: u64 = 0x3ff0000000000000;

/// Bit pattern of 50.0: the distance at which confidence saturates.
pub const MAX_DISTANCE_BITS: u64 = 0x4049000000000000;

/// Bit pattern of 0.85: the confidence floor.
pub const CONFIDENCE_FLOOR_BITS: u64 = 0x3feb333333333333;

/// Bit pattern of 0.15: the confidence span above the floor.
pub const CONFIDENCE_SPAN_BITS: u64 = 0x3fc3333333333333;

/// One double-precision arithmetic operation, named so that a single
/// function value can carry all four primitives.
#[derive(Clone, Copy, Debug, PartialEq, Eq, Structural)]
pub enum FpOp {
    Add,
    Sub,
    Mul,
    Div,
}

/// Why a feature vector was rejected.
#[derive(Clone, Copy, Debug, PartialEq, Eq, Structural)]
pub enum ValidationError {
    /// The vector's length differs from the expected count.
    WrongFeatureCount { expected: usize, actual: usize },
    /// The element at `index` is NaN or an infinity; `value_bits` is its pattern.
    NonFiniteValue { index: usize, value_bits: u64 },
}

/// A feature vector as it reaches the engine: patterns of the ten doubles.
pub struct PredictionRequest {
    pub features: Vec<u64>,
}

/// The outcome of one successful prediction.
pub struct PredictionResponse {
    pub prediction_bits: u64,
    pub confidence_bits: u64,
    pub model_version: String,
}

/// The version label the engine stamps on every successful prediction.
pub open spec fn spec_model_version() -> Seq<char> {
    "v1.0.0"@
}

pub fn model_version() -> (s: &'static str)
    ensures
        s@ == spec_model_version(),
{
    "v1.0.0"
}

/// The fixed weight patterns, in feature order.
pub open spec fn spec_weight_bits() -> Seq<u64> {
    seq![
        0x3fc3333333333333u64,  // 0.15
        0xbfcd70a3d70a3d71u64,  // -0.23
        0x3febd70a3d70a3d7u64,  // 0.87
        0xbfdccccccccccccdu64,  // -0.45
        0x3fe570a3d70a3d71u64,  // 0.67
        0x3fd5c28f5c28f5c3u64,  // 0.34
        0xbfbeb851eb851eb8u64,  // -0.12
        0x3fec7ae147ae147bu64,  // 0.89
        0xbfe1eb851eb851ecu64,  // -0.56
        0x3fe8f5c28f5c28f6u64,  // 0.78
    ]
}

pub open spec fn spec_all_finite(s: Seq<u64>) -> bool {
    forall|j: int| 0 <= j < s.len() ==> spec_is_finite(#[trigger] s[j])
}

/// Index of the first non-finite pattern, or -1 when all are finite.
pub open spec fn spec_first_nonfinite(s: Seq<u64>) -> int
    decreases s.len(),
{
    if s.len() == 0 {
        -1
    } else if !spec_is_finite(s[0]) {
        0
    } else {
        let r = spec_first_nonfinite(s.skip(1));
        if r < 0 {
            -1
        } else {
            r + 1
        }
    }
}

pub proof fn lemma_first_nonfinite_at(s: Seq<u64>, i: int)
    requires
        0 <= i < s.len(),
        !spec_is_finite(s[i]),
        forall|j: int| 0 <= j < i ==> spec_is_finite(#[trigger] s[j]),
    ensures
        spec_first_nonfinite(s) == i,
    decreases i,
{
    if i == 0 {
    } else {
        assert(spec_is_finite(s[0]));
        assert(s.skip(1)[i - 1] == s[i]);
        assert(forall|j: int| 0 <= j < i - 1 ==> #[trigger] s.skip(1)[j] == s[j + 1]);
        lemma_first_nonfinite_at(s.skip(1), i - 1);
    }
}

pub proof fn lemma_first_nonfinite_none(s: Seq<u64>)
    requires
        spec_all_finite(s),
    ensures
        spec_first_nonfinite(s) == -1,
    decreases s.len(),
{
    if s.len() > 0 {
        assert(forall|j: int| 0 <= j < s.len() - 1 ==> #[trigger] s.skip(1)[j] == s[j + 1]);
        lemma_first_nonfinite_none(s.skip(1));
    }
}

/// What validation returns on a given vector of patterns.
pub open spec fn spec_validate(s: Seq<u64>) -> Result<(), ValidationError> {
    if s.len() != EXPECTED_FEATURES {
        Err(ValidationError::WrongFeatureCount { expected: EXPECTED_FEATURES, actual: s.len() as usize })
    } else if spec_first_nonfinite(s) >= 0 {
        Err(ValidationError::NonFiniteValue {
            index: spec_first_nonfinite(s) as usize,
            value_bits: s[spec_first_nonfinite(s)],
        })
    } else {
        Ok(())
    }
}

/// A vector of the wrong length is rejected with the wrong-count
/// error, which reports the expected and the actual length.
pub proof fn lemma_validate_wrong_count(s: Seq<u64>)
    requires
        s.len() != EXPECTED_FEATURES,
        s.len() <= usize::MAX,
    ensures
        spec_validate(s) == Err::<(), ValidationError>(
            ValidationError::WrongFeatureCount {
                expected: EXPECTED_FEATURES,
                actual: s.len() as usize,
            },
        ),
{
}

/// A vector of the right length holding a non-finite pattern is
/// rejected with the non-finite error, which reports the first
/// offending index and the pattern found there.
pub proof fn lemma_validate_non_finite(s: Seq<u64>, i: int)
    requires
        s.len() == EXPECTED_FEATURES,
        0 <= i < s.len(),
        !spec_is_finite(s[i]),
        forall|j: int| 0 <= j < i ==> spec_is_finite(#[trigger] s[j]),
    ensures
        spec_validate(s) == Err::<(), ValidationError>(
            ValidationError::NonFiniteValue { index: i as usize, value_bits: s[i] },
        ),
{
    lemma_first_nonfinite_at(s, i);
}

/// A vector of the right length whose patterns are all finite is
/// accepted.
pub proof fn lemma_validate_accepts(s: Seq<u64>)
    requires
        s.len() == EXPECTED_FEATURES,
        spec_all_finite(s),
    ensures
        spec_validate(s) == Ok::<(), ValidationError>(()),
{
    lemma_first_nonfinite_none(s);
}

/// The shape of the sequential dot product, stated over the arithmetic
/// function's postcondition: `result` is reachable from the zero pattern
/// by multiplying each weight with its feature and adding the product,
/// left to right.
pub open spec fn spec_dot_chain<F: Fn(FpOp, u64, u64) -> u64>(
    fpu: F,
    ws: Seq<u64>,
    xs: Seq<u64>,
    result: u64,
) -> bool
    decreases ws.len(),
{
    if ws.len() == 0 {
        result == ZERO_BITS
    } else {
        exists|acc: u64, p: u64|
            {
                &&& spec_dot_chain(fpu, ws.drop_last(), xs.drop_last(), acc)
                &&& call_ensures(fpu, (FpOp::Mul, ws.last(), xs.last()), p)
                &&& #[trigger] call_ensures(fpu, (FpOp::Add, acc, p), result)
            }
    }
}

/// A dot-product chain over an arithmetic function whose results are
/// determined by its arguments can end in only one pattern.
pub proof fn lemma_dot_chain_deterministic<F: Fn(FpOp, u64, u64) -> u64>(
    fpu: F,
    ws: Seq<u64>,
    xs: Seq<u64>,
    r1: u64,
    r2: u64,
)
    requires
        forall|op: FpOp, x: u64, y: u64, a: u64, b: u64|
            #[trigger] call_ensures(fpu, (op, x, y), a) && #[trigger] call_ensures(
                fpu,
                (op, x, y),
                b,
            ) ==> a == b,
        spec_dot_chain(fpu, ws, xs, r1),
        spec_dot_chain(fpu, ws, xs, r2),
    ensures
        r1 == r2,
    decreases ws.len(),
{
    if ws.len() > 0 {
        let (acc1, p1) = choose|acc: u64, p: u64|
            {
                &&& spec_dot_chain(fpu, ws.drop_last(), xs.drop_last(), acc)
                &&& call_ensures(fpu, (FpOp::Mul, ws.last(), xs.last()), p)
                &&& #[trigger] call_ensures(fpu, (FpOp::Add, acc, p), r1)
            };
        let (acc2, p2) = choose|acc: u64, p: u64|
            {
                &&& spec_dot_chain(fpu, ws.drop_last(), xs.drop_last(), acc)
                &&& call_ensures(fpu, (FpOp::Mul, ws.last(), xs.last()), p)
                &&& #[trigger] call_ensures(fpu, (FpOp::Add, acc, p), r2)
            };
        lemma_dot_chain_deterministic(fpu, ws.drop_last(), xs.drop_last(), acc1, acc2);
        assert(p1 == p2);
        assert(r1 == r2);
    }
}

/// Scoring the same accepted vector twice with a deterministic
/// arithmetic unit gives the same prediction pattern: the dot-product
/// chain and the final bias addition admit a single outcome.
pub proof fn lemma_prediction_deterministic<F: Fn(FpOp, u64, u64) -> u64>(
    fpu: F,
    xs: Seq<u64>,
    p1: u64,
    p2: u64,
)
    requires
        forall|op: FpOp, x: u64, y: u64, a: u64, b: u64|
            #[trigger] call_ensures(fpu, (op, x, y), a) && #[trigger] call_ensures(
                fpu,
                (op, x, y),
                b,
            ) ==> a == b,
        exists|s: u64|
            #[trigger] spec_dot_chain(fpu, spec_weight_bits(), xs, s) && call_ensures(
                fpu,
                (FpOp::Add, s, BIAS_BITS),
                p1,
            ),
        exists|s: u64|
            #[trigger] spec_dot_chain(fpu, spec_weight_bits(), xs, s) && call_ensures(
                fpu,
                (FpOp::Add, s, BIAS_BITS),
                p2,
            ),
    ensures
        p1 == p2,
{
    let s1 = choose|s: u64|
        #[trigger] spec_dot_chain(fpu, spec_weight_bits(), xs, s) && call_ensures(
            fpu,
            (FpOp::Add, s, BIAS_BITS),
            p1,
        );
    let s2 = choose|s: u64|
        #[trigger] spec_dot_chain(fpu, spec_weight_bits(), xs, s) && call_ensures(
            fpu,
            (FpOp::Add, s, BIAS_BITS),
            p2,
        );
    lemma_dot_chain_deterministic(fpu, spec_weight_bits(), xs, s1, s2);
}

/// What the clamp returns for a pattern: anything not finite or below
/// the floor becomes the floor, anything above the cap becomes the
/// cap, and the range passes through.
pub open spec fn spec_clamp_confidence(c: u64) -> u64 {
    if !spec_is_finite(c) {
        CONFIDENCE_FLOOR_BITS
    } else if !spec_le(CONFIDENCE_FLOOR_BITS, c) {
        CONFIDENCE_FLOOR_BITS
    } else if !spec_le(c, ONE_BITS) {
        ONE_BITS
    } else {
        c
    }
}

/// The shape of the confidence computation that follows a prediction:
/// subtract the bias, take the magnitude, divide by the saturation
/// distance, cap at one (an undefined ratio counts as one), invert,
/// scale into the span, raise by the floor, clamp.  Each arithmetic
/// step is tied to the arithmetic function's postcondition.
pub open spec fn spec_confidence_chain<F: Fn(FpOp, u64, u64) -> u64>(
    fpu: F,
    pred: u64,
    conf: u64,
) -> bool {
    exists|diff: u64, norm: u64, om: u64, scaled: u64, rawc: u64|
        {
            &&& #[trigger] call_ensures(fpu, (FpOp::Sub, pred, BIAS_BITS), diff)
            &&& #[trigger] call_ensures(
                fpu,
                (FpOp::Div, diff & 0x7fffffffffffffff, MAX_DISTANCE_BITS),
                norm,
            )
            &&& call_ensures(
                fpu,
                (
                    FpOp::Sub,
                    ONE_BITS,
                    if spec_is_nan(norm) {
                        ONE_BITS
                    } else if spec_le(norm, ONE_BITS) {
                        norm
                    } else {
                        ONE_BITS
                    },
                ),
                om,
            )
            &&& #[trigger] call_ensures(fpu, (FpOp::Mul, om, CONFIDENCE_SPAN_BITS), scaled)
            &&& #[trigger] call_ensures(fpu, (FpOp::Add, CONFIDENCE_FLOOR_BITS, scaled), rawc)
            &&& conf == spec_clamp_confidence(rawc)
        }
}

/// With an arithmetic function whose results are determined by its
/// arguments, one prediction pattern admits one confidence pattern.
pub proof fn lemma_confidence_chain_deterministic<F: Fn(FpOp, u64, u64) -> u64>(
    fpu: F,
    pred: u64,
    c1: u64,
    c2: u64,
)
    requires
        forall|op: FpOp, x: u64, y: u64, a: u64, b: u64|
            #[trigger] call_ensures(fpu, (op, x, y), a) && #[trigger] call_ensures(
                fpu,
                (op, x, y),
                b,
            ) ==> a == b,
        spec_confidence_chain(fpu, pred, c1),
        spec_confidence_chain(fpu, pred, c2),
    ensures
        c1 == c2,
{
    let (d1, n1, o1, s1, r1) = choose|diff: u64, norm: u64, om: u64, scaled: u64, rawc: u64|
        {
            &&& #[trigger] call_ensures(fpu, (FpOp::Sub, pred, BIAS_BITS), diff)
            &&& #[trigger] call_ensures(
                fpu,
                (FpOp::Div, diff & 0x7fffffffffffffff, MAX_DISTANCE_BITS),
                norm,
            )
            &&& call_ensures(
                fpu,
                (
                    FpOp::Sub,
                    ONE_BITS,
                    if spec_is_nan(norm) {
                        ONE_BITS
                    } else if spec_le(norm, ONE_BITS) {
                        norm
                    } else {
                        ONE_BITS
                    },
                ),
                om,
            )
            &&& #[trigger] call_ensures(fpu, (FpOp::Mul, om, CONFIDENCE_SPAN_BITS), scaled)
            &&& #[trigger] call_ensures(fpu, (FpOp::Add, CONFIDENCE_FLOOR_BITS, scaled), rawc)
            &&& c1 == spec_clamp_confidence(rawc)
        };
    let (d2, n2, o2, s2, r2) = choose|diff: u64, norm: u64, om: u64, scaled: u64, rawc: u64|
        {
            &&& #[trigger] call_ensures(fpu, (FpOp::Sub, pred, BIAS_BITS), diff)
            &&& #[trigger] call_ensures(
                fpu,
                (FpOp::Div, diff & 0x7fffffffffffffff, MAX_DISTANCE_BITS),
                norm,
            )
            &&& call_ensures(
                fpu,
                (
                    FpOp::Sub,
                    ONE_BITS,
                    if spec_is_nan(norm) {
                        ONE_BITS
                    } else if spec_le(norm, ONE_BITS) {
                        norm
                    } else {
                        ONE_BITS
                    },
                ),
                om,
            )
            &&& #[trigger] call_ensures(fpu, (FpOp::Mul, om, CONFIDENCE_SPAN_BITS), scaled)
            &&& #[trigger] call_ensures(fpu, (FpOp::Add, CONFIDENCE_FLOOR_BITS, scaled), rawc)
            &&& c2 == spec_clamp_confidence(rawc)
        };
    assert(d1 == d2);
    assert(n1 == n2);
    assert(o1 == o2);
    assert(s1 == s2);
    assert(r1 == r2);
}

/// Scoring one accepted vector with a deterministic arithmetic unit
/// admits one prediction pattern and one confidence pattern: the whole
/// outcome of `predict` is a function of the features.
pub proof fn lemma_predict_outcome_deterministic<F: Fn(FpOp, u64, u64) -> u64>(
    fpu: F,
    xs: Seq<u64>,
    p1: u64,
    c1: u64,
    p2: u64,
    c2: u64,
)
    requires
        forall|op: FpOp, x: u64, y: u64, a: u64, b: u64|
            #[trigger] call_ensures(fpu, (op, x, y), a) && #[trigger] call_ensures(
                fpu,
                (op, x, y),
                b,
            ) ==> a == b,
        exists|s: u64|
            #[trigger] spec_dot_chain(fpu, spec_weight_bits(), xs, s) && call_ensures(
                fpu,
                (FpOp::Add, s, BIAS_BITS),
                p1,
            ),
        exists|s: u64|
            #[trigger] spec_dot_chain(fpu, spec_weight_bits(), xs, s) && call_ensures(
                fpu,
                (FpOp::Add, s, BIAS_BITS),
                p2,
            ),
        spec_confidence_chain(fpu, p1, c1),
        spec_confidence_chain(fpu, p2, c2),
    ensures
        p1 == p2,
        c1 == c2,
{
    lemma_prediction_deterministic(fpu, xs, p1, p2);
    lemma_confidence_chain_deterministic(fpu, p1, c1, c2);
}

/// The confidence range's two ends are ordinary finite patterns, with
/// the floor below the cap.
pub proof fn lemma_confidence_constants()
    ensures
        spec_is_finite(CONFIDENCE_FLOOR_BITS),
        spec_is_finite(ONE_BITS),
        !spec_is_nan(CONFIDENCE_FLOOR_BITS),
        !spec_is_nan(ONE_BITS),
        spec_le(CONFIDENCE_FLOOR_BITS, ONE_BITS),
{
    assert(((0x3feb333333333333u64 >> 52) & 0x7ff) == 0x3fe) by (bit_vector);
    assert(((0x3ff0000000000000u64 >> 52) & 0x7ff) == 0x3ff) by (bit_vector);
    assert((0x3feb333333333333u64 >> 63) == 0) by (bit_vector);
    assert((0x3ff0000000000000u64 >> 63) == 0) by (bit_vector);
    crate::fbits::lemma_mag_lex(CONFIDENCE_FLOOR_BITS, ONE_BITS);
}

/// Pulls a pattern into the confidence range; a pattern already in the
/// range passes through unchanged.
pub fn clamp_confidence(c: u64) -> (r: u64)
    ensures
        r == spec_clamp_confidence(c),
        spec_is_finite(r),
        spec_le(CONFIDENCE_FLOOR_BITS, r),
        spec_le(r, ONE_BITS),
        spec_is_finite(c) && spec_le(CONFIDENCE_FLOOR_BITS, c) && spec_le(c, ONE_BITS) ==> r
            == c,
{
    proof {
        lemma_confidence_constants();
    }
    if !is_finite_bits(c) {
        CONFIDENCE_FLOOR_BITS
    } else if !le_bits(CONFIDENCE_FLOOR_BITS, c) {
        CONFIDENCE_FLOOR_BITS
    } else if !le_bits(c, ONE_BITS) {
        ONE_BITS
    } else {
        c
    }
}

/// The immutable scoring parameters: ten weight patterns and a bias pattern.
pub struct LinearRegressionModel {
    pub weights: Vec<u64>,
    pub bias: u64,
}

impl Default for LinearRegressionModel {
    fn default() -> (m: Self)
        ensures
            m.wf(),
    {
        Self::new()
    }
}

/// Hands out the model every caller shares.  Construction draws on no
/// configuration, randomness or input, so any two calls return the
/// same parameters (`lemma_model_parameters_unique`): holding one
/// instance and constructing on demand cannot be told apart.
pub fn get_model() -> (m: LinearRegressionModel)
    ensures
        m.wf(),
{
    LinearRegressionModel::new()
}

/// Two well-formed models carry the same parameters: the model is
/// unique up to its contents.
pub proof fn lemma_model_parameters_unique(m1: LinearRegressionModel, m2: LinearRegressionModel)
    requires
        m1.wf(),
        m2.wf(),
    ensures
        m1.weights@ == m2.weights@,
        m1.bias == m2.bias,
{
}

impl LinearRegressionModel {
    /// The parameters the model always carries.
    pub open spec fn wf(&self) -> bool {
        &&& self.weights@ == spec_weight_bits()
        &&& self.bias == BIAS_BITS
    }

    /// Builds the one model this service serves: fixed weights, fixed bias.
    pub fn new() -> (m: Self)
        ensures
            m.wf(),
    {
        let mut weights: Vec<u64> = Vec::new();
        weights.push(0x3fc3333333333333u64);
        weights.push(0xbfcd70a3d70a3d71u64);
        weights.push(0x3febd70a3d70a3d7u64);
        weights.push(0xbfdccccccccccccdu64);
        weights.push(0x3fe570a3d70a3d71u64);
        weights.push(0x3fd5c28f5c28f5c3u64);
        weights.push(0xbfbeb851eb851eb8u64);
        weights.push(0x3fec7ae147ae147bu64);
        weights.push(0xbfe1eb851eb851ecu64);
        weights.push(0x3fe8f5c28f5c28f6u64);
        proof {
            assert(weights@ =~= spec_weight_bits());
        }
        LinearRegressionModel { weights, bias: BIAS_BITS }
    }

    /// The weight patterns, for callers that run the arithmetic.
    pub fn weight_bits(&self) -> (w: &Vec<u64>)
        ensures
            w@ == self.weights@,
    {
        &self.weights
    }

    /// The bias pattern.
    pub fn bias_bits(&self) -> (b: u64)
        ensures
            b == self.bias,
    {
        self.bias
    }

    /// Scores a validated vector: the sequential dot product of the
    /// weights with the features, plus the bias, each double operation
    /// performed by `fpu`; then the confidence derived from the
    /// prediction's distance to the bias and clamped into its range.
    pub fn predict<F: Fn(FpOp, u64, u64) -> u64>(
        &self,
        features: &Vec<u64>,
        fpu: F,
    ) -> (r: Result<PredictionResponse, ValidationError>)
        requires
            self.wf(),
            forall|op: FpOp, x: u64, y: u64| call_requires(fpu, (op, x, y)),
        ensures
            r is Ok <==> spec_validate(features@) is Ok,
            r matches Err(e) ==> spec_validate(features@) == Err::<(), ValidationError>(e),
            r matches Ok(out) ==> {
                &&& out.model_version@ == spec_model_version()
                &&& spec_is_finite(out.confidence_bits)
                &&& spec_le(CONFIDENCE_FLOOR_BITS, out.confidence_bits)
                &&& spec_le(out.confidence_bits, ONE_BITS)
                &&& exists|s: u64|
                    #[trigger] spec_dot_chain(fpu, spec_weight_bits(), features@, s)
                        && call_ensures(fpu, (FpOp::Add, s, BIAS_BITS), out.prediction_bits)
                &&& spec_confidence_chain(fpu, out.prediction_bits, out.confidence_bits)
            },
    {
        match self.validate_features(features) {
            Err(e) => Err(e),
            Ok(()) => {
                let mut acc: u64 = ZERO_BITS;
                let mut i: usize = 0;
                while i < EXPECTED_FEATURES
                    invariant
                        self.wf(),
                        features@.len() == EXPECTED_FEATURES,
                        0 <= i <= EXPECTED_FEATURES,
                        forall|op: FpOp, x: u64, y: u64| call_requires(fpu, (op, x, y)),
                        spec_dot_chain(
                            fpu,
                            spec_weight_bits().take(i as int),
                            features@.take(i as int),
                            acc,
                        ),
                    decreases EXPECTED_FEATURES - i,
                {
                    let p = fpu(FpOp::Mul, self.weights[i], features[i]);
                    let acc2 = fpu(FpOp::Add, acc, p);
                    proof {
                        let wsi = spec_weight_bits().take(i as int + 1);
                        let xsi = features@.take(i as int + 1);
                        assert(wsi.drop_last() =~= spec_weight_bits().take(i as int));
                        assert(xsi.drop_last() =~= features@.take(i as int));
                        assert(wsi.last() == spec_weight_bits()[i as int]);
                        assert(xsi.last() == features@[i as int]);
                        assert(spec_dot_chain(fpu, wsi, xsi, acc2));
                    }
                    acc = acc2;
                    i += 1;
                }
                proof {
                    assert(spec_weight_bits().take(EXPECTED_FEATURES as int) =~= spec_weight_bits());
                    assert(features@.take(EXPECTED_FEATURES as int) =~= features@);
                }
                let pred = fpu(FpOp::Add, acc, self.bias);
                let diff = fpu(FpOp::Sub, pred, self.bias);
                let dist = abs_bits(diff);
                let norm = fpu(FpOp::Div, dist, MAX_DISTANCE_BITS);
                proof {
                    lemma_confidence_constants();
                }
                let nd = if is_nan_bits(norm) {
                    // the distance cap ignores an undefined ratio, as the
                    // double min does
                    ONE_BITS
                } else {
                    min_bits(norm, ONE_BITS)
                };
                let om = fpu(FpOp::Sub, ONE_BITS, nd);
                let scaled = fpu(FpOp::Mul, om, CONFIDENCE_SPAN_BITS);
                let rawc = fpu(FpOp::Add, CONFIDENCE_FLOOR_BITS, scaled);
                let conf = clamp_confidence(rawc);
                proof {
                    crate::fbits::lemma_abs_fields(diff);
                    assert(nd == (if spec_is_nan(norm) {
                        ONE_BITS
                    } else if spec_le(norm, ONE_BITS) {
                        norm
                    } else {
                        ONE_BITS
                    }));
                    assert(spec_confidence_chain(fpu, pred, conf));
                }
                Ok(PredictionResponse {
                    prediction_bits: pred,
                    confidence_bits: conf,
                    model_version: model_version().to_owned(),
                })
            },
        }
    }

    /// Rejects a vector of the wrong length, then the first non-finite
    /// element; accepts everything else.
    pub fn validate_features(&self, features: &Vec<u64>) -> (r: Result<(), ValidationError>)
        ensures
            r == spec_validate(features@),
    {
        if features.len() != EXPECTED_FEATURES {
            return Err(ValidationError::WrongFeatureCount {
                expected: EXPECTED_FEATURES,
                actual: features.len(),
            });
        }
        let mut i: usize = 0;
        while i < features.len()
            invariant
                0 <= i <= features@.len(),
                features@.len() == EXPECTED_FEATURES,
                forall|j: int| 0 <= j < i ==> spec_is_finite(#[trigger] features@[j]),
            decreases features@.len() - i,
        {
            let v = features[i];
            if !is_finite_bits(v) {
                proof {
                    lemma_first_nonfinite_at(features@, i as int);
                    assert(spec_first_nonfinite(features@) == i as int);
                    assert(spec_first_nonfinite(features@) as usize == i);
                    assert(features@[spec_first_nonfinite(features@)] == v);
                }
                return Err(ValidationError::NonFiniteValue { index: i, value_bits: v });
            }
            i += 1;
        }
        proof {
            lemma_first_nonfinite_none(features@);
        }
        Ok(())
    }
}

} // verus!
