//! The metrics registry: counter families, histogram families and
//! gauges with fixed label schemas, and their text export.
//!
//! A family keeps one sample per distinct tuple of label values.  The
//! tuple's view — the sequence of its strings' character sequences — is
//! the sample's key, and every contract speaks of the first sample
//! carrying a key.  A family's well-formedness keeps the keys distinct,
//! so that "the first" is "the only".

use vstd::prelude::*;
use vstd::pervasive::VecAdditionalExecFns;
use vstd::string::StringExecFns;
use crate::fbits::{is_nan_bits, le_bits, spec_is_finite, spec_is_nan, spec_le};
use crate::scaled::{bits_to_nanos, nanos_to_text, spec_dec, spec_nanos, spec_nanos_text, u64_to_dec, NANOS_MAX};

verus! {

/// The key of a tuple of label values.
pub open spec fn labels_view(ls: Seq<String>) -> Seq<Seq<char>> {
    ls.map_values(|s: String| s@)
}

/// The key of each stored tuple, in storage order.
pub open spec fn keys_of(ls: Seq<Vec<String>>) -> Seq<Seq<Seq<char>>> {
    ls.map_values(|v: Vec<String>| labels_view(v@))
}

/// Index of the first occurrence of `k`, or -1.
pub open spec fn spec_find_key(keys: Seq<Seq<Seq<char>>>, k: Seq<Seq<char>>) -> int
    decreases keys.len(),
{
    if keys.len() == 0 {
        -1
    } else if keys[0] == k {
        0
    } else {
        let r = spec_find_key(keys.skip(1), k);
        if r < 0 {
            -1
        } else {
            r + 1
        }
    }
}

pub proof fn lemma_find_key_at(keys: Seq<Seq<Seq<char>>>, k: Seq<Seq<char>>, i: int)
    requires
        0 <= i < keys.len(),
        keys[i] == k,
        forall|j: int| 0 <= j < i ==> keys[j] != k,
    ensures
        spec_find_key(keys, k) == i,
    decreases i,
{
    if i == 0 {
    } else {
        assert(forall|j: int| 0 <= j < i - 1 ==> #[trigger] keys.skip(1)[j] == keys[j + 1]);
        assert(keys.skip(1)[i - 1] == keys[i]);
        lemma_find_key_at(keys.skip(1), k, i - 1);
    }
}

pub proof fn lemma_find_key_none(keys: Seq<Seq<Seq<char>>>, k: Seq<Seq<char>>)
    requires
        forall|j: int| 0 <= j < keys.len() ==> keys[j] != k,
    ensures
        spec_find_key(keys, k) == -1,
    decreases keys.len(),
{
    if keys.len() > 0 {
        assert(forall|j: int| 0 <= j < keys.len() - 1 ==> #[trigger] keys.skip(1)[j] == keys[j
            + 1]);
        lemma_find_key_none(keys.skip(1), k);
    }
}

pub proof fn lemma_find_key_props(keys: Seq<Seq<Seq<char>>>, k: Seq<Seq<char>>)
    ensures
        spec_find_key(keys, k) >= 0 ==> {
            &&& spec_find_key(keys, k) < keys.len()
            &&& keys[spec_find_key(keys, k)] == k
            &&& forall|j: int| 0 <= j < spec_find_key(keys, k) ==> keys[j] != k
        },
        spec_find_key(keys, k) < 0 ==> forall|j: int| 0 <= j < keys.len() ==> keys[j] != k,
    decreases keys.len(),
{
    if keys.len() > 0 && keys[0] != k {
        lemma_find_key_props(keys.skip(1), k);
        let r = spec_find_key(keys.skip(1), k);
        if r >= 0 {
            assert(keys.skip(1)[r] == keys[r + 1]);
            assert forall|j: int| 0 <= j < r + 1 implies keys[j] != k by {
                if j >= 1 {
                    assert(keys.skip(1)[j - 1] == keys[j]);
                }
            }
        } else {
            assert forall|j: int| 0 <= j < keys.len() implies keys[j] != k by {
                if j >= 1 {
                    assert(keys.skip(1)[j - 1] == keys[j]);
                }
            }
        }
    }
}

/// Compares two label tuples by their keys.
pub fn labels_eq(a: &Vec<String>, b: &Vec<String>) -> (r: bool)
    ensures
        r == (labels_view(a@) == labels_view(b@)),
{
    if a.len() != b.len() {
        proof {
            assert(labels_view(a@).len() != labels_view(b@).len());
        }
        return false;
    }
    let n = a.len();
    let mut i: usize = 0;
    while i < n
        invariant
            n == a@.len(),
            a@.len() == b@.len(),
            0 <= i <= n,
            forall|j: int| 0 <= j < i ==> #[trigger] a@[j]@ == b@[j]@,
        decreases n - i,
    {
        if !a[i].eq(&b[i]) {
            proof {
                assert(labels_view(a@)[i as int] != labels_view(b@)[i as int]);
            }
            return false;
        }
        i += 1;
    }
    proof {
        assert(labels_view(a@) =~~= labels_view(b@));
    }
    true
}

/// A family of counters over one label schema.
pub struct CounterVec {
    pub name: String,
    pub help: String,
    pub label_names: Vec<String>,
    pub label_sets: Vec<Vec<String>>,
    pub counts: Vec<u64>,
}

impl CounterVec {
    pub open spec fn wf(&self) -> bool {
        &&& self.counts@.len() == self.label_sets@.len()
        &&& forall|i: int, j: int|
            0 <= i < j < self.label_sets@.len() ==> keys_of(self.label_sets@)[i] != keys_of(
                self.label_sets@,
            )[j]
        &&& forall|i: int|
            0 <= i < self.label_sets@.len() ==> (#[trigger] self.label_sets@[i])@.len()
                == self.label_names@.len()
    }

    /// The count stored for a key; a key never incremented reads zero.
    pub open spec fn spec_value(&self, k: Seq<Seq<char>>) -> u64 {
        let i = spec_find_key(keys_of(self.label_sets@), k);
        if i < 0 {
            0
        } else {
            self.counts@[i]
        }
    }

    /// An empty family under a name, help text and label schema.
    pub fn new(name: String, help: String, label_names: Vec<String>) -> (c: CounterVec)
        ensures
            c.wf(),
            c.name@ == name@,
            c.help@ == help@,
            c.label_names@ == label_names@,
            forall|k: Seq<Seq<char>>| c.spec_value(k) == 0,
    {
        let c = CounterVec { name, help, label_names, label_sets: Vec::new(), counts: Vec::new() };
        proof {
            assert(keys_of(c.label_sets@) =~= Seq::<Seq<Seq<char>>>::empty());
        }
        c
    }

    /// Finds the sample for a key.
    fn find(&self, labels: &Vec<String>) -> (r: Option<usize>)
        requires
            self.wf(),
        ensures
            match r {
                Some(i) => spec_find_key(keys_of(self.label_sets@), labels_view(labels@))
                    == i as int,
                None => spec_find_key(keys_of(self.label_sets@), labels_view(labels@)) == -1,
            },
    {
        let n = self.label_sets.len();
        let mut i: usize = 0;
        while i < n
            invariant
                self.wf(),
                n == self.label_sets@.len(),
                0 <= i <= n,
                forall|j: int|
                    0 <= j < i ==> #[trigger] keys_of(self.label_sets@)[j] != labels_view(
                        labels@,
                    ),
            decreases n - i,
        {
            if labels_eq(&self.label_sets[i], labels) {
                proof {
                    lemma_find_key_at(
                        keys_of(self.label_sets@),
                        labels_view(labels@),
                        i as int,
                    );
                }
                return Some(i);
            }
            i += 1;
        }
        proof {
            lemma_find_key_none(keys_of(self.label_sets@), labels_view(labels@));
        }
        None
    }

    /// Reads the key's count.
    pub fn current_value(&self, labels: &Vec<String>) -> (v: u64)
        requires
            self.wf(),
        ensures
            v == self.spec_value(labels_view(labels@)),
    {
        match self.find(labels) {
            Some(i) => {
                proof {
                    lemma_find_key_props(keys_of(self.label_sets@), labels_view(labels@));
                }
                self.counts[i]
            },
            None => 0,
        }
    }

    /// Adds one to the key's count, saturating; every other key keeps
    /// its count.  A key seen for the first time gets a fresh sample.
    pub fn inc(&mut self, labels: Vec<String>)
        requires
            old(self).wf(),
            labels@.len() == old(self).label_names@.len(),
        ensures
            final(self).wf(),
            final(self).name == old(self).name,
            final(self).help == old(self).help,
            final(self).label_names == old(self).label_names,
            final(self).spec_value(labels_view(labels@)) == if old(self).spec_value(
                labels_view(labels@),
            ) == u64::MAX {
                u64::MAX
            } else {
                (old(self).spec_value(labels_view(labels@)) + 1) as u64
            },
            forall|k: Seq<Seq<char>>|
                k != labels_view(labels@) ==> #[trigger] final(self).spec_value(k) == old(
                    self,
                ).spec_value(k),
    {
        let ghost k = labels_view(labels@);
        let ghost keys0 = keys_of(self.label_sets@);
        match self.find(&labels) {
            Some(i) => {
                proof {
                    lemma_find_key_props(keys0, k);
                }
                let v = self.counts[i];
                let nv = v.saturating_add(1);
                self.counts.set(i, nv);
                proof {
                    assert(keys_of(self.label_sets@) == keys0);
                    assert forall|k2: Seq<Seq<char>>| k2 != k implies #[trigger] self.spec_value(
                        k2,
                    ) == old(self).spec_value(k2) by {
                        lemma_find_key_props(keys0, k2);
                    }
                }
            },
            None => {
                proof {
                    lemma_find_key_props(keys0, k);
                }
                self.label_sets.push(labels);
                self.counts.push(1);
                proof {
                    let keys1 = keys_of(self.label_sets@);
                    assert(keys1 =~= keys0.push(k));
                    lemma_find_key_push(keys0, k, k);
                    assert forall|k2: Seq<Seq<char>>| k2 != k implies #[trigger] self.spec_value(
                        k2,
                    ) == old(self).spec_value(k2) by {
                        lemma_find_key_push(keys0, k, k2);
                        lemma_find_key_props(keys0, k2);
                    }
                    assert forall|i: int, j: int|
                        0 <= i < j < keys1.len() implies keys1[i] != keys1[j] by {
                        if j < keys0.len() {
                        } else {
                            lemma_find_key_props(keys0, keys1[i]);
                        }
                    }
                }
            },
        }
    }
}

/// Finding a key in a list with one more entry at the end: an earlier
/// occurrence wins; otherwise only the new entry can match.
pub proof fn lemma_find_key_push(
    keys: Seq<Seq<Seq<char>>>,
    knew: Seq<Seq<char>>,
    k: Seq<Seq<char>>,
)
    ensures
        spec_find_key(keys.push(knew), k) == if spec_find_key(keys, k) >= 0 {
            spec_find_key(keys, k)
        } else if knew == k {
            keys.len() as int
        } else {
            -1
        },
{
    lemma_find_key_props(keys, k);
    let r = spec_find_key(keys, k);
    let p = keys.push(knew);
    assert(forall|j: int| 0 <= j < keys.len() ==> p[j] == keys[j]);
    if r >= 0 {
        lemma_find_key_at(p, k, r);
    } else if knew == k {
        assert(p[keys.len() as int] == k);
        lemma_find_key_at(p, k, keys.len() as int);
    } else {
        lemma_find_key_none(p, k);
    }
}

/// A count capped at what a 64-bit counter can hold.
pub open spec fn sat_count(n: nat) -> u64 {
    if n > u64::MAX {
        u64::MAX
    } else {
        n as u64
    }
}

/// How many observed patterns lie at or below a bound; a NaN pattern
/// lies in no finite bucket.
pub open spec fn spec_count_le(h: Seq<u64>, bound: u64) -> nat
    decreases h.len(),
{
    if h.len() == 0 {
        0
    } else {
        spec_count_le(h.drop_last(), bound) + if !spec_is_nan(h.last()) && spec_le(
            h.last(),
            bound,
        ) {
            1nat
        } else {
            0nat
        }
    }
}

proof fn lemma_count_le_push(h: Seq<u64>, v: u64, bound: u64)
    ensures
        spec_count_le(h.push(v), bound) == spec_count_le(h, bound) + if !spec_is_nan(v)
            && spec_le(v, bound) {
            1nat
        } else {
            0nat
        },
{
    assert(h.push(v).drop_last() =~= h);
    assert(h.push(v).last() == v);
}

/// Sum of nanounit readings, held inside the renderable range.
pub open spec fn spec_sat_add_nanos(a: int, b: int) -> int {
    if a + b > NANOS_MAX {
        NANOS_MAX as int
    } else if a + b < -(NANOS_MAX as int) {
        -(NANOS_MAX as int)
    } else {
        a + b
    }
}

pub fn sat_add_nanos(a: i64, b: i64) -> (r: i64)
    ensures
        r == spec_sat_add_nanos(a as int, b as int),
{
    let s: i128 = a as i128 + b as i128;
    if s > NANOS_MAX as i128 {
        NANOS_MAX
    } else if s < -(NANOS_MAX as i128) {
        -NANOS_MAX
    } else {
        s as i64
    }
}

/// One histogram's state under one label tuple: cumulative counts per
/// bound, the total count, the observations' nanounit sum, and — as a
/// ghost record — every observed pattern.
pub struct Histogram {
    pub bucket_counts: Vec<u64>,
    pub count: u64,
    pub sum_nanos: i64,
    pub history: Ghost<Seq<u64>>,
}

impl Histogram {
    pub open spec fn wf(&self, bounds: Seq<u64>) -> bool {
        &&& self.bucket_counts@.len() == bounds.len()
        &&& self.count == sat_count(self.history@.len())
        &&& forall|j: int|
            0 <= j < bounds.len() ==> #[trigger] self.bucket_counts@[j] == sat_count(
                spec_count_le(self.history@, bounds[j]),
            )
        &&& -NANOS_MAX <= self.sum_nanos <= NANOS_MAX
    }

    /// A histogram that has observed nothing.
    pub fn new(n_bounds: usize) -> (h: Histogram)
        ensures
            h.history@ == Seq::<u64>::empty(),
            h.count == 0,
            h.sum_nanos == 0,
            h.bucket_counts@.len() == n_bounds,
            forall|j: int| 0 <= j < n_bounds ==> #[trigger] h.bucket_counts@[j] == 0,
    {
        let mut bucket_counts: Vec<u64> = Vec::new();
        let mut j: usize = 0;
        while j < n_bounds
            invariant
                0 <= j <= n_bounds,
                bucket_counts@.len() == j,
                forall|jj: int| 0 <= jj < j ==> #[trigger] bucket_counts@[jj] == 0,
            decreases n_bounds - j,
        {
            bucket_counts.push(0);
            j += 1;
        }
        Histogram { bucket_counts, count: 0, sum_nanos: 0, history: Ghost(Seq::empty()) }
    }

    /// Records one pattern: it joins the history, each bucket at or
    /// above it grows by one, the count grows by one, and its nanounit
    /// reading joins the sum; counts and sum saturate.
    pub fn observe(&mut self, bounds: &Vec<u64>, value: u64)
        requires
            old(self).wf(bounds@),
            forall|j: int| 0 <= j < bounds@.len() ==> spec_is_finite(#[trigger] bounds@[j]),
        ensures
            final(self).wf(bounds@),
            final(self).history@ == old(self).history@.push(value),
            final(self).sum_nanos == spec_sat_add_nanos(
                old(self).sum_nanos as int,
                spec_nanos(value),
            ),
    {
        let value_is_nan = is_nan_bits(value);
        let n = bounds.len();
        let mut new_counts: Vec<u64> = Vec::new();
        let mut j: usize = 0;
        while j < n
            invariant
                0 <= j <= n,
                n == bounds@.len(),
                *self == *old(self),
                self.wf(bounds@),
                forall|jj: int| 0 <= jj < bounds@.len() ==> spec_is_finite(#[trigger] bounds@[jj]),
                value_is_nan == spec_is_nan(value),
                new_counts@.len() == j,
                forall|jj: int|
                    0 <= jj < j ==> #[trigger] new_counts@[jj] == if !spec_is_nan(value)
                        && spec_le(value, bounds@[jj]) {
                        sat_count(spec_count_le(self.history@, bounds@[jj]) + 1)
                    } else {
                        sat_count(spec_count_le(self.history@, bounds@[jj]))
                    },
            decreases n - j,
        {
            let c = self.bucket_counts[j];
            if !value_is_nan && le_bits(value, bounds[j]) {
                new_counts.push(c.saturating_add(1));
            } else {
                new_counts.push(c);
            }
            j += 1;
        }
        self.bucket_counts = new_counts;
        self.count = self.count.saturating_add(1);
        let v_nanos = bits_to_nanos(value);
        self.sum_nanos = sat_add_nanos(self.sum_nanos, v_nanos);
        let ghost h0 = self.history@;
        self.history = Ghost(h0.push(value));
        proof {
            assert forall|jj: int| 0 <= jj < bounds@.len() implies #[trigger] self.bucket_counts@[jj]
                == sat_count(spec_count_le(self.history@, bounds@[jj])) by {
                lemma_count_le_push(h0, value, bounds@[jj]);
                assert(spec_count_le(h0, bounds@[jj]) <= h0.len()) by {
                    lemma_count_le_bound(h0, bounds@[jj]);
                }
            }
        }
    }
}

/// A family of histograms over one label schema, sharing one sequence
/// of bucket bounds.
pub struct HistogramVec {
    pub name: String,
    pub help: String,
    pub label_names: Vec<String>,
    pub bounds: Vec<u64>,
    pub label_sets: Vec<Vec<String>>,
    pub data: Vec<Histogram>,
}

impl HistogramVec {
    pub open spec fn wf(&self) -> bool {
        &&& self.data@.len() == self.label_sets@.len()
        &&& forall|i: int, j: int|
            0 <= i < j < self.label_sets@.len() ==> keys_of(self.label_sets@)[i] != keys_of(
                self.label_sets@,
            )[j]
        &&& forall|i: int|
            0 <= i < self.label_sets@.len() ==> (#[trigger] self.label_sets@[i])@.len()
                == self.label_names@.len()
        &&& forall|j: int| 0 <= j < self.bounds@.len() ==> spec_is_finite(#[trigger] self.bounds@[j])
        &&& forall|i: int| 0 <= i < self.data@.len() ==> (#[trigger] self.data@[i]).wf(self.bounds@)
    }

    /// Every pattern the key's histogram has observed, oldest first.
    pub open spec fn spec_history(&self, k: Seq<Seq<char>>) -> Seq<u64> {
        let i = spec_find_key(keys_of(self.label_sets@), k);
        if i < 0 {
            Seq::empty()
        } else {
            self.data@[i].history@
        }
    }

    /// The nanounit sum the key's histogram has accumulated.
    pub open spec fn spec_sum_nanos(&self, k: Seq<Seq<char>>) -> int {
        let i = spec_find_key(keys_of(self.label_sets@), k);
        if i < 0 {
            0
        } else {
            self.data@[i].sum_nanos as int
        }
    }

    /// An empty family under a name, help text, label schema and
    /// bucket bounds.
    pub fn new(name: String, help: String, label_names: Vec<String>, bounds: Vec<u64>) -> (h:
        HistogramVec)
        requires
            forall|j: int| 0 <= j < bounds@.len() ==> spec_is_finite(#[trigger] bounds@[j]),
        ensures
            h.wf(),
            h.name@ == name@,
            h.help@ == help@,
            h.label_names@ == label_names@,
            h.bounds@ == bounds@,
            forall|k: Seq<Seq<char>>| #[trigger] h.spec_history(k) == Seq::<u64>::empty(),
            forall|k: Seq<Seq<char>>| #[trigger] h.spec_sum_nanos(k) == 0,
    {
        let h = HistogramVec {
            name,
            help,
            label_names,
            bounds,
            label_sets: Vec::new(),
            data: Vec::new(),
        };
        proof {
            assert(keys_of(h.label_sets@) =~= Seq::<Seq<Seq<char>>>::empty());
        }
        h
    }

    fn find(&self, labels: &Vec<String>) -> (r: Option<usize>)
        requires
            self.wf(),
        ensures
            match r {
                Some(i) => spec_find_key(keys_of(self.label_sets@), labels_view(labels@))
                    == i as int,
                None => spec_find_key(keys_of(self.label_sets@), labels_view(labels@)) == -1,
            },
    {
        let n = self.label_sets.len();
        let mut i: usize = 0;
        while i < n
            invariant
                self.wf(),
                n == self.label_sets@.len(),
                0 <= i <= n,
                forall|j: int|
                    0 <= j < i ==> #[trigger] keys_of(self.label_sets@)[j] != labels_view(
                        labels@,
                    ),
            decreases n - i,
        {
            if labels_eq(&self.label_sets[i], labels) {
                proof {
                    lemma_find_key_at(
                        keys_of(self.label_sets@),
                        labels_view(labels@),
                        i as int,
                    );
                }
                return Some(i);
            }
            i += 1;
        }
        proof {
            lemma_find_key_none(keys_of(self.label_sets@), labels_view(labels@));
        }
        None
    }

    /// Reads how many patterns the key's histogram has observed.
    pub fn current_count(&self, labels: &Vec<String>) -> (c: u64)
        requires
            self.wf(),
        ensures
            c == sat_count(self.spec_history(labels_view(labels@)).len()),
    {
        match self.find(labels) {
            Some(i) => {
                proof {
                    lemma_find_key_props(keys_of(self.label_sets@), labels_view(labels@));
                }
                self.data[i].count
            },
            None => 0,
        }
    }

    /// Reads the key's histogram's nanounit sum.
    pub fn current_sum_nanos(&self, labels: &Vec<String>) -> (s: i64)
        requires
            self.wf(),
        ensures
            s == self.spec_sum_nanos(labels_view(labels@)),
    {
        match self.find(labels) {
            Some(i) => {
                proof {
                    lemma_find_key_props(keys_of(self.label_sets@), labels_view(labels@));
                }
                self.data[i].sum_nanos
            },
            None => 0,
        }
    }

    /// Reads one cumulative bucket count of the key's histogram.
    pub fn current_bucket_count(&self, labels: &Vec<String>, j: usize) -> (c: u64)
        requires
            self.wf(),
            j < self.bounds@.len(),
        ensures
            c == sat_count(
                spec_count_le(self.spec_history(labels_view(labels@)), self.bounds@[j as int]),
            ),
    {
        match self.find(labels) {
            Some(i) => {
                proof {
                    lemma_find_key_props(keys_of(self.label_sets@), labels_view(labels@));
                }
                self.data[i].bucket_counts[j]
            },
            None => 0,
        }
    }

    /// Observes one pattern under a key: the key's history gains that
    /// one pattern and its sum its reading; every other key's
    /// histogram is untouched.
    pub fn observe(&mut self, labels: Vec<String>, value: u64)
        requires
            old(self).wf(),
            labels@.len() == old(self).label_names@.len(),
        ensures
            final(self).wf(),
            final(self).name == old(self).name,
            final(self).help == old(self).help,
            final(self).label_names == old(self).label_names,
            final(self).bounds == old(self).bounds,
            final(self).spec_history(labels_view(labels@)) == old(self).spec_history(
                labels_view(labels@),
            ).push(value),
            final(self).spec_sum_nanos(labels_view(labels@)) == spec_sat_add_nanos(
                old(self).spec_sum_nanos(labels_view(labels@)),
                spec_nanos(value),
            ),
            forall|k: Seq<Seq<char>>|
                k != labels_view(labels@) ==> #[trigger] final(self).spec_history(k) == old(
                    self,
                ).spec_history(k),
            forall|k: Seq<Seq<char>>|
                k != labels_view(labels@) ==> #[trigger] final(self).spec_sum_nanos(k) == old(
                    self,
                ).spec_sum_nanos(k),
    {
        let ghost k = labels_view(labels@);
        let ghost keys0 = keys_of(self.label_sets@);
        match self.find(&labels) {
            Some(i) => {
                proof {
                    lemma_find_key_props(keys0, k);
                }
                let ghost d0 = self.data@;
                let mut h = self.data.swap_remove(i);
                h.observe(&self.bounds, value);
                let ghost hv = h;
                self.data.push(h);
                let moved = self.data.swap_remove(i);
                self.data.push(moved);
                proof {
                    assert(self.data@ =~= d0.update(i as int, hv));
                    assert(keys_of(self.label_sets@) == keys0);
                    assert forall|k2: Seq<Seq<char>>| k2 != k implies #[trigger] self.spec_history(
                        k2,
                    ) == old(self).spec_history(k2) by {
                        lemma_find_key_props(keys0, k2);
                    }
                    assert forall|k2: Seq<Seq<char>>| k2 != k implies #[trigger] self.spec_sum_nanos(
                        k2,
                    ) == old(self).spec_sum_nanos(k2) by {
                        lemma_find_key_props(keys0, k2);
                    }
                }
            },
            None => {
                proof {
                    lemma_find_key_props(keys0, k);
                }
                let mut h = Histogram::new(self.bounds.len());
                proof {
                    assert(h.wf(self.bounds@)) by {
                        assert(forall|j: int|
                            0 <= j < self.bounds@.len() ==> spec_count_le(
                                h.history@,
                                #[trigger] self.bounds@[j],
                            ) == 0);
                    }
                }
                h.observe(&self.bounds, value);
                self.label_sets.push(labels);
                self.data.push(h);
                proof {
                    let keys1 = keys_of(self.label_sets@);
                    assert(keys1 =~= keys0.push(k));
                    lemma_find_key_push(keys0, k, k);
                    assert forall|k2: Seq<Seq<char>>| k2 != k implies #[trigger] self.spec_history(
                        k2,
                    ) == old(self).spec_history(k2) by {
                        lemma_find_key_push(keys0, k, k2);
                        lemma_find_key_props(keys0, k2);
                    }
                    assert forall|k2: Seq<Seq<char>>| k2 != k implies #[trigger] self.spec_sum_nanos(
                        k2,
                    ) == old(self).spec_sum_nanos(k2) by {
                        lemma_find_key_push(keys0, k, k2);
                        lemma_find_key_props(keys0, k2);
                    }
                    assert forall|i: int, j: int|
                        0 <= i < j < keys1.len() implies keys1[i] != keys1[j] by {
                        if j < keys0.len() {
                        } else {
                            lemma_find_key_props(keys0, keys1[i]);
                        }
                    }
                }
            },
        }
    }
}

/// A single unlabeled gauge holding a nanounit reading.
pub struct GaugeMetric {
    pub name: String,
    pub help: String,
    pub value_nanos: i64,
}

impl GaugeMetric {
    pub open spec fn wf(&self) -> bool {
        -NANOS_MAX <= self.value_nanos <= NANOS_MAX
    }

    /// A gauge reading zero.
    pub fn new(name: String, help: String) -> (g: GaugeMetric)
        ensures
            g.wf(),
            g.name@ == name@,
            g.help@ == help@,
            g.value_nanos == 0,
    {
        GaugeMetric { name, help, value_nanos: 0 }
    }

    /// Moves the gauge to a nanounit reading.
    pub fn set_nanos(&mut self, v: i64)
        requires
            old(self).wf(),
            -NANOS_MAX <= v,
        ensures
            final(self).wf(),
            final(self).name == old(self).name,
            final(self).help == old(self).help,
            final(self).value_nanos == v,
    {
        self.value_nanos = v;
    }

    /// Moves the gauge to a pattern's nanounit reading.
    pub fn set_from_bits(&mut self, b: u64)
        requires
            old(self).wf(),
        ensures
            final(self).wf(),
            final(self).name == old(self).name,
            final(self).help == old(self).help,
            final(self).value_nanos == spec_nanos(b),
    {
        let v = bits_to_nanos(b);
        self.value_nanos = v;
    }
}

/// Whether `needle` occurs in `text` as a contiguous run.
pub open spec fn spec_text_contains(text: Seq<char>, needle: Seq<char>) -> bool {
    exists|i: int|
        0 <= i && i + needle.len() <= text.len() && #[trigger] text.subrange(i, i + needle.len())
            == needle
}

/// A run found in the left part of a concatenation is found in the whole.
pub proof fn lemma_contains_left(a: Seq<char>, b: Seq<char>, needle: Seq<char>)
    requires
        spec_text_contains(a, needle),
    ensures
        spec_text_contains(a + b, needle),
{
    let i = choose|i: int|
        0 <= i && i + needle.len() <= a.len() && #[trigger] a.subrange(i, i + needle.len())
            == needle;
    assert((a + b).subrange(i, i + needle.len() as int) =~= a.subrange(i, i + needle.len() as int));
}

/// A run found in the right part of a concatenation is found in the whole.
pub proof fn lemma_contains_right(a: Seq<char>, b: Seq<char>, needle: Seq<char>)
    requires
        spec_text_contains(b, needle),
    ensures
        spec_text_contains(a + b, needle),
{
    let i = choose|i: int|
        0 <= i && i + needle.len() <= b.len() && #[trigger] b.subrange(i, i + needle.len())
            == needle;
    assert((a + b).subrange(a.len() + i, a.len() + i + needle.len() as int) =~= b.subrange(
        i,
        i + needle.len() as int,
    ));
}

/// A metric's help line carries the metric's name.
pub proof fn lemma_help_line_contains_name(name: Seq<char>, help: Seq<char>)
    ensures
        spec_text_contains(spec_help_line(name, help), name),
{
    reveal_strlit("# HELP ");
    let line = spec_help_line(name, help);
    assert(line.subrange(7, 7 + name.len() as int) =~= name);
}

/// A counter family's export carries the family's name.
pub proof fn lemma_counter_export_contains_name(c: CounterVec)
    ensures
        spec_text_contains(spec_counter_export(c), c.name@),
{
    lemma_help_line_contains_name(c.name@, c.help@);
    lemma_contains_left(spec_help_line(c.name@, c.help@), spec_type_line(c.name@, "counter"@), c.name@);
    lemma_contains_left(
        spec_help_line(c.name@, c.help@) + spec_type_line(c.name@, "counter"@),
        spec_counter_samples(c, c.label_sets@.len() as int),
        c.name@,
    );
}

/// A histogram family's export carries the family's name.
pub proof fn lemma_hist_export_contains_name(h: HistogramVec)
    ensures
        spec_text_contains(spec_hist_export(h), h.name@),
{
    lemma_help_line_contains_name(h.name@, h.help@);
    lemma_contains_left(spec_help_line(h.name@, h.help@), spec_type_line(h.name@, "histogram"@), h.name@);
    lemma_contains_left(
        spec_help_line(h.name@, h.help@) + spec_type_line(h.name@, "histogram"@),
        spec_hist_samples(h, h.label_sets@.len() as int),
        h.name@,
    );
}

/// A gauge's export carries the gauge's name.
pub proof fn lemma_gauge_export_contains_name(g: GaugeMetric)
    ensures
        spec_text_contains(spec_gauge_export(g), g.name@),
{
    lemma_help_line_contains_name(g.name@, g.help@);
    lemma_contains_left(spec_help_line(g.name@, g.help@), spec_type_line(g.name@, "gauge"@), g.name@);
    lemma_contains_left(
        spec_help_line(g.name@, g.help@) + spec_type_line(g.name@, "gauge"@),
        g.name@ + " "@ + spec_nanos_text(g.value_nanos as int) + "\n"@,
        g.name@,
    );
    assert(spec_help_line(g.name@, g.help@) + spec_type_line(g.name@, "gauge"@) + (g.name@ + " "@
        + spec_nanos_text(g.value_nanos as int) + "\n"@) =~= spec_gauge_export(g));
}

/// One label annotation, `name="value"`.
pub open spec fn spec_pair(name: Seq<char>, value: Seq<char>) -> Seq<char> {
    name + "=\""@ + value + "\""@
}

/// The comma-joined annotations of a tuple.
pub open spec fn spec_pairs(names: Seq<Seq<char>>, values: Seq<Seq<char>>) -> Seq<char>
    decreases values.len(),
{
    if values.len() == 0 {
        Seq::empty()
    } else if values.len() == 1 {
        spec_pair(names[0], values[0])
    } else {
        spec_pairs(names.drop_last(), values.drop_last()) + ","@ + spec_pair(
            names[values.len() - 1],
            values[values.len() - 1],
        )
    }
}

/// The braces of a sample line; a sample with no labels carries none.
pub open spec fn spec_braces(names: Seq<Seq<char>>, values: Seq<Seq<char>>) -> Seq<char> {
    if values.len() == 0 {
        Seq::empty()
    } else {
        "{"@ + spec_pairs(names, values) + "}"@
    }
}

/// One exported sample line.
pub open spec fn spec_sample_line(
    name: Seq<char>,
    names: Seq<Seq<char>>,
    values: Seq<Seq<char>>,
    value_text: Seq<char>,
) -> Seq<char> {
    name + spec_braces(names, values) + " "@ + value_text + "\n"@
}

pub open spec fn spec_help_line(name: Seq<char>, help: Seq<char>) -> Seq<char> {
    "# HELP "@ + name + " "@ + help + "\n"@
}

pub open spec fn spec_type_line(name: Seq<char>, kind: Seq<char>) -> Seq<char> {
    "# TYPE "@ + name + " "@ + kind + "\n"@
}

/// Appends the comma-joined annotations of a tuple.
fn append_pairs(out: &mut String, names: &Vec<String>, values: &Vec<String>)
    requires
        names@.len() == values@.len(),
    ensures
        final(out)@ == old(out)@ + spec_pairs(labels_view(names@), labels_view(values@)),
{
    let n = names.len();
    let mut i: usize = 0;
    while i < n
        invariant
            n == names@.len(),
            names@.len() == values@.len(),
            0 <= i <= n,
            out@ == old(out)@ + spec_pairs(
                labels_view(names@).take(i as int),
                labels_view(values@).take(i as int),
            ),
        decreases n - i,
    {
        if i > 0 {
            out.append(",");
        }
        out.append(names[i].as_str());
        out.append("=\"");
        out.append(values[i].as_str());
        out.append("\"");
        proof {
            let ns = labels_view(names@);
            let vs = labels_view(values@);
            assert(ns.take(i as int + 1).drop_last() =~= ns.take(i as int));
            assert(vs.take(i as int + 1).drop_last() =~= vs.take(i as int));
            assert(ns.take(i as int + 1)[i as int] == names@[i as int]@);
            assert(vs.take(i as int + 1)[i as int] == values@[i as int]@);
            assert(out@ =~= old(out)@ + spec_pairs(ns.take(i as int + 1), vs.take(i as int + 1)));
        }
        i += 1;
    }
    proof {
        assert(labels_view(names@).take(n as int) =~= labels_view(names@));
        assert(labels_view(values@).take(n as int) =~= labels_view(values@));
    }
}

/// Appends the braces of a sample line.
fn append_braces(out: &mut String, names: &Vec<String>, values: &Vec<String>)
    requires
        names@.len() == values@.len(),
    ensures
        final(out)@ == old(out)@ + spec_braces(labels_view(names@), labels_view(values@)),
{
    if values.len() == 0 {
        return ;
    }
    out.append("{");
    append_pairs(out, names, values);
    out.append("}");
    proof {
        assert(out@ =~= old(out)@ + spec_braces(labels_view(names@), labels_view(values@)));
    }
}

/// Appends braces carrying the tuple's annotations and one more,
/// `le="<bound>"`, as a bucket line does.
fn append_braces_le(out: &mut String, names: &Vec<String>, values: &Vec<String>, le_text: &String)
    requires
        names@.len() == values@.len(),
    ensures
        final(out)@ == old(out)@ + spec_braces(
            labels_view(names@).push("le"@),
            labels_view(values@).push(le_text@),
        ),
{
    let ghost ns = labels_view(names@).push("le"@);
    let ghost vs = labels_view(values@).push(le_text@);
    out.append("{");
    if values.len() > 0 {
        append_pairs(out, names, values);
        out.append(",");
    }
    out.append("le");
    out.append("=\"");
    out.append(le_text.as_str());
    out.append("\"");
    out.append("}");
    proof {
        assert(vs.len() == values@.len() + 1);
        if values@.len() > 0 {
            assert(ns.drop_last() =~= labels_view(names@));
            assert(vs.drop_last() =~= labels_view(values@));
        }
        assert(ns[vs.len() - 1] == "le"@);
        assert(vs[vs.len() - 1] == le_text@);
        assert(out@ =~= old(out)@ + spec_braces(ns, vs));
    }
}

/// Appends one sample line: name, braces, a space, the value, a break.
fn append_sample_line(
    out: &mut String,
    name: &str,
    names: &Vec<String>,
    values: &Vec<String>,
    value_text: &String,
)
    requires
        names@.len() == values@.len(),
    ensures
        final(out)@ == old(out)@ + spec_sample_line(
            name@,
            labels_view(names@),
            labels_view(values@),
            value_text@,
        ),
{
    out.append(name);
    append_braces(out, names, values);
    out.append(" ");
    out.append(value_text.as_str());
    out.append("\n");
    proof {
        assert(out@ =~= old(out)@ + spec_sample_line(
            name@,
            labels_view(names@),
            labels_view(values@),
            value_text@,
        ));
    }
}

/// Appends the two comment lines a family opens with.
fn append_header(out: &mut String, name: &String, help: &String, kind: &str)
    ensures
        final(out)@ == old(out)@ + spec_help_line(name@, help@) + spec_type_line(name@, kind@),
{
    out.append("# HELP ");
    out.append(name.as_str());
    out.append(" ");
    out.append(help.as_str());
    out.append("\n");
    out.append("# TYPE ");
    out.append(name.as_str());
    out.append(" ");
    out.append(kind);
    out.append("\n");
    proof {
        assert(out@ =~= old(out)@ + spec_help_line(name@, help@) + spec_type_line(name@, kind@));
    }
}

/// The first `n` sample lines of a counter family.
pub open spec fn spec_counter_samples(c: CounterVec, n: int) -> Seq<char>
    decreases n,
{
    if n <= 0 {
        Seq::empty()
    } else {
        spec_counter_samples(c, n - 1) + spec_sample_line(
            c.name@,
            labels_view(c.label_names@),
            keys_of(c.label_sets@)[n - 1],
            spec_dec(c.counts@[n - 1] as nat),
        )
    }
}

/// A counter family's whole export.
pub open spec fn spec_counter_export(c: CounterVec) -> Seq<char> {
    spec_help_line(c.name@, c.help@) + spec_type_line(c.name@, "counter"@) + spec_counter_samples(
        c,
        c.label_sets@.len() as int,
    )
}

/// Writes a counter family as exposition text.
pub fn export_counter(c: &CounterVec, out: &mut String)
    requires
        c.wf(),
    ensures
        final(out)@ == old(out)@ + spec_counter_export(*c),
{
    append_header(out, &c.name, &c.help, "counter");
    let n = c.label_sets.len();
    let mut i: usize = 0;
    while i < n
        invariant
            c.wf(),
            n == c.label_sets@.len(),
            0 <= i <= n,
            out@ == old(out)@ + spec_help_line(c.name@, c.help@) + spec_type_line(
                c.name@,
                "counter"@,
            ) + spec_counter_samples(*c, i as int),
        decreases n - i,
    {
        let value_text = u64_to_dec(c.counts[i]);
        append_sample_line(out, c.name.as_str(), &c.label_names, &c.label_sets[i], &value_text);
        proof {
            assert(keys_of(c.label_sets@)[i as int] == labels_view(c.label_sets@[i as int]@));
            assert(out@ =~= old(out)@ + spec_help_line(c.name@, c.help@) + spec_type_line(
                c.name@,
                "counter"@,
            ) + spec_counter_samples(*c, i as int + 1));
        }
        i += 1;
    }
}

/// The first `nj` bucket lines of one histogram sample.
pub open spec fn spec_bucket_lines(h: HistogramVec, i: int, nj: int) -> Seq<char>
    decreases nj,
{
    if nj <= 0 {
        Seq::empty()
    } else {
        spec_bucket_lines(h, i, nj - 1) + spec_sample_line(
            h.name@ + "_bucket"@,
            labels_view(h.label_names@).push("le"@),
            keys_of(h.label_sets@)[i].push(spec_nanos_text(spec_nanos(h.bounds@[nj - 1]))),
            spec_dec(h.data@[i].bucket_counts@[nj - 1] as nat),
        )
    }
}

/// One histogram sample's lines: each bucket, the unbounded bucket,
/// the sum and the count.
pub open spec fn spec_hist_sample(h: HistogramVec, i: int) -> Seq<char> {
    spec_bucket_lines(h, i, h.bounds@.len() as int) + spec_sample_line(
        h.name@ + "_bucket"@,
        labels_view(h.label_names@).push("le"@),
        keys_of(h.label_sets@)[i].push("+Inf"@),
        spec_dec(h.data@[i].count as nat),
    ) + spec_sample_line(
        h.name@ + "_sum"@,
        labels_view(h.label_names@),
        keys_of(h.label_sets@)[i],
        spec_nanos_text(h.data@[i].sum_nanos as int),
    ) + spec_sample_line(
        h.name@ + "_count"@,
        labels_view(h.label_names@),
        keys_of(h.label_sets@)[i],
        spec_dec(h.data@[i].count as nat),
    )
}

pub open spec fn spec_hist_samples(h: HistogramVec, n: int) -> Seq<char>
    decreases n,
{
    if n <= 0 {
        Seq::empty()
    } else {
        spec_hist_samples(h, n - 1) + spec_hist_sample(h, n - 1)
    }
}

/// A histogram family's whole export.
pub open spec fn spec_hist_export(h: HistogramVec) -> Seq<char> {
    spec_help_line(h.name@, h.help@) + spec_type_line(h.name@, "histogram"@) + spec_hist_samples(
        h,
        h.label_sets@.len() as int,
    )
}

/// Appends one bucket line of one histogram sample.
fn append_bucket_line(
    out: &mut String,
    bucket_name: &String,
    label_names: &Vec<String>,
    label_values: &Vec<String>,
    le_text: &String,
    value_text: &String,
)
    requires
        label_names@.len() == label_values@.len(),
    ensures
        final(out)@ == old(out)@ + spec_sample_line(
            bucket_name@,
            labels_view(label_names@).push("le"@),
            labels_view(label_values@).push(le_text@),
            value_text@,
        ),
{
    out.append(bucket_name.as_str());
    append_braces_le(out, label_names, label_values, le_text);
    out.append(" ");
    out.append(value_text.as_str());
    out.append("\n");
    proof {
        let ns = labels_view(label_names@).push("le"@);
        let vs = labels_view(label_values@).push(le_text@);
        assert(vs.len() > 0);
        assert(out@ =~= old(out)@ + spec_sample_line(bucket_name@, ns, vs, value_text@));
    }
}

/// Writes a histogram family as exposition text.
#[verifier::rlimit(60)]
pub fn export_histogram(h: &HistogramVec, out: &mut String)
    requires
        h.wf(),
    ensures
        final(out)@ == old(out)@ + spec_hist_export(*h),
{
    append_header(out, &h.name, &h.help, "histogram");
    let mut bucket_name = h.name.clone();
    bucket_name.append("_bucket");
    let mut sum_name = h.name.clone();
    sum_name.append("_sum");
    let mut count_name = h.name.clone();
    count_name.append("_count");
    let ghost header = spec_help_line(h.name@, h.help@) + spec_type_line(h.name@, "histogram"@);
    let n = h.label_sets.len();
    let mut i: usize = 0;
    while i < n
        invariant
            h.wf(),
            n == h.label_sets@.len(),
            0 <= i <= n,
            bucket_name@ == h.name@ + "_bucket"@,
            sum_name@ == h.name@ + "_sum"@,
            count_name@ == h.name@ + "_count"@,
            header == spec_help_line(h.name@, h.help@) + spec_type_line(h.name@, "histogram"@),
            out@ == old(out)@ + header + spec_hist_samples(*h, i as int),
        decreases n - i,
    {
        let ghost before_sample = out@;
        let nb = h.bounds.len();
        let mut j: usize = 0;
        while j < nb
            invariant
                h.wf(),
                n == h.label_sets@.len(),
                0 <= i < n,
                nb == h.bounds@.len(),
                0 <= j <= nb,
                bucket_name@ == h.name@ + "_bucket"@,
                out@ == before_sample + spec_bucket_lines(*h, i as int, j as int),
            decreases nb - j,
        {
            let le_text = nanos_to_text(bits_to_nanos(h.bounds[j]));
            let value_text = u64_to_dec(h.data[i].bucket_counts[j]);
            append_bucket_line(
                out,
                &bucket_name,
                &h.label_names,
                &h.label_sets[i],
                &le_text,
                &value_text,
            );
            proof {
                assert(keys_of(h.label_sets@)[i as int] == labels_view(h.label_sets@[i as int]@));
                assert(out@ =~= before_sample + spec_bucket_lines(*h, i as int, j as int + 1));
            }
            j += 1;
        }
        let count_text = u64_to_dec(h.data[i].count);
        let inf_text = "+Inf".to_owned();
        append_bucket_line(
            out,
            &bucket_name,
            &h.label_names,
            &h.label_sets[i],
            &inf_text,
            &count_text,
        );
        let sum_text = nanos_to_text(h.data[i].sum_nanos);
        append_sample_line(out, sum_name.as_str(), &h.label_names, &h.label_sets[i], &sum_text);
        append_sample_line(out, count_name.as_str(), &h.label_names, &h.label_sets[i], &count_text);
        proof {
            assert(keys_of(h.label_sets@)[i as int] == labels_view(h.label_sets@[i as int]@));
            assert(out@ =~= before_sample + spec_hist_sample(*h, i as int));
            assert(out@ =~= old(out)@ + header + spec_hist_samples(*h, i as int + 1));
        }
        i += 1;
    }
}

/// Writes a gauge as exposition text: its header and one unlabeled line.
pub open spec fn spec_gauge_export(g: GaugeMetric) -> Seq<char> {
    spec_help_line(g.name@, g.help@) + spec_type_line(g.name@, "gauge"@) + g.name@ + " "@
        + spec_nanos_text(g.value_nanos as int) + "\n"@
}

pub fn export_gauge(g: &GaugeMetric, out: &mut String)
    requires
        g.wf(),
    ensures
        final(out)@ == old(out)@ + spec_gauge_export(*g),
{
    append_header(out, &g.name, &g.help, "gauge");
    out.append(g.name.as_str());
    out.append(" ");
    let value_text = nanos_to_text(g.value_nanos);
    out.append(value_text.as_str());
    out.append("\n");
    proof {
        assert(out@ =~= old(out)@ + spec_gauge_export(*g));
    }
}

/// A histogram counts at most one per observation.
proof fn lemma_count_le_bound(h: Seq<u64>, bound: u64)
    ensures
        spec_count_le(h, bound) <= h.len(),
    decreases h.len(),
{
    if h.len() > 0 {
        lemma_count_le_bound(h.drop_last(), bound);
    }
}

} // verus!
