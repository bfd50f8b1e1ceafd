//! The collected measurements of a benchmark run, keyed by test, document
//! name and step.
use std::sync::Arc;
use std::time::Duration;

use vstd::prelude::*;

use crate::measurement::Measurement;
use crate::measurement_types::MeasurementType;

verus! {

/// Why a measurement could not be finished.
#[derive(Debug, PartialEq, Eq, Structural, Clone, Copy)]
pub enum ReportError {
    /// No measurement was started for the test.
    TestCountNotFound,
    /// The test has measurements, none for the document.
    JsonNameNotFound,
    /// The test and document have measurements, none for the step.
    MeasurementTypeNotFound,
}

/// One started measurement with its key.
#[derive(Debug)]
pub struct MeasureRecord {
    pub test_count: String,
    pub json_name: Arc<String>,
    pub measurement_type: MeasurementType,
    pub measurement: Measurement,
}

/// The measurements of a run: at most one for each test, document name and
/// step, in the order they were first started.
pub struct Report {
    measurement_duration: Vec<MeasureRecord>,
}

/// The record has this key.
pub open spec fn record_has(
    r: MeasureRecord,
    test: Seq<char>,
    json: Seq<char>,
    mt: MeasurementType,
) -> bool {
    r.test_count@ == test && r.json_name@ == json && r.measurement_type == mt
}

impl Report {
    /// The records, in order.
    pub closed spec fn records(&self) -> Seq<MeasureRecord> {
        self.measurement_duration@
    }

    /// No two records share a key.
    pub open spec fn wf(&self) -> bool {
        forall|i: int, j: int|
            0 <= i < self.records().len() && 0 <= j < self.records().len() && i != j ==> !record_has(
                #[trigger] self.records()[i],
                self.records()[j].test_count@,
                self.records()[j].json_name@,
                #[trigger] self.records()[j].measurement_type,
            )
    }

    /// Some record has this key.
    pub open spec fn has(&self, test: Seq<char>, json: Seq<char>, mt: MeasurementType) -> bool {
        exists|i: int|
            0 <= i < self.records().len() && record_has(#[trigger] self.records()[i], test, json, mt)
    }

    pub open spec fn has_test(&self, test: Seq<char>) -> bool {
        exists|i: int|
            0 <= i < self.records().len() && (#[trigger] self.records()[i]).test_count@ == test
    }

    pub open spec fn has_test_json(&self, test: Seq<char>, json: Seq<char>) -> bool {
        exists|i: int|
            0 <= i < self.records().len() && (#[trigger] self.records()[i]).test_count@ == test
                && self.records()[i].json_name@ == json
    }

    /// The duration recorded under this key: `None` when there is no
    /// record, `Some(None)` when it is not finished.
    pub open spec fn lookup(&self, test: Seq<char>, json: Seq<char>, mt: MeasurementType) -> Option<
        Option<Duration>,
    > {
        if self.has(test, json, mt) {
            let i = choose|i: int|
                0 <= i < self.records().len() && record_has(
                    #[trigger] self.records()[i],
                    test,
                    json,
                    mt,
                );
            Some(self.records()[i].measurement.duration())
        } else {
            None
        }
    }

    /// An empty report.
    pub fn new() -> (r: Report)
        ensures
            r.wf(),
            r.records().len() == 0,
    {
        Report { measurement_duration: Vec::new() }
    }

    /// The position of the record with this key, if any.
    fn position(&self, test_count: &str, json_name: &String, measurement_type: MeasurementType) -> (r:
        Option<usize>)
        ensures
            match r {
                Some(i) => i < self.records().len() && record_has(
                    self.records()[i as int],
                    test_count@,
                    json_name@,
                    measurement_type,
                ),
                None => !self.has(test_count@, json_name@, measurement_type),
            },
    {
        let mut i: usize = 0;
        while i < self.measurement_duration.len()
            invariant
                i <= self.records().len(),
                forall|k: int|
                    0 <= k < i ==> !record_has(
                        #[trigger] self.records()[k],
                        test_count@,
                        json_name@,
                        measurement_type,
                    ),
            decreases self.measurement_duration.len() - i,
        {
            let record = &self.measurement_duration[i];
            if record.test_count.as_str().eq(test_count) && (*record.json_name).eq(json_name)
                && record.measurement_type == measurement_type {
                return Some(i);
            }
            i += 1;
        }
        None
    }

    proof fn lemma_lookup_at(&self, i: int, test: Seq<char>, json: Seq<char>, mt: MeasurementType)
        requires
            self.wf(),
            0 <= i < self.records().len(),
            record_has(self.records()[i], test, json, mt),
        ensures
            self.lookup(test, json, mt) == Some(self.records()[i].measurement.duration()),
    {
        assert(self.has(test, json, mt));
        let j = choose|j: int|
            0 <= j < self.records().len() && record_has(#[trigger] self.records()[j], test, json, mt);
        if j != i {
            assert(record_has(
                self.records()[i],
                self.records()[j].test_count@,
                self.records()[j].json_name@,
                self.records()[j].measurement_type,
            ));
        }
    }

    /// Replacing the record at `i` by one with the same key keeps every
    /// other key's lookup.
    proof fn lemma_replace_keeps_others(old_r: &Report, new_r: &Report, i: int)
        requires
            old_r.wf(),
            0 <= i < old_r.records().len(),
            new_r.records() == old_r.records().update(i, new_r.records()[i]),
            record_has(
                new_r.records()[i],
                old_r.records()[i].test_count@,
                old_r.records()[i].json_name@,
                old_r.records()[i].measurement_type,
            ),
        ensures
            new_r.wf(),
            forall|t: Seq<char>, j: Seq<char>, m: MeasurementType|
                !record_has(old_r.records()[i], t, j, m) ==> #[trigger] new_r.lookup(t, j, m)
                    == old_r.lookup(t, j, m),
            forall|t: Seq<char>| #[trigger] new_r.has_test(t) == old_r.has_test(t),
            forall|t: Seq<char>, j: Seq<char>| #[trigger] new_r.has_test_json(t, j)
                == old_r.has_test_json(t, j),
    {
        let o = old_r.records();
        let n = new_r.records();
        assert forall|a: int, b: int|
            0 <= a < n.len() && 0 <= b < n.len() && a != b implies !record_has(
            #[trigger] n[a],
            n[b].test_count@,
            n[b].json_name@,
            #[trigger] n[b].measurement_type,
        ) by {
            assert(!record_has(o[a], o[b].test_count@, o[b].json_name@, o[b].measurement_type));
        }
        assert forall|t: Seq<char>, j: Seq<char>, m: MeasurementType|
            !record_has(o[i], t, j, m) implies #[trigger] new_r.lookup(t, j, m) == old_r.lookup(
            t,
            j,
            m,
        ) by {
            if old_r.has(t, j, m) {
                let k = choose|k: int| 0 <= k < o.len() && record_has(#[trigger] o[k], t, j, m);
                old_r.lemma_lookup_at(k, t, j, m);
                assert(n[k] == o[k]);
                new_r.lemma_lookup_at(k, t, j, m);
            } else if new_r.has(t, j, m) {
                let k = choose|k: int| 0 <= k < n.len() && record_has(#[trigger] n[k], t, j, m);
                assert(n[k] == o[k]);
            }
        }
        assert forall|t: Seq<char>| #[trigger] new_r.has_test(t) == old_r.has_test(t) by {
            if old_r.has_test(t) {
                let k = choose|k: int| 0 <= k < o.len() && (#[trigger] o[k]).test_count@ == t;
                assert(n[k].test_count@ == t);
            }
            if new_r.has_test(t) {
                let k = choose|k: int| 0 <= k < n.len() && (#[trigger] n[k]).test_count@ == t;
                assert(o[k].test_count@ == t);
            }
        }
        assert forall|t: Seq<char>, j: Seq<char>| #[trigger] new_r.has_test_json(t, j)
            == old_r.has_test_json(t, j) by {
            if old_r.has_test_json(t, j) {
                let k = choose|k: int|
                    0 <= k < o.len() && (#[trigger] o[k]).test_count@ == t && o[k].json_name@ == j;
                assert(n[k].test_count@ == t && n[k].json_name@ == j);
            }
            if new_r.has_test_json(t, j) {
                let k = choose|k: int|
                    0 <= k < n.len() && (#[trigger] n[k]).test_count@ == t && n[k].json_name@ == j;
                assert(o[k].test_count@ == t && o[k].json_name@ == j);
            }
        }
    }

    /// Starts a measurement now under this key; one already there is
    /// replaced. Every other key keeps its record.
    pub fn start_measure(
        &mut self,
        test_count: String,
        json_name: Arc<String>,
        measurement_type: MeasurementType,
    )
        requires
            old(self).wf(),
        ensures
            final(self).wf(),
            final(self).lookup(test_count@, json_name@, measurement_type) == Some(
                None::<Duration>,
            ),
            forall|t: Seq<char>, j: Seq<char>, m: MeasurementType|
                !(t == test_count@ && j == json_name@ && m == measurement_type)
                    ==> #[trigger] final(self).lookup(t, j, m) == old(self).lookup(t, j, m),
            old(self).has(test_count@, json_name@, measurement_type) ==> final(self).records().len() == old(self).records().len(),
            !old(self).has(test_count@, json_name@, measurement_type) ==> final(self).records().len() == old(self).records().len() + 1,
            forall|k: int|
                0 <= k < old(self).records().len() && !record_has(
                    #[trigger] old(self).records()[k],
                    test_count@,
                    json_name@,
                    measurement_type,
                ) ==> final(self).records()[k] == old(self).records()[k],
    {
        let ghost key = (test_count@, json_name@, measurement_type);
        match self.position(test_count.as_str(), &json_name, measurement_type) {
            Some(i) => {
                let ghost old_self = *self;
                self.measurement_duration[i] = MeasureRecord {
                    test_count,
                    json_name,
                    measurement_type,
                    measurement: Measurement::new(),
                };
                proof {
                    assert(self.records() == old_self.records().update(i as int, self.records()[i as int]));
                    Report::lemma_replace_keeps_others(&old_self, self, i as int);
                    self.lemma_lookup_at(i as int, key.0, key.1, key.2);
                }
            },
            None => {
                let ghost old_self = *self;
                self.measurement_duration.push(
                    MeasureRecord {
                        test_count,
                        json_name,
                        measurement_type,
                        measurement: Measurement::new(),
                    },
                );
                proof {
                    let o = old_self.records();
                    let n = self.records();
                    assert(n == o.push(n[o.len() as int]));
                    assert forall|a: int, b: int|
                        0 <= a < n.len() && 0 <= b < n.len() && a != b implies !record_has(
                        #[trigger] n[a],
                        n[b].test_count@,
                        n[b].json_name@,
                        #[trigger] n[b].measurement_type,
                    ) by {
                        if a < o.len() && b < o.len() {
                            assert(!record_has(o[a], o[b].test_count@, o[b].json_name@, o[b].measurement_type));
                        } else if a < o.len() {
                            assert(n[a] == o[a]);
                        } else {
                            assert(n[b] == o[b]);
                        }
                    }
                    self.lemma_lookup_at(o.len() as int, key.0, key.1, key.2);
                    assert forall|t: Seq<char>, j: Seq<char>, m: MeasurementType|
                        !(t == key.0 && j == key.1 && m == key.2)
                        implies #[trigger] self.lookup(t, j, m) == old_self.lookup(t, j, m) by {
                        if old_self.has(t, j, m) {
                            let k = choose|k: int| 0 <= k < o.len() && record_has(#[trigger] o[k], t, j, m);
                            old_self.lemma_lookup_at(k, t, j, m);
                            assert(n[k] == o[k]);
                            self.lemma_lookup_at(k, t, j, m);
                        } else if self.has(t, j, m) {
                            let k = choose|k: int| 0 <= k < n.len() && record_has(#[trigger] n[k], t, j, m);
                            assert(n[k] == o[k]);
                        }
                    }
                }
            },
        }
    }

    fn find_test(&self, test_count: &str, json_name: Option<&String>) -> (r: bool)
        ensures
            json_name is None ==> r == self.has_test(test_count@),
            json_name matches Some(j) ==> r == self.has_test_json(test_count@, j@),
    {
        let mut i: usize = 0;
        while i < self.measurement_duration.len()
            invariant
                i <= self.records().len(),
                forall|k: int|
                    0 <= k < i ==> !((#[trigger] self.records()[k]).test_count@ == test_count@
                        && (json_name matches Some(j) ==> self.records()[k].json_name@ == j@)),
            decreases self.measurement_duration.len() - i,
        {
            let record = &self.measurement_duration[i];
            if record.test_count.as_str().eq(test_count) {
                match json_name {
                    None => {
                        return true;
                    },
                    Some(j) => {
                        if (*record.json_name).eq(j) {
                            return true;
                        }
                    },
                }
            }
            i += 1;
        }
        false
    }

    /// Finishes the measurement under this key now. Fails, changing
    /// nothing, when there is none: the error says whether the test, the
    /// document within the test, or the step within both is missing.
    pub fn finish_measure(
        &mut self,
        test_count: &str,
        json_name: Arc<String>,
        measurement_type: &MeasurementType,
    ) -> (r: Result<(), ReportError>)
        requires
            old(self).wf(),
        ensures
            final(self).wf(),
            r is Ok <==> old(self).has(test_count@, json_name@, *measurement_type),
            r is Ok ==> final(self).lookup(test_count@, json_name@, *measurement_type) matches Some(
                Some(_),
            ),
            r is Ok ==> forall|t: Seq<char>, j: Seq<char>, m: MeasurementType|
                !(t == test_count@ && j == json_name@ && m == *measurement_type)
                    ==> #[trigger] final(self).lookup(t, j, m) == old(self).lookup(t, j, m),
            r is Ok ==> final(self).records().len() == old(self).records().len(),
            r is Ok ==> forall|k: int|
                0 <= k < old(self).records().len() && !record_has(
                    #[trigger] old(self).records()[k],
                    test_count@,
                    json_name@,
                    *measurement_type,
                ) ==> final(self).records()[k] == old(self).records()[k],
            r is Ok ==> forall|k: int|
                0 <= k < old(self).records().len() && record_has(
                    #[trigger] old(self).records()[k],
                    test_count@,
                    json_name@,
                    *measurement_type,
                ) ==> record_has(final(self).records()[k], test_count@, json_name@, *measurement_type)
                    && final(self).records()[k].measurement.started() == old(self).records()[k].measurement.started() && final(self).records()[k].measurement.duration() is Some,
            r is Err ==> *final(self) == *old(self),
            r == Err::<(), ReportError>(ReportError::TestCountNotFound) <==> !old(self).has_test(
                test_count@,
            ),
            r == Err::<(), ReportError>(ReportError::JsonNameNotFound) <==> old(self).has_test(
                test_count@,
            ) && !old(self).has_test_json(test_count@, json_name@),
            r == Err::<(), ReportError>(ReportError::MeasurementTypeNotFound) <==> old(self).has_test_json(test_count@, json_name@) && !old(self).has(
                test_count@,
                json_name@,
                *measurement_type,
            ),
    {
        match self.position(test_count, &json_name, *measurement_type) {
            Some(i) => {
                let ghost old_self = *self;
                let mut record = self.measurement_duration.remove(i);
                record.measurement.set_finish_time();
                self.measurement_duration.insert(i, record);
                proof {
                    assert(self.records() =~= old_self.records().update(i as int, self.records()[i as int]));
                    Report::lemma_replace_keeps_others(&old_self, self, i as int);
                    self.lemma_lookup_at(i as int, test_count@, json_name@, *measurement_type);
                }
                Ok(())
            },
            None => {
                if !self.find_test(test_count, None) {
                    Err(ReportError::TestCountNotFound)
                } else if !self.find_test(test_count, Some(&*json_name)) {
                    proof {
                        let k = choose|k: int|
                            0 <= k < self.records().len()
                                && (#[trigger] self.records()[k]).test_count@ == test_count@;
                    }
                    Err(ReportError::JsonNameNotFound)
                } else {
                    proof {
                        let k = choose|k: int|
                            0 <= k < self.records().len()
                                && (#[trigger] self.records()[k]).test_count@ == test_count@
                                && self.records()[k].json_name@ == json_name@;
                        assert(self.has_test(test_count@));
                    }
                    Err(ReportError::MeasurementTypeNotFound)
                }
            },
        }
    }

    /// All records, in the order they were first started.
    pub fn get_measures(&self) -> (r: &Vec<MeasureRecord>)
        ensures
            r@ == self.records(),
    {
        &self.measurement_duration
    }

    /// The measurement under this key, if one was started.
    pub fn get_measure(
        &self,
        test_count: &str,
        json_name: &String,
        measurement_type: &MeasurementType,
    ) -> (r: Option<&Measurement>)
        requires
            self.wf(),
        ensures
            r is None <==> self.lookup(test_count@, json_name@, *measurement_type) is None,
            r matches Some(m) ==> self.lookup(test_count@, json_name@, *measurement_type) == Some(
                m.duration(),
            ),
    {
        match self.position(test_count, json_name, *measurement_type) {
            Some(i) => {
                proof {
                    self.lemma_lookup_at(i as int, test_count@, json_name@, *measurement_type);
                }
                Some(&self.measurement_duration[i].measurement)
            },
            None => None,
        }
    }

    /// Runs `function` between starting and finishing a measurement under
    /// this key, and returns what it returned.
    pub fn measure<F: FnOnce() -> R, R>(
        &mut self,
        test_count: String,
        json_name: Arc<String>,
        measurement_type: MeasurementType,
        function: F,
    ) -> (r: R)
        requires
            old(self).wf(),
            call_requires(function, ()),
        ensures
            final(self).wf(),
            call_ensures(function, (), r),
            final(self).lookup(test_count@, json_name@, measurement_type) matches Some(Some(_)),
            forall|t: Seq<char>, j: Seq<char>, m: MeasurementType|
                !(t == test_count@ && j == json_name@ && m == measurement_type)
                    ==> #[trigger] final(self).lookup(t, j, m) == old(self).lookup(t, j, m),
            forall|k: int|
                0 <= k < old(self).records().len() && !record_has(
                    #[trigger] old(self).records()[k],
                    test_count@,
                    json_name@,
                    measurement_type,
                ) ==> final(self).records()[k] == old(self).records()[k],
    {
        let ghost key = (test_count@, json_name@, measurement_type);
        let ghost before = *self;
        let test_name = test_count.clone();
        self.start_measure(test_count, json_name.clone(), measurement_type);
        let ghost started = *self;
        let function_result = function();
        let finished = self.finish_measure(test_name.as_str(), json_name, &measurement_type);
        proof {
            assert(started.lookup(key.0, key.1, key.2) is Some);
            assert(finished is Ok);
            assert forall|t: Seq<char>, j: Seq<char>, m: MeasurementType|
                !(t == key.0 && j == key.1 && m == key.2) implies #[trigger] self.lookup(t, j, m)
                == before.lookup(t, j, m) by {
                assert(self.lookup(t, j, m) == started.lookup(t, j, m));
                assert(started.lookup(t, j, m) == before.lookup(t, j, m));
            }
            assert forall|k: int|
                0 <= k < before.records().len() && !record_has(
                    #[trigger] before.records()[k],
                    key.0,
                    key.1,
                    key.2,
                ) implies self.records()[k] == before.records()[k] by {
                assert(started.records()[k] == before.records()[k]);
            }
        }
        function_result
    }
}

} // verus!
