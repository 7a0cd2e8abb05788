//! Declarative configuration: sensors, curves and fans, and the validation
//! that must succeed before a control graph is built from it.
//!
//! Validation checks exactly four things: every id referenced by a curve
//! is a declared sensor or curve, every fan's curve id is a declared
//! curve, every linear curve has at least two strictly ascending
//! breakpoints, and the curve reference graph is acyclic.
//!
//! Fractional quantities (PID gains and target) are stored in thousandths.

use vstd::prelude::*;

verus! {

#[derive(Debug)]
pub struct HwmonConfig {
    pub chip: String,
    pub name: String,
}

/// PID curve parameters; `target`, `p`, `i` and `d` are in thousandths
/// (a gain of 1.0 is stored as 1000).
#[derive(Debug, Clone)]
pub struct PidCurve {
    pub sensor: String,
    pub target: i64,
    pub p: i64,
    pub i: i64,
    pub d: i64,
}

/// Breakpoints of a piecewise-linear curve: pairs of input degrees
/// Celsius and output percent, with strictly ascending inputs.
#[derive(Debug, Clone)]
pub struct LinearCurve {
    pub sensor: String,
    pub steps: Vec<(i64, i64)>,
}

#[derive(Debug, Clone)]
pub struct StaticCurve {
    pub value: i64,
}

#[derive(Debug, Clone)]
pub struct MaximumCurve {
    pub sensors: Vec<String>,
}

#[derive(Debug, Clone)]
pub struct AverageCurve {
    pub sensors: Vec<String>,
}

#[derive(Debug, Clone)]
pub enum CurveFunction {
    Linear(LinearCurve),
    Static(StaticCurve),
    Maximum(MaximumCurve),
    Average(AverageCurve),
    Pid(PidCurve),
}

#[derive(Debug)]
pub enum SensorType {
    Hwmon(HwmonConfig),
    File(FileConfig),
}

#[derive(Debug)]
pub struct FileConfig {
    pub path: String,
}

#[derive(Debug)]
pub struct SensorConfig {
    pub id: String,
    pub sensor: SensorType,
}

#[derive(Debug)]
pub struct FanConfig {
    pub id: String,
    pub startpwm: Option<u8>,
    pub minpwm: Option<u8>,
    pub sensor: SensorType,
    pub curve: String,
}

#[derive(Debug)]
pub struct RufacoConfig {
    pub sensors: Vec<SensorConfig>,
    pub fans: Vec<FanConfig>,
    pub curves: Vec<FanCurve>,
}

#[derive(Debug)]
pub struct FanCurve {
    pub id: String,
    pub function: CurveFunction,
}

/// Whether `ids` holds `id`.
pub open spec fn seq_contains_id(ids: Seq<Seq<char>>, id: Seq<char>) -> bool {
    exists|i: int| 0 <= i < ids.len() && ids[i] == id
}

impl CurveFunction {
    /// The ids this curve reads as inputs.
    pub open spec fn refs_spec(self) -> Seq<Seq<char>> {
        match self {
            CurveFunction::Linear(c) => seq![c.sensor@],
            CurveFunction::Pid(c) => seq![c.sensor@],
            CurveFunction::Static(_) => Seq::empty(),
            CurveFunction::Maximum(c) => c.sensors@.map_values(|s: String| s@),
            CurveFunction::Average(c) => c.sensors@.map_values(|s: String| s@),
        }
    }

    pub fn get_sensor_ids(&self) -> (r: Vec<String>)
        ensures
            r@.map_values(|s: String| s@) == self.refs_spec(),
    {
        match self {
            CurveFunction::Linear(curve) => {
                let ids = vec![curve.sensor.clone()];
                assert(ids@.map_values(|s: String| s@) =~= self.refs_spec());
                ids
            },
            CurveFunction::Pid(curve) => {
                let ids = vec![curve.sensor.clone()];
                assert(ids@.map_values(|s: String| s@) =~= self.refs_spec());
                ids
            },
            CurveFunction::Static(_curve) => {
                let ids: Vec<String> = vec![];
                assert(ids@.map_values(|s: String| s@) =~= self.refs_spec());
                ids
            },
            CurveFunction::Maximum(curve) => {
                let ids = clone_ids(&curve.sensors);
                assert(ids@.map_values(|s: String| s@) =~= self.refs_spec());
                ids
            },
            CurveFunction::Average(curve) => {
                let ids = clone_ids(&curve.sensors);
                assert(ids@.map_values(|s: String| s@) =~= self.refs_spec());
                ids
            },
        }
    }
}

/// Clone a list of ids, preserving their contents.
fn clone_ids(ids: &Vec<String>) -> (r: Vec<String>)
    ensures
        r@ == ids@,
{
    let mut out: Vec<String> = Vec::new();
    let mut i: usize = 0;
    while i < ids.len()
        invariant
            i <= ids.len(),
            out@ == ids@.take(i as int),
        decreases ids.len() - i,
    {
        out.push(ids[i].clone());
        assert(out@ =~= ids@.take(i + 1 as int));
        i = i + 1;
    }
    assert(out@ =~= ids@);
    out
}

/// Compare two ids by contents.
pub(crate) fn string_eq(a: &String, b: &String) -> (r: bool)
    ensures
        r == (a@ == b@),
{
    *a == *b
}

impl RufacoConfig {
    /// The declared sensor ids, in declaration order.
    pub open spec fn sensor_ids(self) -> Seq<Seq<char>> {
        self.sensors@.map_values(|s: SensorConfig| s.id@)
    }

    /// The declared curve ids, in declaration order.
    pub open spec fn curve_ids(self) -> Seq<Seq<char>> {
        self.curves@.map_values(|c: FanCurve| c.id@)
    }

    /// An edge of the reference graph: curve `k` names the id of curve `j`
    /// among its inputs.
    pub open spec fn ref_edge(self, k: int, j: int) -> bool {
        &&& 0 <= k < self.curves@.len()
        &&& 0 <= j < self.curves@.len()
        &&& seq_contains_id(self.curves@[k].function.refs_spec(), self.curves@[j].id@)
    }

    /// Within `s`, curve `k` references no other member of `s`.
    pub open spec fn sink_in(self, s: Set<int>, k: int) -> bool {
        &&& s.contains(k)
        &&& forall|j: int| s.contains(j) ==> !self.ref_edge(k, j)
    }

    /// Some member of `s` references no other member of `s`.
    pub open spec fn has_sink(self, s: Set<int>) -> bool {
        exists|k: int| self.sink_in(s, k)
    }

    /// The curve reference graph is acyclic: every non-empty set of curves
    /// has a member that references no other member.
    pub open spec fn acyclic(self) -> bool {
        forall|s: Set<int>|
            ((exists|x: int| s.contains(x)) && (forall|x: int|
                s.contains(x) ==> 0 <= x < self.curves@.len())) ==> #[trigger] self.has_sink(s)
    }

    /// Every id referenced by a curve is a declared sensor or curve.
    pub open spec fn refs_exist(self) -> bool {
        forall|k: int, i: int|
            0 <= k < self.curves@.len() && 0 <= i < self.curves@[k].function.refs_spec().len()
                ==> seq_contains_id(self.sensor_ids(), #[trigger] self.curves@[k].function.refs_spec()[i])
                || seq_contains_id(self.curve_ids(), self.curves@[k].function.refs_spec()[i])
    }

    /// Every fan's curve id is a declared curve.
    pub open spec fn fans_resolve(self) -> bool {
        forall|f: int|
            0 <= f < self.fans@.len() ==> seq_contains_id(
                self.curve_ids(),
                #[trigger] self.fans@[f].curve@,
            )
    }

    /// Every linear curve declares at least two breakpoints with strictly
    /// ascending inputs.
    pub open spec fn linears_wf(self) -> bool {
        forall|k: int|
            0 <= k < self.curves@.len() ==> match #[trigger] self.curves@[k].function {
                CurveFunction::Linear(c) => steps_ascending(c.steps@) && c.steps@.len() >= 2,
                _ => true,
            }
    }

    /// The whole validation predicate.
    pub open spec fn valid_spec(self) -> bool {
        &&& self.refs_exist()
        &&& self.fans_resolve()
        &&& self.linears_wf()
        &&& self.acyclic()
    }

    /// Check the configuration: reference existence, fan bindings, linear
    /// breakpoints, and acyclicity of the curve graph.
    pub fn validate(&self) -> (r: bool)
        ensures
            r == self.valid_spec(),
    {
        let refs_ok = self.check_refs_exist();
        let fans_ok = self.check_fans_resolve();
        let linears_ok = self.check_linears();
        let acyclic_ok = self.check_acyclic();
        refs_ok && fans_ok && linears_ok && acyclic_ok
    }

    fn check_refs_exist(&self) -> (r: bool)
        ensures
            r == self.refs_exist(),
    {
        let mut k: usize = 0;
        while k < self.curves.len()
            invariant
                k <= self.curves@.len(),
                forall|k0: int, i: int|
                    0 <= k0 < k && 0 <= i < self.curves@[k0].function.refs_spec().len()
                        ==> seq_contains_id(self.sensor_ids(), #[trigger] self.curves@[k0].function.refs_spec()[i])
                        || seq_contains_id(self.curve_ids(), self.curves@[k0].function.refs_spec()[i]),
            decreases self.curves@.len() - k,
        {
            let ids = self.curves[k].function.get_sensor_ids();
            let mut i: usize = 0;
            while i < ids.len()
                invariant
                    i <= ids.len(),
                    k < self.curves@.len(),
                    ids@.map_values(|s: String| s@) == self.curves@[k as int].function.refs_spec(),
                    forall|i0: int|
                        0 <= i0 < i ==> seq_contains_id(
                            self.sensor_ids(),
                            #[trigger] self.curves@[k as int].function.refs_spec()[i0],
                        ) || seq_contains_id(
                            self.curve_ids(),
                            self.curves@[k as int].function.refs_spec()[i0],
                        ),
                decreases ids.len() - i,
            {
                let in_sensors = self.sensor_id_known(&ids[i]);
                let in_curves = self.curve_id_known(&ids[i]);
                if !in_sensors && !in_curves {
                    assert(self.curves@[k as int].function.refs_spec()[i as int] == ids@[i as int]@);
                    return false;
                }
                assert(self.curves@[k as int].function.refs_spec()[i as int] == ids@[i as int]@);
                i = i + 1;
            }
            k = k + 1;
        }
        true
    }

    fn check_fans_resolve(&self) -> (r: bool)
        ensures
            r == self.fans_resolve(),
    {
        let mut f: usize = 0;
        while f < self.fans.len()
            invariant
                f <= self.fans@.len(),
                forall|f0: int|
                    0 <= f0 < f ==> seq_contains_id(
                        self.curve_ids(),
                        #[trigger] self.fans@[f0].curve@,
                    ),
            decreases self.fans@.len() - f,
        {
            if !self.curve_id_known(&self.fans[f].curve) {
                return false;
            }
            f = f + 1;
        }
        true
    }

    fn check_linears(&self) -> (r: bool)
        ensures
            r == self.linears_wf(),
    {
        let mut k: usize = 0;
        while k < self.curves.len()
            invariant
                k <= self.curves@.len(),
                forall|k0: int|
                    0 <= k0 < k ==> match #[trigger] self.curves@[k0].function {
                        CurveFunction::Linear(c) => steps_ascending(c.steps@) && c.steps@.len()
                            >= 2,
                        _ => true,
                    },
            decreases self.curves@.len() - k,
        {
            match &self.curves[k].function {
                CurveFunction::Linear(c) => {
                    if c.steps.len() < 2 || !check_steps_ascending(&c.steps) {
                        return false;
                    }
                },
                _ => {},
            }
            k = k + 1;
        }
        true
    }

    fn sensor_id_known(&self, id: &String) -> (r: bool)
        ensures
            r == seq_contains_id(self.sensor_ids(), id@),
    {
        let mut i: usize = 0;
        while i < self.sensors.len()
            invariant
                i <= self.sensors@.len(),
                forall|j: int| 0 <= j < i ==> self.sensor_ids()[j] != id@,
            decreases self.sensors@.len() - i,
        {
            if string_eq(&self.sensors[i].id, id) {
                assert(self.sensor_ids()[i as int] == id@);
                return true;
            }
            i = i + 1;
        }
        false
    }

    fn curve_id_known(&self, id: &String) -> (r: bool)
        ensures
            r == seq_contains_id(self.curve_ids(), id@),
    {
        let mut i: usize = 0;
        while i < self.curves.len()
            invariant
                i <= self.curves@.len(),
                forall|j: int| 0 <= j < i ==> self.curve_ids()[j] != id@,
            decreases self.curves@.len() - i,
        {
            if string_eq(&self.curves[i].id, id) {
                assert(self.curve_ids()[i as int] == id@);
                return true;
            }
            i = i + 1;
        }
        false
    }

    /// Kahn-style elimination: repeatedly mark curves whose curve
    /// references are all marked, until nothing changes.  Every curve gets
    /// marked exactly when the reference graph is acyclic.
    fn check_acyclic(&self) -> (r: bool)
        ensures
            r == self.acyclic(),
    {
        let n = self.curves.len();
        let mut removed: Vec<bool> = Vec::new();
        let mut i: usize = 0;
        while i < n
            invariant
                i <= n,
                removed@.len() == i,
                forall|j: int| 0 <= j < i ==> removed@[j] == false,
            decreases n - i,
        {
            removed.push(false);
            i = i + 1;
        }

        let ghost mut order: Seq<int> = Seq::empty();
        let mut changed = true;
        let mut total: usize = 0;
        while changed
            invariant
                n == self.curves@.len(),
                removed@.len() == n,
                total == order.len(),
                total <= n,
                order.no_duplicates(),
                forall|p: int| 0 <= p < order.len() ==> 0 <= #[trigger] order[p] < n,
                forall|j: int|
                    0 <= j < n ==> (removed@[j] <==> order.contains(j)),
                forall|p: int, j: int|
                    0 <= p < order.len() && self.ref_edge(order[p], j) ==> order.subrange(
                        0,
                        p,
                    ).contains(j),
                !changed ==> forall|k0: int|
                    0 <= k0 < n && !removed@[k0] ==> self.blocked(removed@, k0),
            decreases n - total + (if changed { 1int } else { 0int }),
        {
            changed = false;
            let ghost total0 = total;
            let mut k: usize = 0;
            while k < n
                invariant
                    n == self.curves@.len(),
                    removed@.len() == n,
                    total == order.len(),
                    total <= n,
                    k <= n,
                    changed ==> total0 < total,
                    !changed ==> total == total0,
                    order.no_duplicates(),
                    forall|p: int| 0 <= p < order.len() ==> 0 <= #[trigger] order[p] < n,
                    forall|j: int|
                        0 <= j < n ==> (removed@[j] <==> order.contains(j)),
                    forall|p: int, j: int|
                        0 <= p < order.len() && self.ref_edge(order[p], j) ==> order.subrange(
                            0,
                            p,
                        ).contains(j),
                    !changed ==> forall|k0: int|
                        0 <= k0 < k && !removed@[k0] ==> self.blocked(removed@, k0),
                decreases n - k,
            {
                if !removed[k] {
                    if !self.curve_blocked(&removed, k) {
                        proof {
                            assert forall|j: int| self.ref_edge(k as int, j) implies order.push(
                                k as int,
                            ).subrange(0, order.len() as int).contains(j) by {
                                assert(removed@[j]);
                                assert(order.contains(j));
                                assert(order.push(k as int).subrange(0, order.len() as int)
                                    =~= order);
                            };
                            assert(order.push(k as int).subrange(0, order.len() as int) =~= order);
                        }
                        removed.set(k, true);
                        changed = true;
                        proof {
                            let old_order = order;
                            assert(!old_order.contains(k as int));
                            order = order.push(k as int);
                            assert forall|p: int, q: int|
                                0 <= p < q < order.len() implies order[p] != order[q] by {
                                if q < old_order.len() {
                                    assert(old_order[p] != old_order[q]);
                                } else {
                                    assert(order[q] == k as int);
                                    assert(old_order.contains(old_order[p]));
                                }
                            };
                            assert(order.no_duplicates());
                            assert forall|p: int, j: int|
                                0 <= p < order.len() && self.ref_edge(order[p], j) implies order
                                .subrange(0, p).contains(j) by {
                                if p < old_order.len() {
                                    assert(old_order.subrange(0, p).contains(j));
                                    let q = choose|q: int|
                                        0 <= q < p && old_order.subrange(0, p)[q] == j;
                                    assert(order.subrange(0, p)[q] == j);
                                } else {
                                    assert(order[p] == k as int);
                                    assert(old_order.contains(j));
                                    let q = choose|q: int|
                                        0 <= q < old_order.len() && old_order[q] == j;
                                    assert(order.subrange(0, p)[q] == j);
                                }
                            };
                            assert forall|j: int| 0 <= j < n implies (removed@[j]
                                <==> order.contains(j)) by {
                                if j == k as int {
                                    assert(order[order.len() - 1] == k as int);
                                } else {
                                    if old_order.contains(j) {
                                        let q = choose|q: int|
                                            0 <= q < old_order.len() && old_order[q] == j;
                                        assert(order[q] == j);
                                    }
                                    if order.contains(j) {
                                        let q = choose|q: int|
                                            0 <= q < order.len() && order[q] == j;
                                        if q < old_order.len() {
                                            assert(old_order[q] == j);
                                        } else {
                                            assert(order[q] == k as int);
                                        }
                                    }
                                }
                            };
                        }
                        proof {
                            assert(order.no_duplicates());
                            lemma_order_len_bounded(order, n as int);
                        }
                        total = total + 1;
                    }
                }
                k = k + 1;
            }
        }

        let mut all = true;
        let mut x: usize = 0;
        while x < n
            invariant
                n == removed@.len(),
                x <= n,
                all == forall|j: int| 0 <= j < x ==> removed@[j],
            decreases n - x,
        {
            if !removed[x] {
                all = false;
            }
            x = x + 1;
        }

        proof {
            if all {
                self.lemma_order_implies_acyclic(order);
            } else {
                let bad = choose|j: int| 0 <= j < n && !removed@[j];
                let s = Set::new(|y: int| 0 <= y < n && !removed@[y]);
                assert(s.contains(bad));
                assert forall|k0: int| !self.sink_in(s, k0) by {
                    if s.contains(k0) {
                        assert(self.blocked(removed@, k0));
                        let j = choose|j: int|
                            0 <= j < self.curves@.len() && !removed@[j] && self.ref_edge(k0, j);
                        assert(s.contains(j));
                    }
                };
                if self.acyclic() {
                    assert((exists|y: int| s.contains(y)) && (forall|y: int|
                        s.contains(y) ==> 0 <= y < self.curves@.len()));
                    assert(self.has_sink(s));
                    let k0 = choose|k0: int| self.sink_in(s, k0);
                    assert(false);
                }
            }
        }
        all
    }

    /// Some unmarked curve is referenced by curve `k`.
    pub open spec fn blocked(self, removed: Seq<bool>, k: int) -> bool {
        exists|j: int| 0 <= j < self.curves@.len() && !removed[j] && self.ref_edge(k, j)
    }

    fn curve_blocked(&self, removed: &Vec<bool>, k: usize) -> (r: bool)
        requires
            k < self.curves@.len(),
            removed@.len() == self.curves@.len(),
        ensures
            r == self.blocked(removed@, k as int),
    {
        let ids = self.curves[k].function.get_sensor_ids();
        let mut i: usize = 0;
        while i < ids.len()
            invariant
                k < self.curves@.len(),
                removed@.len() == self.curves@.len(),
                i <= ids.len(),
                ids@.map_values(|s: String| s@) == self.curves@[k as int].function.refs_spec(),
                forall|i0: int, j: int|
                    0 <= i0 < i && 0 <= j < self.curves@.len() && !removed@[j]
                        ==> #[trigger] self.curves@[k as int].function.refs_spec()[i0]
                        != #[trigger] self.curves@[j].id@,
            decreases ids.len() - i,
        {
            let mut j: usize = 0;
            while j < self.curves.len()
                invariant
                    k < self.curves@.len(),
                    removed@.len() == self.curves@.len(),
                    i < ids.len(),
                    j <= self.curves@.len(),
                    ids@.map_values(|s: String| s@) == self.curves@[k as int].function.refs_spec(),
                    forall|j0: int|
                        0 <= j0 < j && !removed@[j0]
                            ==> self.curves@[k as int].function.refs_spec()[i as int]
                            != #[trigger] self.curves@[j0].id@,
                decreases self.curves@.len() - j,
            {
                if !removed[j] && string_eq(&self.curves[j].id, &ids[i]) {
                    assert(self.curves@[k as int].function.refs_spec()[i as int] == ids@[i as int]@);
                    assert(self.ref_edge(k as int, j as int));
                    return true;
                }
                j = j + 1;
            }
            assert(self.curves@[k as int].function.refs_spec()[i as int] == ids@[i as int]@);
            i = i + 1;
        }
        proof {
            if self.blocked(removed@, k as int) {
                let j = choose|j: int|
                    0 <= j < self.curves@.len() && !removed@[j] && self.ref_edge(k as int, j);
                let i0 = choose|i0: int|
                    0 <= i0 < self.curves@[k as int].function.refs_spec().len()
                        && self.curves@[k as int].function.refs_spec()[i0] == self.curves@[j].id@;
                assert(false);
            }
        }
        false
    }

    /// If every curve was marked, the recorded order witnesses acyclicity:
    /// any non-empty set of curves has, at its earliest-marked member, a
    /// curve that references no other member of the set.
    proof fn lemma_order_implies_acyclic(self, order: Seq<int>)
        requires
            forall|p: int| 0 <= p < order.len() ==> 0 <= #[trigger] order[p] < self.curves@.len(),
            forall|j: int| 0 <= j < self.curves@.len() ==> order.contains(j),
            forall|p: int, j: int|
                0 <= p < order.len() && self.ref_edge(order[p], j) ==> order.subrange(
                    0,
                    p,
                ).contains(j),
        ensures
            self.acyclic(),
    {
        assert forall|s: Set<int>|
            ((exists|x: int| s.contains(x)) && (forall|x: int|
                s.contains(x) ==> 0 <= x < self.curves@.len())) implies #[trigger] self.has_sink(
            s,
        ) by {
            let x = choose|x: int| s.contains(x);
            assert(order.contains(x));
            let p = first_position_in(order, s);
            let k = order[p];
            assert forall|j: int| s.contains(j) implies !self.ref_edge(k, j) by {
                if self.ref_edge(k, j) {
                    assert(order.subrange(0, p).contains(j));
                    let q = choose|q: int| 0 <= q < p && order.subrange(0, p)[q] == j;
                    assert(order[q] == j);
                    assert(!s.contains(order[q]));
                }
            };
            assert(self.sink_in(s, k));
        };
    }
}

/// Breakpoint inputs are strictly ascending.
pub open spec fn steps_ascending(steps: Seq<(i64, i64)>) -> bool {
    forall|i: int| 0 <= i < steps.len() - 1 ==> (#[trigger] steps[i]).0 < steps[i + 1].0
}

pub(crate) fn check_steps_ascending(steps: &Vec<(i64, i64)>) -> (r: bool)
    ensures
        r == steps_ascending(steps@),
{
    if steps.len() == 0 {
        return true;
    }
    let mut i: usize = 0;
    while i < steps.len() - 1
        invariant
            steps@.len() >= 1,
            i <= steps@.len() - 1,
            forall|j: int| 0 <= j < i ==> (#[trigger] steps@[j]).0 < steps@[j + 1].0,
        decreases steps.len() - i,
    {
        if steps[i].0 >= steps[i + 1].0 {
            return false;
        }
        i = i + 1;
    }
    true
}

/// A sequence of distinct values drawn from `[0, n)` has at most `n`
/// elements.
proof fn lemma_order_len_bounded(order: Seq<int>, n: int)
    requires
        order.no_duplicates(),
        forall|p: int| 0 <= p < order.len() ==> 0 <= #[trigger] order[p] < n,
        n >= 0,
    ensures
        order.len() <= n,
{
    order.unique_seq_to_set();
    assert forall|x: int| order.to_set().contains(x) implies vstd::set_lib::set_int_range(
        0,
        n,
    ).contains(x) by {
        let p = choose|p: int| 0 <= p < order.len() && order[p] == x;
        assert(0 <= order[p] < n);
    };
    assert(order.to_set().subset_of(vstd::set_lib::set_int_range(0, n)));
    vstd::set_lib::lemma_int_range(0, n);
    vstd::set_lib::lemma_len_subset(order.to_set(), vstd::set_lib::set_int_range(0, n));
}

/// The earliest position in `order` whose element lies in `s`.
proof fn first_position_in(order: Seq<int>, s: Set<int>) -> (p: int)
    requires
        exists|q: int| 0 <= q < order.len() && s.contains(#[trigger] order[q]),
    ensures
        0 <= p < order.len(),
        s.contains(order[p]),
        forall|q: int| 0 <= q < p ==> !s.contains(#[trigger] order[q]),
    decreases order.len(),
{
    if s.contains(order[0]) {
        0
    } else {
        let rest = order.subrange(1, order.len() as int);
        let q0 = choose|q: int| 0 <= q < order.len() && s.contains(#[trigger] order[q]);
        assert(rest[q0 - 1] == order[q0]);
        let p_rest = first_position_in(rest, s);
        assert(order[p_rest + 1] == rest[p_rest]);
        assert forall|q: int| 0 <= q < p_rest + 1 implies !s.contains(#[trigger] order[q]) by {
            if q > 0 {
                assert(order[q] == rest[q - 1]);
            }
        };
        p_rest + 1
    }
}

} // verus!
