//! The scheduler: it owns the temperature sources, the curve nodes and
//! the fans, builds them from a validated configuration, and drives the
//! fixed update order of every tick: sources first, then curves in
//! declaration order, then fans.
//!
//! Curves refer to their inputs by index - into the sources, or into the
//! curves declared before them - so a built graph is acyclic by
//! construction, and one tick evaluates every curve on the values its
//! inputs took in the same tick.

use vstd::prelude::*;

use crate::common::{ReadableValue, SensorType, SensorValue, UpdatableOutput};
use crate::config::{CurveFunction, FanCurve, RufacoConfig};
use crate::curve::{
    AverageCurve, LinearCurve, MaximumCurve, NodeRef, PidCurve, PidState, StaticCurve,
};
use crate::fan::{FanInput, FanOutput, FanSensor};
use crate::num::{clamp_to, div_trunc};
use crate::temperature::TempSensor;

verus! {

/// Why a configuration cannot be built.
#[derive(Debug, PartialEq, Eq)]
pub enum ConfigError {
    /// An id referenced by a curve or fan is not a declared sensor, nor a
    /// curve declared before the referring node.
    UnknownId { id: String },
    /// A linear curve lacks two breakpoints, or its breakpoints are not
    /// strictly ascending, or they leave the supported range.
    InvalidLinear { id: String },
    /// A PID parameter leaves the supported range.
    ValueOutOfRange { id: String },
}

/// One built curve node.
pub enum CurveKind {
    Linear(LinearCurve),
    Static(StaticCurve),
    Maximum(MaximumCurve),
    Average(AverageCurve),
    Pid(PidCurve),
}

pub struct CurveNode {
    pub id: String,
    pub kind: CurveKind,
}

/// A node reference points at a node carrying the given id.
pub open spec fn ref_names(
    sensors: Seq<TempSensor>,
    curves: Seq<CurveNode>,
    r: NodeRef,
    id: Seq<char>,
) -> bool {
    match r {
        NodeRef::Source(i) => i < sensors.len() && sensors[i as int].id@ == id,
        NodeRef::Curve(j) => j < curves.len() && curves[j as int].id@ == id,
    }
}

/// A node reference is structurally sound for the node at position `k`:
/// it points at a source, or at a curve declared earlier.
pub open spec fn ref_ok(r: NodeRef, k: int, n_sensors: int) -> bool {
    match r {
        NodeRef::Source(i) => (i as int) < n_sensors,
        NodeRef::Curve(j) => (j as int) < k,
    }
}

/// Structural well-formedness of the node at position `k`.
pub open spec fn node_wf(node: CurveNode, k: int, n_sensors: int) -> bool {
    match node.kind {
        CurveKind::Linear(lc) => lc.wf() && ref_ok(lc.sensor, k, n_sensors),
        CurveKind::Static(_) => true,
        CurveKind::Maximum(mc) => forall|i: int|
            0 <= i < mc.sensors@.len() ==> ref_ok(#[trigger] mc.sensors@[i], k, n_sensors),
        CurveKind::Average(ac) => forall|i: int|
            0 <= i < ac.sensors@.len() ==> ref_ok(#[trigger] ac.sensors@[i], k, n_sensors),
        CurveKind::Pid(pc) => pc.wf() && ref_ok(pc.sensor, k, n_sensors),
    }
}

/// The built node at position `k` realises its declaration: same id,
/// same function, references resolved to nodes carrying the declared
/// input ids.
pub open spec fn node_matches(
    sensors: Seq<TempSensor>,
    curves: Seq<CurveNode>,
    k: int,
    conf: FanCurve,
) -> bool {
    &&& curves[k].id@ == conf.id@
    &&& match conf.function {
        CurveFunction::Linear(cf) => match curves[k].kind {
            CurveKind::Linear(lc) => ref_names(sensors, curves, lc.sensor, cf.sensor@)
                && crate::curve::segments_match(lc.functions@, cf.steps@),
            _ => false,
        },
        CurveFunction::Static(cf) => match curves[k].kind {
            CurveKind::Static(sc) => sc.value == cf.value,
            _ => false,
        },
        CurveFunction::Maximum(cf) => match curves[k].kind {
            CurveKind::Maximum(mc) => mc.sensors@.len() == cf.sensors@.len() && forall|i: int|
                0 <= i < mc.sensors@.len() ==> ref_names(
                    sensors,
                    curves,
                    #[trigger] mc.sensors@[i],
                    cf.sensors@[i]@,
                ),
            _ => false,
        },
        CurveFunction::Average(cf) => match curves[k].kind {
            CurveKind::Average(ac) => ac.sensors@.len() == cf.sensors@.len() && forall|i: int|
                0 <= i < ac.sensors@.len() ==> ref_names(
                    sensors,
                    curves,
                    #[trigger] ac.sensors@[i],
                    cf.sensors@[i]@,
                ),
            _ => false,
        },
        CurveFunction::Pid(cf) => match curves[k].kind {
            CurveKind::Pid(pc) => ref_names(sensors, curves, pc.sensor, cf.sensor@) && pc.p == cf.p
                && pc.i == cf.i && pc.d == cf.d && pc.target == cf.target && pc.state == (PidState {
                integral_milli: 0,
                prev_m: None::<i64>,
                last_val: 0,
            }),
            _ => false,
        },
    }
}

/// An id is resolvable for the curve at position `k`: it names a
/// declared sensor, or a curve declared before position `k`.
pub open spec fn id_resolvable(config: RufacoConfig, k: int, id: Seq<char>) -> bool {
    ||| crate::config::seq_contains_id(config.sensor_ids(), id)
    ||| crate::config::seq_contains_id(config.curve_ids().take(k), id)
}

/// Every curve can be built in declaration order: all referenced ids
/// resolve to sensors or earlier curves, linear breakpoints are sound,
/// and PID parameters lie in the supported range.
pub open spec fn curves_buildable(config: RufacoConfig) -> bool {
    forall|k: int|
        0 <= k < config.curves@.len() ==> match (#[trigger] config.curves@[k]).function {
            CurveFunction::Linear(cf) => id_resolvable(config, k, cf.sensor@) && cf.steps@.len()
                >= 2 && crate::config::steps_ascending(cf.steps@) && crate::curve::steps_in_range(
                cf.steps@,
            ),
            CurveFunction::Static(_) => true,
            CurveFunction::Maximum(cf) => forall|i: int|
                0 <= i < cf.sensors@.len() ==> id_resolvable(
                    config,
                    k,
                    (#[trigger] cf.sensors@[i])@,
                ),
            CurveFunction::Average(cf) => forall|i: int|
                0 <= i < cf.sensors@.len() ==> id_resolvable(
                    config,
                    k,
                    (#[trigger] cf.sensors@[i])@,
                ),
            CurveFunction::Pid(cf) => id_resolvable(config, k, cf.sensor@) && -1_000_000 <= cf.p
                <= 1_000_000 && -1_000_000 <= cf.i <= 1_000_000 && -1_000_000 <= cf.d <= 1_000_000
                && -1_000_000 <= cf.target <= 1_000_000,
        }
}

/// The whole configuration can be built: curves in declaration order,
/// and every fan's curve id names a declared curve.
pub open spec fn config_buildable(config: RufacoConfig) -> bool {
    &&& curves_buildable(config)
    &&& config.fans_resolve()
}

/// Resolve a referenced id: a declared sensor first, else an
/// already-built curve; the first declaration wins.
pub fn get_sensor(
    sensor_id: &String,
    sensors: &Vec<TempSensor>,
    curves: &Vec<CurveNode>,
) -> (r: Result<NodeRef, ConfigError>)
    ensures
        match r {
            Ok(nr) => match nr {
                NodeRef::Source(i) => i < sensors@.len() && sensors@[i as int].id@ == sensor_id@,
                NodeRef::Curve(j) => j < curves@.len() && curves@[j as int].id@ == sensor_id@
                    && forall|q: int| 0 <= q < sensors@.len() ==> (#[trigger] sensors@[q]).id@ != sensor_id@,
            },
            Err(e) => {
                &&& forall|q: int| 0 <= q < sensors@.len() ==> (#[trigger] sensors@[q]).id@ != sensor_id@
                &&& forall|q: int| 0 <= q < curves@.len() ==> (#[trigger] curves@[q]).id@ != sensor_id@
                &&& e matches ConfigError::UnknownId { .. }
            },
        },
        r matches Ok(_) <==> (crate::config::seq_contains_id(
            sensors@.map_values(|s: TempSensor| s.id@),
            sensor_id@,
        ) || crate::config::seq_contains_id(
            curves@.map_values(|c: CurveNode| c.id@),
            sensor_id@,
        )),
{
    let mut i: usize = 0;
    while i < sensors.len()
        invariant
            i <= sensors@.len(),
            forall|q: int| 0 <= q < i ==> (#[trigger] sensors@[q]).id@ != sensor_id@,
        decreases sensors@.len() - i,
    {
        if crate::config::string_eq(&sensors[i].id, sensor_id) {
            assert(sensors@.map_values(|s: TempSensor| s.id@)[i as int] == sensor_id@);
            return Ok(NodeRef::Source(i));
        }
        i = i + 1;
    }
    let mut j: usize = 0;
    while j < curves.len()
        invariant
            j <= curves@.len(),
            forall|q: int| 0 <= q < sensors@.len() ==> (#[trigger] sensors@[q]).id@ != sensor_id@,
            forall|q: int| 0 <= q < j ==> (#[trigger] curves@[q]).id@ != sensor_id@,
        decreases curves@.len() - j,
    {
        if crate::config::string_eq(&curves[j].id, sensor_id) {
            assert(curves@.map_values(|c: CurveNode| c.id@)[j as int] == sensor_id@);
            return Ok(NodeRef::Curve(j));
        }
        j = j + 1;
    }
    proof {
        let sensor_ids = sensors@.map_values(|s: TempSensor| s.id@);
        if crate::config::seq_contains_id(sensor_ids, sensor_id@) {
            let q = choose|q: int| 0 <= q < sensor_ids.len() && sensor_ids[q] == sensor_id@;
            assert(sensors@[q].id@ == sensor_id@);
            assert(false);
        }
        let curve_ids = curves@.map_values(|c: CurveNode| c.id@);
        if crate::config::seq_contains_id(curve_ids, sensor_id@) {
            let q = choose|q: int| 0 <= q < curve_ids.len() && curve_ids[q] == sensor_id@;
            assert(curves@[q].id@ == sensor_id@);
            assert(false);
        }
    }
    Err(ConfigError::UnknownId { id: sensor_id.clone() })
}

/// The per-curve condition of `curves_buildable`.
pub open spec fn buildable_at(config: RufacoConfig, k: int) -> bool {
    match config.curves@[k].function {
        CurveFunction::Linear(cf) => id_resolvable(config, k, cf.sensor@) && cf.steps@.len() >= 2
            && crate::config::steps_ascending(cf.steps@) && crate::curve::steps_in_range(
            cf.steps@,
        ),
        CurveFunction::Static(_) => true,
        CurveFunction::Maximum(cf) => forall|i: int|
            0 <= i < cf.sensors@.len() ==> id_resolvable(config, k, (#[trigger] cf.sensors@[i])@),
        CurveFunction::Average(cf) => forall|i: int|
            0 <= i < cf.sensors@.len() ==> id_resolvable(config, k, (#[trigger] cf.sensors@[i])@),
        CurveFunction::Pid(cf) => id_resolvable(config, k, cf.sensor@) && -1_000_000 <= cf.p
            <= 1_000_000 && -1_000_000 <= cf.i <= 1_000_000 && -1_000_000 <= cf.d <= 1_000_000
            && -1_000_000 <= cf.target <= 1_000_000,
    }
}

/// A realised node stays realised when later curves are appended.
proof fn lemma_node_matches_push(
    sensors: Seq<TempSensor>,
    cs: Seq<CurveNode>,
    node: CurveNode,
    j: int,
    conf: FanCurve,
)
    requires
        0 <= j < cs.len(),
        node_matches(sensors, cs, j, conf),
    ensures
        node_matches(sensors, cs.push(node), j, conf),
{
    let cs2 = cs.push(node);
    assert(cs2[j] == cs[j]);
    match conf.function {
        CurveFunction::Linear(cf) => {
            match cs[j].kind {
                CurveKind::Linear(lc) => {
                    if let NodeRef::Curve(x) = lc.sensor {
                        assert(cs2[x as int] == cs[x as int]);
                    }
                },
                _ => {},
            }
        },
        CurveFunction::Static(_) => {},
        CurveFunction::Maximum(cf) => {
            match cs[j].kind {
                CurveKind::Maximum(mc) => {
                    assert forall|i: int| 0 <= i < mc.sensors@.len() implies ref_names(
                        sensors,
                        cs2,
                        #[trigger] mc.sensors@[i],
                        cf.sensors@[i]@,
                    ) by {
                        assert(ref_names(sensors, cs, mc.sensors@[i], cf.sensors@[i]@));
                        if let NodeRef::Curve(x) = mc.sensors@[i] {
                            assert(cs2[x as int] == cs[x as int]);
                        }
                    };
                },
                _ => {},
            }
        },
        CurveFunction::Average(cf) => {
            match cs[j].kind {
                CurveKind::Average(ac) => {
                    assert forall|i: int| 0 <= i < ac.sensors@.len() implies ref_names(
                        sensors,
                        cs2,
                        #[trigger] ac.sensors@[i],
                        cf.sensors@[i]@,
                    ) by {
                        assert(ref_names(sensors, cs, ac.sensors@[i], cf.sensors@[i]@));
                        if let NodeRef::Curve(x) = ac.sensors@[i] {
                            assert(cs2[x as int] == cs[x as int]);
                        }
                    };
                },
                _ => {},
            }
        },
        CurveFunction::Pid(cf) => {
            match cs[j].kind {
                CurveKind::Pid(pc) => {
                    if let NodeRef::Curve(x) = pc.sensor {
                        assert(cs2[x as int] == cs[x as int]);
                    }
                },
                _ => {},
            }
        },
    }
}

/// A freshly built node realises a declaration, its references resolved
/// against the curves built so far.
pub open spec fn node_realises(
    sensors: Seq<TempSensor>,
    cs: Seq<CurveNode>,
    node: CurveNode,
    conf: FanCurve,
) -> bool {
    &&& node.id@ == conf.id@
    &&& match conf.function {
        CurveFunction::Linear(cf) => match node.kind {
            CurveKind::Linear(lc) => ref_names(sensors, cs, lc.sensor, cf.sensor@)
                && crate::curve::segments_match(lc.functions@, cf.steps@),
            _ => false,
        },
        CurveFunction::Static(cf) => match node.kind {
            CurveKind::Static(sc) => sc.value == cf.value,
            _ => false,
        },
        CurveFunction::Maximum(cf) => match node.kind {
            CurveKind::Maximum(mc) => mc.sensors@.len() == cf.sensors@.len() && forall|i: int|
                0 <= i < mc.sensors@.len() ==> ref_names(
                    sensors,
                    cs,
                    #[trigger] mc.sensors@[i],
                    cf.sensors@[i]@,
                ),
            _ => false,
        },
        CurveFunction::Average(cf) => match node.kind {
            CurveKind::Average(ac) => ac.sensors@.len() == cf.sensors@.len() && forall|i: int|
                0 <= i < ac.sensors@.len() ==> ref_names(
                    sensors,
                    cs,
                    #[trigger] ac.sensors@[i],
                    cf.sensors@[i]@,
                ),
            _ => false,
        },
        CurveFunction::Pid(cf) => match node.kind {
            CurveKind::Pid(pc) => ref_names(sensors, cs, pc.sensor, cf.sensor@) && pc.p == cf.p
                && pc.i == cf.i && pc.d == cf.d && pc.target == cf.target && pc.state == (PidState {
                integral_milli: 0,
                prev_m: None::<i64>,
                last_val: 0,
            }),
            _ => false,
        },
    }
}

/// Appending a node that realises its declaration makes it a realised
/// member of the extended list.
proof fn lemma_push_realises(
    sensors: Seq<TempSensor>,
    cs: Seq<CurveNode>,
    node: CurveNode,
    conf: FanCurve,
)
    requires
        node_realises(sensors, cs, node, conf),
    ensures
        node_matches(sensors, cs.push(node), cs.len() as int, conf),
{
    let cs2 = cs.push(node);
    let k = cs.len() as int;
    assert(cs2[k] == node);
    match conf.function {
        CurveFunction::Linear(cf) => {
            match node.kind {
                CurveKind::Linear(lc) => {
                    if let NodeRef::Curve(x) = lc.sensor {
                        assert(cs2[x as int] == cs[x as int]);
                    }
                },
                _ => {},
            }
        },
        CurveFunction::Static(_) => {},
        CurveFunction::Maximum(cf) => {
            match node.kind {
                CurveKind::Maximum(mc) => {
                    assert forall|i: int| 0 <= i < mc.sensors@.len() implies ref_names(
                        sensors,
                        cs2,
                        #[trigger] mc.sensors@[i],
                        cf.sensors@[i]@,
                    ) by {
                        assert(ref_names(sensors, cs, mc.sensors@[i], cf.sensors@[i]@));
                        if let NodeRef::Curve(x) = mc.sensors@[i] {
                            assert(cs2[x as int] == cs[x as int]);
                        }
                    };
                },
                _ => {},
            }
        },
        CurveFunction::Average(cf) => {
            match node.kind {
                CurveKind::Average(ac) => {
                    assert forall|i: int| 0 <= i < ac.sensors@.len() implies ref_names(
                        sensors,
                        cs2,
                        #[trigger] ac.sensors@[i],
                        cf.sensors@[i]@,
                    ) by {
                        assert(ref_names(sensors, cs, ac.sensors@[i], cf.sensors@[i]@));
                        if let NodeRef::Curve(x) = ac.sensors@[i] {
                            assert(cs2[x as int] == cs[x as int]);
                        }
                    };
                },
                _ => {},
            }
        },
        CurveFunction::Pid(cf) => {
            match node.kind {
                CurveKind::Pid(pc) => {
                    if let NodeRef::Curve(x) = pc.sensor {
                        assert(cs2[x as int] == cs[x as int]);
                    }
                },
                _ => {},
            }
        },
    }
}

/// Instantiate one temperature source per declared sensor.
pub fn load_sensors(config: &RufacoConfig) -> (r: Vec<TempSensor>)
    ensures
        r@.len() == config.sensors@.len(),
        forall|i: int|
            0 <= i < r@.len() ==> (#[trigger] r@[i]).id@ == config.sensors@[i].id@ && r@[i].last_val
                == 0 && r@[i].wf(),
{
    let mut sensors: Vec<TempSensor> = Vec::new();
    let mut i: usize = 0;
    while i < config.sensors.len()
        invariant
            i <= config.sensors@.len(),
            sensors@.len() == i,
            forall|q: int|
                0 <= q < i ==> (#[trigger] sensors@[q]).id@ == config.sensors@[q].id@
                    && sensors@[q].last_val == 0 && sensors@[q].wf(),
        decreases config.sensors@.len() - i,
    {
        sensors.push(TempSensor::new(&config.sensors[i]));
        i = i + 1;
    }
    sensors
}

/// Instantiate the curves in declaration order, resolving every
/// referenced id against the sensors and the curves built so far.
pub fn load_curves(config: &RufacoConfig, sensors: &Vec<TempSensor>) -> (r: Result<
    Vec<CurveNode>,
    ConfigError,
>)
    requires
        sensors@.len() == config.sensors@.len(),
        forall|i: int|
            0 <= i < sensors@.len() ==> (#[trigger] sensors@[i]).id@ == config.sensors@[i].id@,
    ensures
        r matches Ok(_) <==> curves_buildable(*config),
        match r {
            Ok(cs) => {
                &&& cs@.len() == config.curves@.len()
                &&& forall|k: int|
                    0 <= k < cs@.len() ==> node_matches(
                        sensors@,
                        cs@,
                        k,
                        #[trigger] config.curves@[k],
                    )
                &&& forall|k: int|
                    0 <= k < cs@.len() ==> node_wf(#[trigger] cs@[k], k, sensors@.len() as int)
            },
            Err(_) => true,
        },
{
    let mut cs: Vec<CurveNode> = Vec::new();
    let mut k: usize = 0;
    while k < config.curves.len()
        invariant
            sensors@.len() == config.sensors@.len(),
            forall|i: int|
                0 <= i < sensors@.len() ==> (#[trigger] sensors@[i]).id@ == config.sensors@[i].id@,
            k <= config.curves@.len(),
            cs@.len() == k,
            forall|j: int|
                0 <= j < k ==> node_matches(sensors@, cs@, j, #[trigger] config.curves@[j]),
            forall|j: int| 0 <= j < k ==> node_wf(#[trigger] cs@[j], j, sensors@.len() as int),
            forall|j: int| 0 <= j < k ==> buildable_at(*config, j),
        decreases config.curves@.len() - k,
    {
        let conf = &config.curves[k];
        let node: CurveNode = match &conf.function {
            CurveFunction::Linear(cf) => {
                let sref = match get_sensor(&cf.sensor, sensors, &cs) {
                    Ok(nr) => nr,
                    Err(e) => {
                        proof {
                            lemma_unresolved(*config, sensors@, cs@, k as int, cf.sensor@);
                            lemma_not_buildable(*config, k as int);
                        }
                        return Err(e);
                    },
                };
                if cf.steps.len() < 2 || !crate::config::check_steps_ascending(&cf.steps)
                    || !check_steps_range(&cf.steps) {
                    proof {
                        lemma_not_buildable(*config, k as int);
                    }
                    return Err(ConfigError::InvalidLinear { id: conf.id.clone() });
                }
                proof {
                    lemma_resolved(*config, sensors@, cs@, k as int, cf.sensor@, sref);
                }
                CurveNode {
                    id: conf.id.clone(),
                    kind: CurveKind::Linear(LinearCurve::new(sref, cf)),
                }
            },
            CurveFunction::Static(cf) => {
                CurveNode {
                    id: conf.id.clone(),
                    kind: CurveKind::Static(StaticCurve { value: cf.value }),
                }
            },
            CurveFunction::Maximum(cf) => {
                let refs = match resolve_refs(config, &cf.sensors, sensors, &cs, Ghost(k as int)) {
                    Ok(rs) => rs,
                    Err(e) => {
                        proof {
                            lemma_not_buildable(*config, k as int);
                        }
                        return Err(e);
                    },
                };
                CurveNode {
                    id: conf.id.clone(),
                    kind: CurveKind::Maximum(MaximumCurve { sensors: refs }),
                }
            },
            CurveFunction::Average(cf) => {
                let refs = match resolve_refs(config, &cf.sensors, sensors, &cs, Ghost(k as int)) {
                    Ok(rs) => rs,
                    Err(e) => {
                        proof {
                            lemma_not_buildable(*config, k as int);
                        }
                        return Err(e);
                    },
                };
                CurveNode {
                    id: conf.id.clone(),
                    kind: CurveKind::Average(AverageCurve { sensors: refs }),
                }
            },
            CurveFunction::Pid(cf) => {
                let sref = match get_sensor(&cf.sensor, sensors, &cs) {
                    Ok(nr) => nr,
                    Err(e) => {
                        proof {
                            lemma_unresolved(*config, sensors@, cs@, k as int, cf.sensor@);
                            lemma_not_buildable(*config, k as int);
                        }
                        return Err(e);
                    },
                };
                if cf.p < -1_000_000 || cf.p > 1_000_000 || cf.i < -1_000_000 || cf.i > 1_000_000
                    || cf.d < -1_000_000 || cf.d > 1_000_000 || cf.target < -1_000_000
                    || cf.target > 1_000_000 {
                    proof {
                        lemma_not_buildable(*config, k as int);
                    }
                    return Err(ConfigError::ValueOutOfRange { id: conf.id.clone() });
                }
                proof {
                    lemma_resolved(*config, sensors@, cs@, k as int, cf.sensor@, sref);
                }
                CurveNode {
                    id: conf.id.clone(),
                    kind: CurveKind::Pid(PidCurve::new(sref, cf.p, cf.i, cf.d, cf.target)),
                }
            },
        };
        proof {
            let old_cs = cs@;
            assert(node_realises(sensors@, old_cs, node, config.curves@[k as int]));
            lemma_push_realises(sensors@, old_cs, node, config.curves@[k as int]);
            assert forall|j: int|
                0 <= j < k implies node_matches(
                sensors@,
                old_cs.push(node),
                j,
                #[trigger] config.curves@[j],
            ) by {
                lemma_node_matches_push(sensors@, old_cs, node, j, config.curves@[j]);
            };
            assert(node_wf(node, k as int, sensors@.len() as int));
            assert(buildable_at(*config, k as int));
        }
        cs.push(node);
        k = k + 1;
    }
    proof {
        assert forall|j: int|
            0 <= j < config.curves@.len() implies match (#[trigger] config.curves@[j]).function {
            CurveFunction::Linear(cf) => id_resolvable(*config, j, cf.sensor@) && cf.steps@.len()
                >= 2 && crate::config::steps_ascending(cf.steps@) && crate::curve::steps_in_range(
                cf.steps@,
            ),
            CurveFunction::Static(_) => true,
            CurveFunction::Maximum(cf) => forall|i: int|
                0 <= i < cf.sensors@.len() ==> id_resolvable(
                    *config,
                    j,
                    (#[trigger] cf.sensors@[i])@,
                ),
            CurveFunction::Average(cf) => forall|i: int|
                0 <= i < cf.sensors@.len() ==> id_resolvable(
                    *config,
                    j,
                    (#[trigger] cf.sensors@[i])@,
                ),
            CurveFunction::Pid(cf) => id_resolvable(*config, j, cf.sensor@) && -1_000_000 <= cf.p
                <= 1_000_000 && -1_000_000 <= cf.i <= 1_000_000 && -1_000_000 <= cf.d <= 1_000_000
                && -1_000_000 <= cf.target <= 1_000_000,
        } by {
            assert(buildable_at(*config, j));
        };
    }
    Ok(cs)
}

/// If the configuration fails its per-curve condition anywhere, it is
/// not buildable.
proof fn lemma_not_buildable(config: RufacoConfig, k: int)
    requires
        0 <= k < config.curves@.len(),
        !buildable_at(config, k),
    ensures
        !curves_buildable(config),
{
    if curves_buildable(config) {
        assert(config.curves@[k] == config.curves@[k]);
    }
}

/// Bounds check of linear breakpoints.
fn check_steps_range(steps: &Vec<(i64, i64)>) -> (r: bool)
    ensures
        r == crate::curve::steps_in_range(steps@),
{
    let mut i: usize = 0;
    while i < steps.len()
        invariant
            i <= steps@.len(),
            forall|j: int|
                0 <= j < i ==> -1_000_000 <= (#[trigger] steps@[j]).0 <= 1_000_000 && -1_000_000
                    <= steps@[j].1 <= 1_000_000,
        decreases steps@.len() - i,
    {
        let (x, y) = steps[i];
        if x < -1_000_000 || x > 1_000_000 || y < -1_000_000 || y > 1_000_000 {
            return false;
        }
        i = i + 1;
    }
    true
}

/// From an unresolved id, the configuration is not buildable at `k`.
proof fn lemma_unresolved(
    config: RufacoConfig,
    sensors: Seq<TempSensor>,
    cs: Seq<CurveNode>,
    k: int,
    id: Seq<char>,
)
    requires
        sensors.len() == config.sensors@.len(),
        forall|i: int| 0 <= i < sensors.len() ==> (#[trigger] sensors[i]).id@ == config.sensors@[i].id@,
        cs.len() == k,
        0 <= k <= config.curves@.len(),
        forall|j: int| 0 <= j < k ==> node_matches(sensors, cs, j, #[trigger] config.curves@[j]),
        forall|q: int| 0 <= q < sensors.len() ==> (#[trigger] sensors[q]).id@ != id,
        forall|q: int| 0 <= q < cs.len() ==> (#[trigger] cs[q]).id@ != id,
    ensures
        !id_resolvable(config, k, id),
{
    if crate::config::seq_contains_id(config.sensor_ids(), id) {
        let ids = config.sensor_ids();
        let q = choose|q: int| 0 <= q < ids.len() && ids[q] == id;
        assert(config.sensors@[q].id@ == id);
        assert(sensors[q].id@ == id);
        assert(false);
    }
    if crate::config::seq_contains_id(config.curve_ids().take(k), id) {
        let ids = config.curve_ids().take(k);
        let q = choose|q: int| 0 <= q < ids.len() && ids[q] == id;
        assert(config.curve_ids()[q] == id);
        assert(config.curves@[q].id@ == id);
        assert(node_matches(sensors, cs, q, config.curves@[q]));
        assert(cs[q].id@ == id);
        assert(false);
    }
}

/// A resolved reference witnesses resolvability and is structurally
/// sound and correctly named.
proof fn lemma_resolved(
    config: RufacoConfig,
    sensors: Seq<TempSensor>,
    cs: Seq<CurveNode>,
    k: int,
    id: Seq<char>,
    nr: NodeRef,
)
    requires
        sensors.len() == config.sensors@.len(),
        forall|i: int| 0 <= i < sensors.len() ==> (#[trigger] sensors[i]).id@ == config.sensors@[i].id@,
        cs.len() == k,
        0 <= k <= config.curves@.len(),
        forall|j: int| 0 <= j < k ==> node_matches(sensors, cs, j, #[trigger] config.curves@[j]),
        match nr {
            NodeRef::Source(i) => i < sensors.len() && sensors[i as int].id@ == id,
            NodeRef::Curve(j) => j < cs.len() && cs[j as int].id@ == id,
        },
    ensures
        id_resolvable(config, k, id),
        ref_names(sensors, cs, nr, id),
        ref_ok(nr, k, sensors.len() as int),
{
    match nr {
        NodeRef::Source(i) => {
            assert(config.sensor_ids()[i as int] == config.sensors@[i as int].id@);
            assert(config.sensor_ids()[i as int] == id);
        },
        NodeRef::Curve(j) => {
            assert(node_matches(sensors, cs, j as int, config.curves@[j as int]));
            assert(config.curves@[j as int].id@ == id);
            assert(config.curve_ids().take(k)[j as int] == id);
        },
    }
}

/// Resolve a list of referenced ids for an aggregate curve at position
/// `k` (the number of curves built so far).
fn resolve_refs(
    config: &RufacoConfig,
    ids: &Vec<String>,
    sensors: &Vec<TempSensor>,
    cs: &Vec<CurveNode>,
    k: Ghost<int>,
) -> (r: Result<Vec<NodeRef>, ConfigError>)
    requires
        sensors@.len() == config.sensors@.len(),
        forall|i: int|
            0 <= i < sensors@.len() ==> (#[trigger] sensors@[i]).id@ == config.sensors@[i].id@,
        cs@.len() == k@,
        0 <= k@ <= config.curves@.len(),
        forall|j: int|
            0 <= j < k@ ==> node_matches(sensors@, cs@, j, #[trigger] config.curves@[j]),
    ensures
        match r {
            Ok(rs) => {
                &&& rs@.len() == ids@.len()
                &&& forall|i: int|
                    0 <= i < rs@.len() ==> ref_names(
                        sensors@,
                        cs@,
                        #[trigger] rs@[i],
                        ids@[i]@,
                    ) && ref_ok(rs@[i], k@, sensors@.len() as int)
                &&& forall|i: int|
                    0 <= i < ids@.len() ==> id_resolvable(*config, k@, (#[trigger] ids@[i])@)
            },
            Err(e) => {
                &&& exists|i: int| 0 <= i < ids@.len() && !id_resolvable(*config, k@, (#[trigger] ids@[i])@)
                &&& e matches ConfigError::UnknownId { .. }
            },
        },
{
    let mut rs: Vec<NodeRef> = Vec::new();
    let mut i: usize = 0;
    while i < ids.len()
        invariant
            sensors@.len() == config.sensors@.len(),
            forall|q: int|
                0 <= q < sensors@.len() ==> (#[trigger] sensors@[q]).id@ == config.sensors@[q].id@,
            cs@.len() == k@,
            0 <= k@ <= config.curves@.len(),
            forall|j: int|
                0 <= j < k@ ==> node_matches(sensors@, cs@, j, #[trigger] config.curves@[j]),
            i <= ids@.len(),
            rs@.len() == i,
            forall|q: int|
                0 <= q < i ==> ref_names(sensors@, cs@, #[trigger] rs@[q], ids@[q]@) && ref_ok(
                    rs@[q],
                    k@,
                    sensors@.len() as int,
                ),
            forall|q: int| 0 <= q < i ==> id_resolvable(*config, k@, (#[trigger] ids@[q])@),
        decreases ids@.len() - i,
    {
        match get_sensor(&ids[i], sensors, cs) {
            Ok(nr) => {
                proof {
                    lemma_resolved(*config, sensors@, cs@, k@, ids@[i as int]@, nr);
                }
                rs.push(nr);
            },
            Err(e) => {
                proof {
                    lemma_unresolved(*config, sensors@, cs@, k@, ids@[i as int]@);
                }
                return Err(e);
            },
        }
        i = i + 1;
    }
    Ok(rs)
}

/// Find the curve with the given id; the first declaration wins.
fn find_curve(curves: &Vec<CurveNode>, id: &String) -> (r: Result<usize, ConfigError>)
    ensures
        match r {
            Ok(i) => i < curves@.len() && curves@[i as int].id@ == id@,
            Err(e) => e matches ConfigError::UnknownId { .. },
        },
        r matches Ok(_) <==> crate::config::seq_contains_id(
            curves@.map_values(|c: CurveNode| c.id@),
            id@,
        ),
{
    let mut i: usize = 0;
    while i < curves.len()
        invariant
            i <= curves@.len(),
            forall|q: int| 0 <= q < i ==> (#[trigger] curves@[q]).id@ != id@,
        decreases curves@.len() - i,
    {
        if crate::config::string_eq(&curves[i].id, id) {
            assert(curves@.map_values(|c: CurveNode| c.id@)[i as int] == id@);
            return Ok(i);
        }
        i = i + 1;
    }
    proof {
        let curve_ids = curves@.map_values(|c: CurveNode| c.id@);
        if crate::config::seq_contains_id(curve_ids, id@) {
            let q = choose|q: int| 0 <= q < curve_ids.len() && curve_ids[q] == id@;
            assert(curves@[q].id@ == id@);
            assert(false);
        }
    }
    Err(ConfigError::UnknownId { id: id.clone() })
}

/// Instantiate the fans, binding each to its declared curve and to its
/// RPM and PWM channels.
pub fn load_fans<I: FanInput, O: FanOutput>(
    config: &RufacoConfig,
    curves: &Vec<CurveNode>,
    fan_ios: Vec<(I, O)>,
) -> (r: Result<Vec<FanSensor<I, O>>, ConfigError>)
    requires
        fan_ios@.len() == config.fans@.len(),
        curves@.map_values(|c: CurveNode| c.id@) == config.curve_ids(),
    ensures
        r matches Ok(_) <==> config.fans_resolve(),
        match r {
            Ok(fans) => {
                &&& fans@.len() == config.fans@.len()
                &&& forall|f: int|
                    0 <= f < fans@.len() ==> (#[trigger] fans@[f]).curve < curves@.len()
                &&& forall|f: int|
                    0 <= f < fans@.len() ==> {
                        let fc = #[trigger] config.fans@[f];
                        let fan = fans@[f];
                        &&& fan.id@ == fc.id@
                        &&& fan.curve < curves@.len()
                        &&& curves@[fan.curve as int].id@ == fc.curve@
                        &&& fan.last_val == 0
                        &&& fan.min_pwm == match fc.minpwm {
                            Some(v) => v,
                            None => 0u8,
                        }
                        &&& fan.start_pwm == match fc.startpwm {
                            Some(v) => v,
                            None => 0u8,
                        }
                        &&& fan.start_percent == 20
                        &&& fan.zero_percent_time matches None
                        &&& fan.last_pwm == 0
                    }
            },
            Err(e) => e matches ConfigError::UnknownId { .. },
        },
{
    let mut fans: Vec<FanSensor<I, O>> = Vec::new();
    let mut ios = fan_ios;
    let mut f: usize = 0;
    while f < config.fans.len()
        invariant
            curves@.map_values(|c: CurveNode| c.id@) == config.curve_ids(),
            f <= config.fans@.len(),
            ios@.len() == config.fans@.len() - f,
            fans@.len() == f,
            forall|q: int| 0 <= q < f ==> (#[trigger] fans@[q]).curve < curves@.len(),
            forall|q: int|
                0 <= q < f ==> {
                    let fc = #[trigger] config.fans@[q];
                    let fan = fans@[q];
                    &&& fan.id@ == fc.id@
                    &&& fan.curve < curves@.len()
                    &&& curves@[fan.curve as int].id@ == fc.curve@
                    &&& fan.last_val == 0
                    &&& fan.min_pwm == match fc.minpwm {
                        Some(v) => v,
                        None => 0u8,
                    }
                    &&& fan.start_pwm == match fc.startpwm {
                        Some(v) => v,
                        None => 0u8,
                    }
                    &&& fan.start_percent == 20
                    &&& fan.zero_percent_time matches None
                    &&& fan.last_pwm == 0
                },
        decreases config.fans@.len() - f,
    {
        let conf = &config.fans[f];
        let curve_idx = match find_curve(curves, &conf.curve) {
            Ok(i) => i,
            Err(e) => {
                proof {
                    if config.fans_resolve() {
                        assert(crate::config::seq_contains_id(
                            config.curve_ids(),
                            config.fans@[f as int].curve@,
                        ));
                        assert(false);
                    }
                }
                return Err(e);
            },
        };
        let (fi, fo) = ios.remove(0);
        fans.push(FanSensor::new(conf, fi, fo, curve_idx));
        f = f + 1;
    }
    proof {
        assert forall|q: int|
            0 <= q < config.fans@.len() implies crate::config::seq_contains_id(
            config.curve_ids(),
            (#[trigger] config.fans@[q]).curve@,
        ) by {
            let fan = fans@[q];
            assert(curves@[fan.curve as int].id@ == config.fans@[q].curve@);
            assert(config.curve_ids()[fan.curve as int] == curves@[fan.curve as int].id@);
        };
    }
    Ok(fans)
}

/// The scheduler: all nodes of the control graph, and the last computed
/// value of every curve.
pub struct FanHub<I: FanInput, O: FanOutput> {
    pub config: RufacoConfig,
    pub sensors: Vec<TempSensor>,
    pub curves: Vec<CurveNode>,
    pub curve_values: Vec<SensorValue>,
    pub fans: Vec<FanSensor<I, O>>,
}

impl<I: FanInput, O: FanOutput> FanHub<I, O> {
    /// Structural well-formedness: every reference points backwards in
    /// the build order, every fan is bound to a curve, every cached
    /// value is a well-formed percentage.
    pub open spec fn wf(self) -> bool {
        &&& self.curve_values@.len() == self.curves@.len()
        &&& forall|k: int|
            0 <= k < self.curve_values@.len() ==> {
                &&& (#[trigger] self.curve_values@[k]).wf()
                &&& self.curve_values@[k].kind_spec() == SensorType::PERCENTAGE
                &&& self.curve_values@[k].factor_spec() == 1000
            }
        &&& forall|k: int|
            0 <= k < self.curves@.len() ==> node_wf(
                #[trigger] self.curves@[k],
                k,
                self.sensors@.len() as int,
            )
        &&& forall|f: int|
            0 <= f < self.fans@.len() ==> (#[trigger] self.fans@[f]).curve < self.curves@.len()
        &&& forall|i: int| 0 <= i < self.sensors@.len() ==> (#[trigger] self.sensors@[i]).wf()
    }

    /// Build the whole control graph from a configuration and the fans'
    /// hardware channels, one channel pair per declared fan, in order.
    pub fn new(config: RufacoConfig, fan_ios: Vec<(I, O)>) -> (r: Result<FanHub<I, O>, ConfigError>)
        requires
            fan_ios@.len() == config.fans@.len(),
        ensures
            r matches Ok(_) <==> config_buildable(config),
            match r {
                Ok(hub) => {
                    &&& hub.wf()
                    &&& hub.config == config
                    &&& hub.sensors@.len() == config.sensors@.len()
                    &&& forall|i: int|
                        0 <= i < hub.sensors@.len() ==> (#[trigger] hub.sensors@[i]).id@
                            == config.sensors@[i].id@ && hub.sensors@[i].last_val == 0
                    &&& hub.curves@.len() == config.curves@.len()
                    &&& forall|k: int|
                        0 <= k < hub.curves@.len() ==> node_matches(
                            hub.sensors@,
                            hub.curves@,
                            k,
                            #[trigger] config.curves@[k],
                        )
                    &&& hub.fans@.len() == config.fans@.len()
                    &&& forall|f: int|
                        0 <= f < hub.fans@.len() ==> {
                            let fc = #[trigger] config.fans@[f];
                            let fan = hub.fans@[f];
                            &&& fan.id@ == fc.id@
                            &&& fan.curve < hub.curves@.len()
                            &&& hub.curves@[fan.curve as int].id@ == fc.curve@
                            &&& fan.min_pwm == match fc.minpwm {
                                Some(v) => v,
                                None => 0u8,
                            }
                            &&& fan.start_pwm == match fc.startpwm {
                                Some(v) => v,
                                None => 0u8,
                            }
                        }
                    &&& forall|k: int|
                        0 <= k < hub.curve_values@.len() ==> (
                        #[trigger] hub.curve_values@[k]).raw_spec() == 0
                },
                Err(_) => true,
            },
    {
        let sensors = load_sensors(&config);
        let curves = match load_curves(&config, &sensors) {
            Ok(cs) => cs,
            Err(e) => {
                return Err(e);
            },
        };
        proof {
            assert forall|k: int|
                0 <= k < curves@.len() implies curves@.map_values(|c: CurveNode| c.id@)[k]
                == config.curve_ids()[k] by {
                assert(node_matches(sensors@, curves@, k, config.curves@[k]));
            };
            assert(curves@.map_values(|c: CurveNode| c.id@) =~= config.curve_ids());
        }
        let fans = match load_fans(&config, &curves, fan_ios) {
            Ok(fs) => fs,
            Err(e) => {
                return Err(e);
            },
        };
        let mut curve_values: Vec<SensorValue> = Vec::new();
        let mut k: usize = 0;
        while k < curves.len()
            invariant
                k <= curves@.len(),
                curve_values@.len() == k,
                forall|q: int|
                    0 <= q < k ==> {
                        &&& (#[trigger] curve_values@[q]).wf()
                        &&& curve_values@[q].kind_spec() == SensorType::PERCENTAGE
                        &&& curve_values@[q].factor_spec() == 1000
                        &&& curve_values@[q].raw_spec() == 0
                    },
            decreases curves@.len() - k,
        {
            curve_values.push(SensorValue::new(SensorType::PERCENTAGE, 1000, 0));
            k = k + 1;
        }
        Ok(FanHub { config, sensors, curves, curve_values, fans })
    }
}

impl<I: FanInput, O: FanOutput> FanHub<I, O> {
    /// The scaled value (in thousandths) a source holds after this tick:
    /// the fresh reading, or the kept previous value on a failed read.
    pub open spec fn source_milli_after(self, temps: Seq<Option<i64>>, i: int) -> int {
        let nv = match temps[i] {
            Some(v) => v as int,
            None => self.sensors@[i].last_val as int,
        };
        clamp_to(nv, 4_000_000_000_000_000_000)
    }

    /// The scaled value (in thousandths) the input `r` of curve `k`
    /// contributes this tick.
    pub open spec fn ref_milli(self, temps: Seq<Option<i64>>, k: int, r: NodeRef) -> int
        decreases k, 0int, 0int,
        when 0 <= k
    {
        match r {
            NodeRef::Source(i) => self.source_milli_after(temps, i as int),
            NodeRef::Curve(j) => if (j as int) < k {
                self.tick_raw(temps, j as int) * 1000
            } else {
                0
            },
        }
    }

    /// The scaled values all inputs of curve `k` contribute this tick.
    pub open spec fn refs_milli(self, temps: Seq<Option<i64>>, k: int, refs: Seq<NodeRef>) -> Seq<
        int,
    >
        decreases k, 1int, refs.len(),
        when 0 <= k
    {
        if refs.len() == 0 {
            Seq::empty()
        } else {
            self.refs_milli(temps, k, refs.drop_last()).push(
                self.ref_milli(temps, k, refs.last()),
            )
        }
    }

    /// The percentage raw value curve `k` emits this tick, each curve
    /// computed from the values its inputs take in the same tick.
    pub open spec fn tick_raw(self, temps: Seq<Option<i64>>, k: int) -> int
        decreases k, 2int, 0int,
        when 0 <= k
    {
        match self.curves@[k].kind {
            CurveKind::Linear(lc) => clamp_to(
                crate::curve::seg_value(
                    lc.functions@,
                    div_trunc(self.ref_milli(temps, k, lc.sensor), 1000),
                ),
                crate::curve::PCT_RAW_LIMIT as int,
            ),
            CurveKind::Static(sc) => clamp_to(
                sc.value as int,
                crate::curve::PCT_RAW_LIMIT as int,
            ),
            CurveKind::Maximum(mc) => {
                let ms = self.refs_milli(temps, k, mc.sensors@);
                if ms.len() == 0 {
                    0
                } else {
                    div_trunc(crate::curve::max_milli_ints(ms), 1000)
                }
            },
            CurveKind::Average(ac) => {
                let ms = self.refs_milli(temps, k, ac.sensors@);
                if ms.len() == 0 {
                    0
                } else {
                    div_trunc(crate::curve::sum_units_ints(ms), ms.len() as int)
                }
            },
            CurveKind::Pid(pc) => pc.step_spec(
                self.ref_milli(temps, k, pc.sensor),
            ).state.last_val as int,
        }
    }

    /// The node at position `k` after this tick: a PID controller has
    /// integrated, every other node is unchanged.
    pub open spec fn tick_node(self, temps: Seq<Option<i64>>, k: int) -> CurveNode {
        match self.curves@[k].kind {
            CurveKind::Pid(pc) => CurveNode {
                id: self.curves@[k].id,
                kind: CurveKind::Pid(pc.step_spec(self.ref_milli(temps, k, pc.sensor))),
            },
            _ => self.curves@[k],
        }
    }

    /// The current value of the node `r` refers to: a source's reading,
    /// or a curve's cached value.
    fn node_value(&self, r: NodeRef) -> (v: SensorValue)
        requires
            match r {
                NodeRef::Source(i) => i < self.sensors@.len(),
                NodeRef::Curve(j) => j < self.curve_values@.len(),
            },
        ensures
            match r {
                NodeRef::Source(i) => v.kind_spec() == SensorType::TEMPERATURE && v.factor_spec()
                    == 1 && v.raw_spec() == clamp_to(
                    self.sensors@[i as int].last_val as int,
                    4_000_000_000_000_000_000,
                ) && v.wf(),
                NodeRef::Curve(j) => v == self.curve_values@[j as int],
            },
    {
        match r {
            NodeRef::Source(i) => self.sensors[i].get_value(),
            NodeRef::Curve(j) => self.curve_values[j],
        }
    }

    /// The current values of a list of referenced nodes.
    fn gather_values(&self, refs: &Vec<NodeRef>) -> (vals: Vec<SensorValue>)
        requires
            forall|i: int|
                0 <= i < refs@.len() ==> match #[trigger] refs@[i] {
                    NodeRef::Source(si) => si < self.sensors@.len(),
                    NodeRef::Curve(j) => j < self.curve_values@.len(),
                },
        ensures
            vals@.len() == refs@.len(),
            forall|i: int|
                0 <= i < refs@.len() ==> match #[trigger] refs@[i] {
                    NodeRef::Source(si) => {
                        let v = vals@[i];
                        v.kind_spec() == SensorType::TEMPERATURE && v.factor_spec() == 1
                            && v.raw_spec() == clamp_to(
                            self.sensors@[si as int].last_val as int,
                            4_000_000_000_000_000_000,
                        ) && v.wf()
                    },
                    NodeRef::Curve(j) => vals@[i] == self.curve_values@[j as int],
                },
    {
        let mut vals: Vec<SensorValue> = Vec::new();
        let mut i: usize = 0;
        while i < refs.len()
            invariant
                forall|q: int|
                    0 <= q < refs@.len() ==> match #[trigger] refs@[q] {
                        NodeRef::Source(si) => si < self.sensors@.len(),
                        NodeRef::Curve(j) => j < self.curve_values@.len(),
                    },
                i <= refs@.len(),
                vals@.len() == i,
                forall|q: int|
                    0 <= q < i ==> match #[trigger] refs@[q] {
                        NodeRef::Source(si) => {
                            let v = vals@[q];
                            v.kind_spec() == SensorType::TEMPERATURE && v.factor_spec() == 1
                                && v.raw_spec() == clamp_to(
                                self.sensors@[si as int].last_val as int,
                                4_000_000_000_000_000_000,
                            ) && v.wf()
                        },
                        NodeRef::Curve(j) => vals@[q] == self.curve_values@[j as int],
                    },
            decreases refs@.len() - i,
        {
            vals.push(self.node_value(refs[i]));
            i = i + 1;
        }
        vals
    }

    /// The scaled values of the gathered inputs are exactly the
    /// contributions `refs_milli` describes.
    proof fn lemma_refs_milli_index(
        self,
        temps: Seq<Option<i64>>,
        k: int,
        refs: Seq<NodeRef>,
    )
        requires
            0 <= k,
        ensures
            self.refs_milli(temps, k, refs).len() == refs.len(),
            forall|i: int|
                0 <= i < refs.len() ==> self.refs_milli(temps, k, refs)[i] == self.ref_milli(
                    temps,
                    k,
                    #[trigger] refs[i],
                ),
        decreases refs.len(),
    {
        if refs.len() > 0 {
            self.lemma_refs_milli_index(temps, k, refs.drop_last());
            assert forall|i: int|
                0 <= i < refs.len() implies self.refs_milli(temps, k, refs)[i] == self.ref_milli(
                temps,
                k,
                #[trigger] refs[i],
            ) by {
                if i < refs.len() - 1 {
                    assert(refs.drop_last()[i] == refs[i]);
                    assert(self.refs_milli(temps, k, refs)[i] == self.refs_milli(
                        temps,
                        k,
                        refs.drop_last(),
                    )[i]);
                }
            };
        }
    }
}

impl<I: FanInput, O: FanOutput> FanHub<I, O> {
    /// One tick: refresh every source from its reading, then recompute
    /// every curve in declaration order from the values its inputs take
    /// this tick (PID controllers integrate here), then drive every fan
    /// from its curve's fresh value.  Sources update strictly before any
    /// curve, and all curves strictly before any fan.
    pub fn update(&mut self, temps: &Vec<Option<i64>>, now_ms: u64)
        requires
            old(self).wf(),
            temps@.len() == old(self).sensors@.len(),
            forall|i: int|
                0 <= i < temps@.len() ==> match #[trigger] temps@[i] {
                    Some(v) => -0x8000_0000 <= v <= 0x8000_0000,
                    None => true,
                },
        ensures
            final(self).wf(),
            final(self).config == old(self).config,
            final(self).sensors@.len() == old(self).sensors@.len(),
            forall|i: int|
                0 <= i < final(self).sensors@.len() ==> (#[trigger] final(self).sensors@[i]).id
                    == old(self).sensors@[i].id && final(self).sensors@[i].last_val == (
                match temps@[i] {
                    Some(v) => v,
                    None => old(self).sensors@[i].last_val,
                }),
            final(self).curves@.len() == old(self).curves@.len(),
            forall|k: int|
                0 <= k < final(self).curves@.len() ==> #[trigger] final(self).curves@[k] == old(
                    self,
                ).tick_node(temps@, k),
            final(self).curve_values@.len() == old(self).curves@.len(),
            forall|k: int|
                0 <= k < final(self).curve_values@.len() ==> {
                    let v = #[trigger] final(self).curve_values@[k];
                    &&& v.kind_spec() == SensorType::PERCENTAGE
                    &&& v.factor_spec() == 1000
                    &&& v.raw_spec() == old(self).tick_raw(temps@, k)
                    &&& v.wf()
                },
            final(self).fans@.len() == old(self).fans@.len(),
            forall|f: int|
                0 <= f < final(self).fans@.len() ==> {
                    let fan0 = old(self).fans@[f];
                    let fan1 = #[trigger] final(self).fans@[f];
                    let p = crate::fan::demand_percent(
                        final(self).curve_values@[fan0.curve as int],
                    );
                    let fz = crate::fan::fan_floor_spec(
                        fan0.min_pwm,
                        fan0.start_pwm,
                        fan0.start_percent as int,
                        fan1.last_val as int,
                        p,
                        fan0.zero_percent_time,
                        now_ms,
                    );
                    &&& fan1.last_pwm as int == crate::fan::fan_pwm_spec(p, fz.0)
                    &&& fan1.zero_percent_time == fz.1
                    &&& fan1.id == fan0.id
                    &&& fan1.curve == fan0.curve
                    &&& fan1.min_pwm == fan0.min_pwm
                    &&& fan1.start_pwm == fan0.start_pwm
                    &&& fan1.start_percent == fan0.start_percent
                    &&& fan1.fan_input == fan0.fan_input
                },
    {
        let mut i: usize = 0;
        while i < self.sensors.len()
            invariant
                old(self).wf(),
                temps@.len() == old(self).sensors@.len(),
                forall|q: int|
                    0 <= q < temps@.len() ==> match #[trigger] temps@[q] {
                        Some(v) => -0x8000_0000 <= v <= 0x8000_0000,
                        None => true,
                    },
                self.config == old(self).config,
                self.curves == old(self).curves,
                self.curve_values == old(self).curve_values,
                self.fans == old(self).fans,
                self.sensors@.len() == old(self).sensors@.len(),
                i <= self.sensors@.len(),
                forall|q: int|
                    0 <= q < i ==> (#[trigger] self.sensors@[q]).id == old(self).sensors@[q].id
                        && self.sensors@[q].last_val == (match temps@[q] {
                        Some(v) => v,
                        None => old(self).sensors@[q].last_val,
                    }) && self.sensors@[q].wf(),
                forall|q: int|
                    i <= q < self.sensors@.len() ==> #[trigger] self.sensors@[q] == old(
                        self,
                    ).sensors@[q],
            decreases self.sensors@.len() - i,
        {
            let ghost pre = self.sensors@;
            let reading = temps[i];
            let mut sensor = self.sensors.remove(i);
            sensor.update_input(reading);
            self.sensors.insert(i, sensor);
            proof {
                assert forall|q: int|
                    0 <= q < pre.len() && q != i implies #[trigger] self.sensors@[q] == pre[q] by {
                    if q < i {
                        assert(pre.remove(i as int)[q] == pre[q]);
                        assert(self.sensors@[q] == pre.remove(i as int)[q]);
                    } else {
                        assert(pre.remove(i as int)[q - 1] == pre[q]);
                        assert(self.sensors@[q] == pre.remove(i as int)[q - 1]);
                    }
                };
            }
            i = i + 1;
        }

        let mut k: usize = 0;
        while k < self.curves.len()
            invariant
                old(self).wf(),
                temps@.len() == old(self).sensors@.len(),
                self.config == old(self).config,
                self.fans == old(self).fans,
                self.sensors@.len() == old(self).sensors@.len(),
                forall|q: int|
                    0 <= q < self.sensors@.len() ==> (#[trigger] self.sensors@[q]).id == old(
                        self,
                    ).sensors@[q].id && self.sensors@[q].last_val == (match temps@[q] {
                        Some(v) => v,
                        None => old(self).sensors@[q].last_val,
                    }) && self.sensors@[q].wf(),
                self.curves@.len() == old(self).curves@.len(),
                self.curve_values@.len() == old(self).curve_values@.len(),
                self.curve_values@.len() == self.curves@.len(),
                k <= self.curves@.len(),
                forall|q: int|
                    k <= q < self.curves@.len() ==> #[trigger] self.curves@[q] == old(
                        self,
                    ).curves@[q],
                forall|q: int|
                    0 <= q < k ==> #[trigger] self.curves@[q] == old(self).tick_node(temps@, q),
                forall|q: int|
                    0 <= q < k ==> node_wf(
                        #[trigger] self.curves@[q],
                        q,
                        self.sensors@.len() as int,
                    ),
                forall|q: int|
                    k <= q < self.curve_values@.len() ==> #[trigger] self.curve_values@[q] == old(
                        self,
                    ).curve_values@[q],
                forall|q: int|
                    0 <= q < k ==> {
                        let v = #[trigger] self.curve_values@[q];
                        &&& v.kind_spec() == SensorType::PERCENTAGE
                        &&& v.factor_spec() == 1000
                        &&& v.raw_spec() == old(self).tick_raw(temps@, q)
                        &&& v.wf()
                    },
            decreases self.curves@.len() - k,
        {
            let ghost pre = self.curves@;
            let mut node = self.curves.remove(k);
            proof {
                assert(node == old(self).curves@[k as int]);
                assert(node_wf(node, k as int, self.sensors@.len() as int));
            }
            let newval: SensorValue;
            match &mut node.kind {
                CurveKind::Linear(lc) => {
                    let input = self.node_value(lc.sensor);
                    proof {
                        self.lemma_input_milli(*old(self), temps@, k as int, lc.sensor, input);
                    }
                    newval = lc.get_value(&input);
                },
                CurveKind::Static(sc) => {
                    newval = sc.get_value();
                },
                CurveKind::Maximum(mc) => {
                    let vals = self.gather_values(&mc.sensors);
                    proof {
                        self.lemma_gathered_milli(
                            *old(self),
                            temps@,
                            k as int,
                            mc.sensors@,
                            vals@,
                        );
                        old(self).lemma_refs_milli_index(temps@, k as int, mc.sensors@);
                        crate::curve::lemma_max_milli_ints(
                            vals@,
                            old(self).refs_milli(temps@, k as int, mc.sensors@),
                        );
                    }
                    newval = mc.get_value(&vals);
                },
                CurveKind::Average(ac) => {
                    let vals = self.gather_values(&ac.sensors);
                    proof {
                        self.lemma_gathered_milli(
                            *old(self),
                            temps@,
                            k as int,
                            ac.sensors@,
                            vals@,
                        );
                        old(self).lemma_refs_milli_index(temps@, k as int, ac.sensors@);
                        crate::curve::lemma_sum_units_ints(
                            vals@,
                            old(self).refs_milli(temps@, k as int, ac.sensors@),
                        );
                    }
                    newval = ac.get_value(&vals);
                },
                CurveKind::Pid(pc) => {
                    let input = self.node_value(pc.sensor);
                    proof {
                        self.lemma_input_milli(*old(self), temps@, k as int, pc.sensor, input);
                    }
                    pc.update_value(&input);
                    newval = pc.get_value();
                },
            }
            self.curves.insert(k, node);
            self.curve_values.set(k, newval);
            proof {
                assert forall|q: int|
                    0 <= q < pre.len() && q != k implies #[trigger] self.curves@[q] == pre[q] by {
                    if q < k {
                        assert(pre.remove(k as int)[q] == pre[q]);
                        assert(self.curves@[q] == pre.remove(k as int)[q]);
                    } else {
                        assert(pre.remove(k as int)[q - 1] == pre[q]);
                        assert(self.curves@[q] == pre.remove(k as int)[q - 1]);
                    }
                };
                assert(self.curves@[k as int] == node);
            }
            k = k + 1;
        }

        let mut f: usize = 0;
        while f < self.fans.len()
            invariant
                old(self).wf(),
                temps@.len() == old(self).sensors@.len(),
                self.config == old(self).config,
                self.sensors@.len() == old(self).sensors@.len(),
                forall|q: int|
                    0 <= q < self.sensors@.len() ==> (#[trigger] self.sensors@[q]).id == old(
                        self,
                    ).sensors@[q].id && self.sensors@[q].last_val == (match temps@[q] {
                        Some(v) => v,
                        None => old(self).sensors@[q].last_val,
                    }) && self.sensors@[q].wf(),
                self.curves@.len() == old(self).curves@.len(),
                forall|q: int|
                    0 <= q < self.curves@.len() ==> #[trigger] self.curves@[q] == old(
                        self,
                    ).tick_node(temps@, q),
                forall|q: int|
                    0 <= q < self.curves@.len() ==> node_wf(
                        #[trigger] self.curves@[q],
                        q,
                        self.sensors@.len() as int,
                    ),
                self.curve_values@.len() == self.curves@.len(),
                forall|q: int|
                    0 <= q < self.curve_values@.len() ==> {
                        let v = #[trigger] self.curve_values@[q];
                        &&& v.kind_spec() == SensorType::PERCENTAGE
                        &&& v.factor_spec() == 1000
                        &&& v.raw_spec() == old(self).tick_raw(temps@, q)
                        &&& v.wf()
                    },
                self.fans@.len() == old(self).fans@.len(),
                f <= self.fans@.len(),
                forall|q: int|
                    f <= q < self.fans@.len() ==> #[trigger] self.fans@[q] == old(self).fans@[q],
                forall|q: int|
                    0 <= q < f ==> {
                        let fan0 = old(self).fans@[q];
                        let fan1 = #[trigger] self.fans@[q];
                        let p = crate::fan::demand_percent(
                            self.curve_values@[fan0.curve as int],
                        );
                        let fz = crate::fan::fan_floor_spec(
                            fan0.min_pwm,
                            fan0.start_pwm,
                            fan0.start_percent as int,
                            fan1.last_val as int,
                            p,
                            fan0.zero_percent_time,
                            now_ms,
                        );
                        &&& fan1.last_pwm as int == crate::fan::fan_pwm_spec(p, fz.0)
                        &&& fan1.zero_percent_time == fz.1
                        &&& fan1.id == fan0.id
                        &&& fan1.curve == fan0.curve
                        &&& fan1.min_pwm == fan0.min_pwm
                        &&& fan1.start_pwm == fan0.start_pwm
                        &&& fan1.start_percent == fan0.start_percent
                        &&& fan1.fan_input == fan0.fan_input
                    },
            decreases self.fans@.len() - f,
        {
            let ghost pre = self.fans@;
            let fan_curve = self.fans[f].curve;
            let demand = self.curve_values[fan_curve];
            let mut fan = self.fans.remove(f);
            fan.update_output(&demand, now_ms);
            self.fans.insert(f, fan);
            proof {
                assert forall|q: int|
                    0 <= q < pre.len() && q != f implies #[trigger] self.fans@[q] == pre[q] by {
                    if q < f {
                        assert(pre.remove(f as int)[q] == pre[q]);
                        assert(self.fans@[q] == pre.remove(f as int)[q]);
                    } else {
                        assert(pre.remove(f as int)[q - 1] == pre[q]);
                        assert(self.fans@[q] == pre.remove(f as int)[q - 1]);
                    }
                };
            }
            f = f + 1;
        }
    }

    /// The value fetched for one input reference carries exactly the
    /// scaled contribution `ref_milli` describes.
    proof fn lemma_input_milli(
        self,
        orig: FanHub<I, O>,
        temps: Seq<Option<i64>>,
        k: int,
        r: NodeRef,
        v: SensorValue,
    )
        requires
            0 <= k < orig.curves@.len(),
            orig.wf(),
            temps.len() == orig.sensors@.len(),
            self.sensors@.len() == orig.sensors@.len(),
            self.curve_values@.len() == orig.curves@.len(),
            forall|q: int|
                0 <= q < self.sensors@.len() ==> (#[trigger] self.sensors@[q]).last_val == (
                match temps[q] {
                    Some(vv) => vv,
                    None => orig.sensors@[q].last_val,
                }),
            forall|q: int|
                0 <= q < k ==> {
                    let cv = #[trigger] self.curve_values@[q];
                    &&& cv.factor_spec() == 1000
                    &&& cv.raw_spec() == orig.tick_raw(temps, q)
                },
            ref_ok(r, k, self.sensors@.len() as int),
            match r {
                NodeRef::Source(i) => v.factor_spec() == 1 && v.raw_spec() == clamp_to(
                    self.sensors@[i as int].last_val as int,
                    4_000_000_000_000_000_000,
                ),
                NodeRef::Curve(j) => v == self.curve_values@[j as int],
            },
        ensures
            v.scaled_milli() == orig.ref_milli(temps, k, r),
    {
        match r {
            NodeRef::Source(i) => {
                assert(v.scaled_milli() == v.raw_spec() * 1);
            },
            NodeRef::Curve(j) => {
                assert(v.scaled_milli() == v.raw_spec() * v.factor_spec());
            },
        }
    }

    /// The values gathered for an aggregate's inputs carry exactly the
    /// scaled contributions `refs_milli` describes, pointwise.
    proof fn lemma_gathered_milli(
        self,
        orig: FanHub<I, O>,
        temps: Seq<Option<i64>>,
        k: int,
        refs: Seq<NodeRef>,
        vals: Seq<SensorValue>,
    )
        requires
            0 <= k < orig.curves@.len(),
            orig.wf(),
            temps.len() == orig.sensors@.len(),
            self.sensors@.len() == orig.sensors@.len(),
            self.curve_values@.len() == orig.curves@.len(),
            forall|q: int|
                0 <= q < self.sensors@.len() ==> (#[trigger] self.sensors@[q]).last_val == (
                match temps[q] {
                    Some(vv) => vv,
                    None => orig.sensors@[q].last_val,
                }),
            forall|q: int|
                0 <= q < k ==> {
                    let cv = #[trigger] self.curve_values@[q];
                    &&& cv.factor_spec() == 1000
                    &&& cv.raw_spec() == orig.tick_raw(temps, q)
                },
            forall|i: int| 0 <= i < refs.len() ==> ref_ok(#[trigger] refs[i], k, self.sensors@.len() as int),
            vals.len() == refs.len(),
            forall|i: int|
                0 <= i < refs.len() ==> match #[trigger] refs[i] {
                    NodeRef::Source(si) => {
                        let v = vals[i];
                        v.factor_spec() == 1 && v.raw_spec() == clamp_to(
                            self.sensors@[si as int].last_val as int,
                            4_000_000_000_000_000_000,
                        )
                    },
                    NodeRef::Curve(j) => vals[i] == self.curve_values@[j as int],
                },
        ensures
            forall|i: int|
                0 <= i < vals.len() ==> (#[trigger] vals[i]).scaled_milli() == orig.ref_milli(
                    temps,
                    k,
                    refs[i],
                ),
    {
        assert forall|i: int|
            0 <= i < vals.len() implies (#[trigger] vals[i]).scaled_milli() == orig.ref_milli(
            temps,
            k,
            refs[i],
        ) by {
            self.lemma_input_milli(orig, temps, k, refs[i], vals[i]);
        };
    }
}

} // verus!
