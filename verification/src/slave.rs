//! The slave (controlled station) side: stations and their data points,
//! the station table of a server, and the replies a server gives to what a
//! master sends.
use crate::bytes;
use crate::clock;
use crate::data_point;
use crate::data_point::{DataPoint, DataPointMap, DataPointValue, InformationObjectDef};
use crate::frame;
use crate::frame::UFrameKind;
use crate::types;
use crate::types::{AsduTypeId, DataCategory};
use std::collections::HashMap;
use vstd::prelude::*;

verus! {

/// TLS configuration for a slave server.
#[derive(Debug, Clone)]
pub struct SlaveTlsConfig {
    /// Enable TLS
    pub enabled: bool,
    /// Path to server certificate file (PEM format)
    pub cert_file: String,
    /// Path to server private key file (PEM format)
    pub key_file: String,
    /// Path to CA certificate file (PEM) for client certificate verification (mTLS)
    pub ca_file: String,
    /// Require client certificate (mutual TLS)
    pub require_client_cert: bool,
}

impl Default for SlaveTlsConfig {
    fn default() -> (r: Self)
        ensures
            !r.enabled,
            r.cert_file@.len() == 0,
            r.key_file@.len() == 0,
            r.ca_file@.len() == 0,
            !r.require_client_cert,
    {
        SlaveTlsConfig {
            enabled: false,
            cert_file: String::new(),
            key_file: String::new(),
            ca_file: String::new(),
            require_client_cert: false,
        }
    }
}

/// Errors of station and server management.
#[derive(Debug)]
pub enum SlaveError {
    /// IOA already exists
    DuplicateIoa(u32),
    /// IOA not found
    IoaNotFound(u32),
    /// station CA already exists
    DuplicateStation(u16),
    /// station CA not found
    StationNotFound(u16),
    /// server is already running
    AlreadyRunning,
    /// server is not running
    NotRunning,
    /// bind error
    BindError(String),
    /// TLS error
    TlsError(String),
}

/// A station within the slave server (analogous to SlaveDevice).
#[derive(Debug, Clone)]
pub struct Station {
    /// Common Address (1..65534)
    pub common_address: u16,
    /// User-defined name
    pub name: String,
    /// Data points (keyed by IOA)
    pub data_points: DataPointMap,
    /// Information object definitions (metadata for UI)
    pub object_defs: Vec<InformationObjectDef>,
}

/// The monitored type of the `c`-th block of default points.
pub open spec fn default_block_type(c: int) -> AsduTypeId {
    if c == 0 {
        AsduTypeId::MSpNa1
    } else if c == 1 {
        AsduTypeId::MDpNa1
    } else if c == 2 {
        AsduTypeId::MMeNa1
    } else if c == 3 {
        AsduTypeId::MMeNb1
    } else if c == 4 {
        AsduTypeId::MMeNc1
    } else {
        AsduTypeId::MItNa1
    }
}

/// The category of the `c`-th block of default points.
pub open spec fn default_block_category(c: int) -> DataCategory {
    if c == 0 {
        DataCategory::SinglePoint
    } else if c == 1 {
        DataCategory::DoublePoint
    } else if c == 2 {
        DataCategory::NormalizedMeasured
    } else if c == 3 {
        DataCategory::ScaledMeasured
    } else if c == 4 {
        DataCategory::FloatMeasured
    } else {
        DataCategory::IntegratedTotals
    }
}

/// The default points of a station with `count` points per category: IOAs
/// `1..=6*count`, the first `count` single points, then double points,
/// normalized, scaled, float and integrated totals.
pub open spec fn default_points(count: nat) -> Map<u32, DataPoint> {
    Map::new(
        |k: u32| 1 <= k <= 6 * count,
        |k: u32| data_point::new_point(k, default_block_type((k - 1) / (count as int))),
    )
}

/// Whether `d` is the default definition of the `j`-th default point.
pub open spec fn is_default_def(d: InformationObjectDef, j: int, count: nat) -> bool {
    &&& d.ioa == j + 1
    &&& d.asdu_type == default_block_type(j / (count as int))
    &&& d.category == default_block_category(j / (count as int))
    &&& d.name@.len() == 0
    &&& d.comment@.len() == 0
}

/// Whether every definition names a point that exists.
pub open spec fn defs_match_points(defs: Seq<InformationObjectDef>, points: Map<u32, DataPoint>) -> bool {
    forall|i: int| 0 <= i < defs.len() ==> points.contains_key(#[trigger] defs[i].ioa)
}

/// No two definitions share an address.
pub open spec fn distinct_def_ioas(defs: Seq<InformationObjectDef>) -> bool {
    forall|i: int, j: int|
        #![trigger defs[i], defs[j]]
        0 <= i < defs.len() && 0 <= j < defs.len() && i != j ==> defs[i].ioa != defs[j].ioa
}

/// Every point has a definition.
pub open spec fn points_have_defs(defs: Seq<InformationObjectDef>, points: Map<u32, DataPoint>) -> bool {
    forall|k: u32|
        #[trigger] points.contains_key(k) ==> exists|i: int| 0 <= i < defs.len() && #[trigger] defs[i].ioa == k
}

/// Definitions and points correspond one to one: no two definitions share
/// an address, every definition names a point and every point is defined.
pub open spec fn defs_one_to_one(defs: Seq<InformationObjectDef>, points: Map<u32, DataPoint>) -> bool {
    &&& distinct_def_ioas(defs)
    &&& defs_match_points(defs, points)
    &&& points_have_defs(defs, points)
}

/// Definitions with address `ioa` left out.
pub open spec fn defs_without(defs: Seq<InformationObjectDef>, ioa: u32) -> Seq<InformationObjectDef> {
    defs.filter(other_ioa(ioa))
}

/// The test that keeps a definition: its address is not `ioa`.
pub open spec fn other_ioa(ioa: u32) -> spec_fn(InformationObjectDef) -> bool {
    |d: InformationObjectDef| d.ioa != ioa
}

impl Station {
    /// Well-formed: the definitions and the points correspond one to one.
    pub open spec fn wf(&self) -> bool {
        defs_one_to_one(self.object_defs@, self.data_points@)
    }

    /// An empty station.
    pub fn new(common_address: u16, name: &str) -> (r: Station)
        ensures
            r.common_address == common_address,
            r.name@ == name@,
            r.data_points@ == Map::<u32, DataPoint>::empty(),
            r.object_defs@ == Seq::<InformationObjectDef>::empty(),
            r.wf(),
    {
        Station {
            common_address,
            name: name.to_string(),
            data_points: DataPointMap::new(),
            object_defs: Vec::new(),
        }
    }

    /// Create a station with default data points pre-filled: `count_per_category`
    /// points of each monitored category, numbered from IOA 1.
    pub fn with_default_points(common_address: u16, name: &str, count_per_category: u32) -> (r:
        Station)
        requires
            6 * count_per_category < u32::MAX,
        ensures
            r.common_address == common_address,
            r.name@ == name@,
            r.data_points@ == default_points(count_per_category as nat),
            r.object_defs@.len() == 6 * count_per_category,
            forall|j: int|
                0 <= j < 6 * count_per_category ==> is_default_def(
                    #[trigger] r.object_defs@[j],
                    j,
                    count_per_category as nat,
                ),
            r.wf(),
    {
        let mut station = Station::new(common_address, name);
        let count = count_per_category;
        let ghost cnt = count as int;
        let mut ioa: u32 = 1;
        let mut c: usize = 0;
        while c < 6
            invariant
                c <= 6,
                6 * count < u32::MAX,
                count == cnt,
                ioa == c * cnt + 1,
                station.common_address == common_address,
                station.name@ == name@,
                station.object_defs@.len() == ioa - 1,
                forall|j: int|
                    0 <= j < ioa - 1 ==> is_default_def(
                        #[trigger] station.object_defs@[j],
                        j,
                        cnt as nat,
                    ),
                station.data_points@ == Map::new(
                    |k: u32| 1 <= k < ioa,
                    |k: u32| data_point::new_point(k, default_block_type((k - 1) / cnt)),
                ),
            decreases 6 - c,
        {
            let (asdu_type, category) = default_block(c);
            let mut k: u32 = 0;
            while k < count
                invariant
                    c < 6,
                    k <= count,
                    6 * count < u32::MAX,
                    count == cnt,
                    asdu_type == default_block_type(c as int),
                    category == default_block_category(c as int),
                    ioa == c * cnt + k + 1,
                    station.common_address == common_address,
                    station.name@ == name@,
                    station.object_defs@.len() == ioa - 1,
                    forall|j: int|
                        0 <= j < ioa - 1 ==> is_default_def(
                            #[trigger] station.object_defs@[j],
                            j,
                            cnt as nat,
                        ),
                    station.data_points@ == Map::new(
                        |q: u32| 1 <= q < ioa,
                        |q: u32| data_point::new_point(q, default_block_type((q - 1) / cnt)),
                    ),
                decreases count - k,
            {
                assert(c * cnt + k < 6 * cnt) by (nonlinear_arith)
                    requires
                        c < 6,
                        k < cnt,
                ;
                proof {
                    vstd::arithmetic::div_mod::lemma_fundamental_div_mod_converse(
                        (ioa - 1) as int,
                        cnt,
                        c as int,
                        k as int,
                    );
                }
                let def = InformationObjectDef {
                    ioa,
                    asdu_type,
                    category,
                    name: String::new(),
                    comment: String::new(),
                };
                let point = DataPoint::new(ioa, asdu_type);
                let ghost prev_map = station.data_points@;
                let ghost prev_defs = station.object_defs@;
                station.data_points.insert(point);
                station.object_defs.push(def);
                proof {
                    assert(station.data_points@ =~= Map::new(
                        |q: u32| 1 <= q < ioa + 1,
                        |q: u32| data_point::new_point(q, default_block_type((q - 1) / cnt)),
                    ));
                    assert forall|j: int| 0 <= j < ioa implies is_default_def(
                        #[trigger] station.object_defs@[j],
                        j,
                        cnt as nat,
                    ) by {
                        if j < ioa - 1 {
                            assert(station.object_defs@[j] == prev_defs[j]);
                        }
                    }
                }
                ioa = ioa + 1;
                k = k + 1;
            }
            assert((c + 1) * cnt + 1 == c * cnt + cnt + 1) by (nonlinear_arith);
            c = c + 1;
        }
        proof {
            assert(station.data_points@ =~= default_points(count_per_category as nat));
            assert forall|i: int| 0 <= i < station.object_defs@.len() implies station.data_points@.contains_key(
                #[trigger] station.object_defs@[i].ioa,
            ) by {
                assert(is_default_def(station.object_defs@[i], i, cnt as nat));
            }
            let defs = station.object_defs@;
            assert forall|i: int, j: int|
                #![trigger defs[i], defs[j]]
                0 <= i < defs.len() && 0 <= j < defs.len() && i != j implies defs[i].ioa
                != defs[j].ioa by {
                assert(is_default_def(defs[i], i, cnt as nat));
                assert(is_default_def(defs[j], j, cnt as nat));
            }
            assert forall|k: u32| #[trigger] station.data_points@.contains_key(k) implies exists|i: int|
                0 <= i < defs.len() && #[trigger] defs[i].ioa == k by {
                assert(is_default_def(defs[k - 1], k - 1, cnt as nat));
            }
        }
        station
    }

    /// Add a data point definition and its runtime data.
    pub fn add_point(&mut self, def: InformationObjectDef) -> (r: Result<(), SlaveError>)
        ensures
            old(self).data_points@.contains_key(def.ioa) ==> (r matches Err(
                SlaveError::DuplicateIoa(x),
            ) && x == def.ioa) && *final(self) == *old(self),
            !old(self).data_points@.contains_key(def.ioa) ==> {
                &&& r is Ok
                &&& final(self).data_points@ == old(self).data_points@.insert(
                    def.ioa,
                    data_point::new_point(def.ioa, def.asdu_type),
                )
                &&& final(self).object_defs@ == old(self).object_defs@.push(def)
                &&& final(self).common_address == old(self).common_address
                &&& final(self).name == old(self).name
            },
            old(self).wf() ==> final(self).wf(),
    {
        proof {
            if self.wf() {
                lemma_add_keeps_one_to_one(self.data_points@, self.object_defs@, def);
            }
        }
        if self.data_points.contains(def.ioa) {
            return Err(SlaveError::DuplicateIoa(def.ioa));
        }
        let point = DataPoint::new(def.ioa, def.asdu_type);
        self.data_points.insert(point);
        self.object_defs.push(def);
        Ok(())
    }

    /// Remove a data point by IOA.
    pub fn remove_point(&mut self, ioa: u32) -> (r: Result<(), SlaveError>)
        ensures
            !old(self).data_points@.contains_key(ioa) ==> (r matches Err(SlaveError::IoaNotFound(x))
                && x == ioa) && *final(self) == *old(self),
            old(self).data_points@.contains_key(ioa) ==> {
                &&& r is Ok
                &&& final(self).data_points@ == old(self).data_points@.remove(ioa)
                &&& final(self).object_defs@ == defs_without(old(self).object_defs@, ioa)
                &&& final(self).common_address == old(self).common_address
                &&& final(self).name == old(self).name
            },
            old(self).wf() ==> final(self).wf(),
    {
        proof {
            if self.wf() {
                lemma_remove_keeps_one_to_one(self.data_points@, self.object_defs@, ioa);
            }
        }
        if !self.data_points.contains(ioa) {
            return Err(SlaveError::IoaNotFound(ioa));
        }
        self.data_points.remove(ioa);
        let mut defs: Vec<InformationObjectDef> = Vec::new();
        std::mem::swap(&mut defs, &mut self.object_defs);
        self.object_defs = retain_other_ioas(defs, ioa);
        Ok(())
    }
}

/// Adding a point and removing it again leaves a well-formed station's
/// points and definitions as they were.
pub proof fn lemma_add_then_remove_point(
    points: Map<u32, DataPoint>,
    defs: Seq<InformationObjectDef>,
    def: InformationObjectDef,
)
    requires
        defs_match_points(defs, points),
        !points.contains_key(def.ioa),
    ensures
        points.insert(def.ioa, data_point::new_point(def.ioa, def.asdu_type)).remove(def.ioa)
            == points,
        defs_without(defs.push(def), def.ioa) == defs,
{
    assert(points.insert(def.ioa, data_point::new_point(def.ioa, def.asdu_type)).remove(def.ioa)
        =~= points);
    defs.lemma_filter_push(def, other_ioa(def.ioa));
    lemma_filter_keeps_all(defs, def.ioa, points);
}

proof fn lemma_filter_keeps_all(defs: Seq<InformationObjectDef>, ioa: u32, points: Map<u32, DataPoint>)
    requires
        defs_match_points(defs, points),
        !points.contains_key(ioa),
    ensures
        defs_without(defs, ioa) == defs,
    decreases defs.len(),
{
    if defs.len() == 0 {
        reveal(Seq::filter);
        assert(defs_without(defs, ioa) =~= defs);
    } else {
        let init = defs.drop_last();
        assert(defs_match_points(init, points)) by {
            assert forall|i: int| 0 <= i < init.len() implies points.contains_key(#[trigger] init[i].ioa) by {
                assert(init[i] == defs[i]);
            }
        }
        lemma_filter_keeps_all(init, ioa, points);
        assert(defs =~= init.push(defs.last()));
        assert(points.contains_key(defs[defs.len() - 1].ioa));
        init.lemma_filter_push(defs.last(), other_ioa(ioa));
    }
}

/// Adding a point at a new address and removing a point keep the
/// definitions and points of a station in one-to-one correspondence.
pub proof fn lemma_point_changes_keep_wf(
    points: Map<u32, DataPoint>,
    defs: Seq<InformationObjectDef>,
    def: InformationObjectDef,
    ioa: u32,
)
    requires
        defs_one_to_one(defs, points),
    ensures
        !points.contains_key(def.ioa) ==> defs_one_to_one(
            defs.push(def),
            points.insert(def.ioa, data_point::new_point(def.ioa, def.asdu_type)),
        ),
        defs_one_to_one(defs_without(defs, ioa), points.remove(ioa)),
{
    if !points.contains_key(def.ioa) {
        lemma_add_keeps_one_to_one(points, defs, def);
    }
    lemma_remove_keeps_one_to_one(points, defs, ioa);
}

proof fn lemma_add_keeps_one_to_one(
    points: Map<u32, DataPoint>,
    defs: Seq<InformationObjectDef>,
    def: InformationObjectDef,
)
    requires
        defs_one_to_one(defs, points),
    ensures
        !points.contains_key(def.ioa) ==> defs_one_to_one(
            defs.push(def),
            points.insert(def.ioa, data_point::new_point(def.ioa, def.asdu_type)),
        ),
{
    let p2 = points.insert(def.ioa, data_point::new_point(def.ioa, def.asdu_type));
    let d2 = defs.push(def);
    if !points.contains_key(def.ioa) {
        assert forall|i: int| 0 <= i < d2.len() implies p2.contains_key(#[trigger] d2[i].ioa) by {
            if i < defs.len() {
                assert(d2[i] == defs[i]);
            }
        }
        assert forall|i: int, j: int|
            #![trigger d2[i], d2[j]]
            0 <= i < d2.len() && 0 <= j < d2.len() && i != j implies d2[i].ioa != d2[j].ioa by {
            if i < defs.len() {
                assert(d2[i] == defs[i]);
                assert(points.contains_key(defs[i].ioa));
            }
            if j < defs.len() {
                assert(d2[j] == defs[j]);
                assert(points.contains_key(defs[j].ioa));
            }
        }
        assert forall|k: u32| #[trigger] p2.contains_key(k) implies exists|i: int|
            0 <= i < d2.len() && #[trigger] d2[i].ioa == k by {
            if k == def.ioa {
                assert(d2[defs.len() as int].ioa == k);
            } else {
                let i = choose|i: int| 0 <= i < defs.len() && #[trigger] defs[i].ioa == k;
                assert(d2[i] == defs[i]);
            }
        }
    }
}

proof fn lemma_remove_keeps_one_to_one(points: Map<u32, DataPoint>, defs: Seq<InformationObjectDef>, ioa: u32)
    requires
        defs_one_to_one(defs, points),
    ensures
        defs_one_to_one(defs_without(defs, ioa), points.remove(ioa)),
{
    let f = defs_without(defs, ioa);
    let p3 = points.remove(ioa);
    assert forall|i: int| 0 <= i < f.len() implies p3.contains_key(#[trigger] f[i].ioa) by {
        defs.lemma_filter_pred(other_ioa(ioa), i);
        assert(f.contains(f[i]));
        defs.lemma_filter_contains_rev(other_ioa(ioa), f[i]);
        let j = choose|j: int| 0 <= j < defs.len() && defs[j] == f[i];
        assert(points.contains_key(defs[j].ioa));
    }
    lemma_filter_distinct(defs, ioa);
    assert forall|k: u32| #[trigger] p3.contains_key(k) implies exists|i: int|
        0 <= i < f.len() && #[trigger] f[i].ioa == k by {
        let i = choose|i: int| 0 <= i < defs.len() && #[trigger] defs[i].ioa == k;
        defs.lemma_filter_contains(other_ioa(ioa), i);
        let j = choose|j: int| 0 <= j < f.len() && f[j] == defs[i];
        assert(f[j].ioa == k);
    }
}

proof fn lemma_filter_distinct(defs: Seq<InformationObjectDef>, ioa: u32)
    requires
        distinct_def_ioas(defs),
    ensures
        distinct_def_ioas(defs_without(defs, ioa)),
    decreases defs.len(),
{
    if defs.len() == 0 {
        reveal(Seq::filter);
        assert(defs_without(defs, ioa) =~= defs);
    } else {
        let init = defs.drop_last();
        let last = defs.last();
        assert(defs =~= init.push(last));
        assert forall|i: int, j: int|
            #![trigger init[i], init[j]]
            0 <= i < init.len() && 0 <= j < init.len() && i != j implies init[i].ioa != init[j].ioa by {
            assert(init[i] == defs[i]);
            assert(init[j] == defs[j]);
        }
        lemma_filter_distinct(init, ioa);
        init.lemma_filter_push(last, other_ioa(ioa));
        let fi = defs_without(init, ioa);
        if last.ioa != ioa {
            let g = fi.push(last);
            assert forall|i: int| 0 <= i < fi.len() implies #[trigger] fi[i].ioa != last.ioa by {
                assert(fi.contains(fi[i]));
                init.lemma_filter_contains_rev(other_ioa(ioa), fi[i]);
                let j = choose|j: int| 0 <= j < init.len() && init[j] == fi[i];
                assert(init[j] == defs[j]);
                assert(defs[defs.len() - 1] == last);
            }
            assert forall|i: int, j: int|
                #![trigger g[i], g[j]]
                0 <= i < g.len() && 0 <= j < g.len() && i != j implies g[i].ioa != g[j].ioa by {
                if i < fi.len() {
                    assert(g[i] == fi[i]);
                }
                if j < fi.len() {
                    assert(g[j] == fi[j]);
                }
            }
        }
    }
}

/// The definitions whose address is not `ioa`, in their order.
fn retain_other_ioas(defs: Vec<InformationObjectDef>, ioa: u32) -> (r: Vec<InformationObjectDef>)
    ensures
        r@ == defs_without(defs@, ioa),
{
    let ghost orig = defs@;
    let mut rest = defs;
    let mut reversed: Vec<InformationObjectDef> = Vec::new();
    // move every definition over, last first
    while rest.len() > 0
        invariant
            rest@ + reversed@.reverse() == orig,
        decreases rest@.len(),
    {
        let ghost before_rest = rest@;
        let ghost before_rev = reversed@;
        let d = rest.pop().unwrap();
        reversed.push(d);
        proof {
            assert(reversed@.reverse() =~= seq![d] + before_rev.reverse());
            assert(before_rest =~= rest@.push(d));
            assert(rest@ + reversed@.reverse() =~= before_rest + before_rev.reverse());
        }
    }
    assert(reversed@.reverse() =~= orig);
    let mut out: Vec<InformationObjectDef> = Vec::new();
    let ghost taken: Seq<InformationObjectDef> = Seq::empty();
    // move them back, first first, keeping the others
    while reversed.len() > 0
        invariant
            taken + reversed@.reverse() == orig,
            out@ == defs_without(taken, ioa),
        decreases reversed@.len(),
    {
        let ghost before_rev = reversed@;
        let d = reversed.pop().unwrap();
        proof {
            assert(before_rev.reverse() =~= seq![d] + reversed@.reverse());
            assert(taken.push(d) + reversed@.reverse() =~= orig);
            taken.lemma_filter_push(d, other_ioa(ioa));
            taken = taken.push(d);
        }
        if d.ioa != ioa {
            out.push(d);
        }
    }
    assert(taken =~= orig);
    out
}

/// Values drawn at random for one point, one of each kind; the point's
/// category picks the one it takes.
#[derive(Debug, Clone, Copy)]
pub struct PointDraw {
    pub single: bool,
    pub double: u8,
    /// normalized value as its raw 16-bit representation
    pub normalized_raw: i16,
    pub scaled: i16,
    /// short float as IEEE-754 bits
    pub float_bits: u32,
    pub total: i32,
}

/// The value a point of type `t` takes from draw `d`: the drawn value of its
/// category (an integrated total without carry, sequence 0), or its default
/// value for a command or system type.
pub open spec fn draw_value(t: AsduTypeId, d: PointDraw) -> DataPointValue {
    match types::asdu_category(t) {
        DataCategory::SinglePoint => DataPointValue::SinglePoint { value: d.single },
        DataCategory::DoublePoint => DataPointValue::DoublePoint { value: d.double },
        DataCategory::NormalizedMeasured => DataPointValue::Normalized { raw: d.normalized_raw },
        DataCategory::ScaledMeasured => DataPointValue::Scaled { value: d.scaled },
        DataCategory::FloatMeasured => DataPointValue::ShortFloat { bits: d.float_bits },
        DataCategory::IntegratedTotals => DataPointValue::IntegratedTotal {
            value: d.total,
            carry: false,
            sequence: 0,
        },
        _ => data_point::default_value(t),
    }
}

/// The value a point of type `t` takes from draw `d`.
pub fn drawn_value(t: AsduTypeId, d: &PointDraw) -> (r: DataPointValue)
    ensures
        r == draw_value(t, *d),
{
    match t.category() {
        DataCategory::SinglePoint => DataPointValue::SinglePoint { value: d.single },
        DataCategory::DoublePoint => DataPointValue::DoublePoint { value: d.double },
        DataCategory::NormalizedMeasured => DataPointValue::Normalized { raw: d.normalized_raw },
        DataCategory::ScaledMeasured => DataPointValue::Scaled { value: d.scaled },
        DataCategory::FloatMeasured => DataPointValue::ShortFloat { bits: d.float_bits },
        DataCategory::IntegratedTotals => DataPointValue::IntegratedTotal {
            value: d.total,
            carry: false,
            sequence: 0,
        },
        _ => DataPointValue::default_for(t),
    }
}

impl Station {
    /// Gives every defined point the value its draw picks: `draws[i]` is for
    /// the point of definition `i`. Nothing else changes.
    pub fn apply_draws(&mut self, draws: &Vec<PointDraw>)
        requires
            old(self).wf(),
            draws.len() == old(self).object_defs.len(),
        ensures
            final(self).common_address == old(self).common_address,
            final(self).name == old(self).name,
            final(self).object_defs@ == old(self).object_defs@,
            final(self).data_points@.dom() == old(self).data_points@.dom(),
            forall|i: int|
                0 <= i < draws.len() ==> {
                    let k = #[trigger] old(self).object_defs@[i].ioa;
                    let p = old(self).data_points@[k];
                    final(self).data_points@[k] == DataPoint { value: draw_value(p.asdu_type, draws@[i]), ..p }
                },
            final(self).wf(),
    {
        let ghost defs = self.object_defs@;
        let ghost before = self.data_points@;
        let mut i: usize = 0;
        while i < self.object_defs.len()
            invariant
                defs == self.object_defs@,
                self.common_address == old(self).common_address,
                self.name == old(self).name,
                draws.len() == defs.len(),
                i <= defs.len(),
                defs_one_to_one(defs, before),
                self.data_points@.dom() == before.dom(),
                forall|j: int|
                    0 <= j < i ==> {
                        let k = #[trigger] defs[j].ioa;
                        self.data_points@[k] == DataPoint {
                            value: draw_value(before[k].asdu_type, draws@[j]),
                            ..before[k]
                        }
                    },
                forall|j: int| i <= j < defs.len() ==> self.data_points@[#[trigger] defs[j].ioa] == before[defs[j].ioa],
            decreases defs.len() - i,
        {
            let ioa = self.object_defs[i].ioa;
            assert(before.contains_key(defs[i as int].ioa));
            match self.data_points.get(ioa) {
                Some(p) => {
                    let v = drawn_value(p.asdu_type, &draws[i]);
                    let ghost prev = self.data_points@;
                    self.data_points.insert(DataPoint { value: v, ..p });
                    proof {
                        assert forall|j: int| 0 <= j < defs.len() && j != i implies #[trigger] defs[j].ioa != ioa by {
                            assert(defs[j].ioa != defs[i as int].ioa);
                        }
                        assert(self.data_points@.dom() =~= before.dom());
                    }
                },
                None => {},
            }
            i = i + 1;
        }
        proof {
            assert(self.data_points@.dom() =~= before.dom());
        }
    }
}

fn default_block(c: usize) -> (r: (AsduTypeId, DataCategory))
    requires
        c < 6,
    ensures
        r.0 == default_block_type(c as int),
        r.1 == default_block_category(c as int),
{
    match c {
        0 => (AsduTypeId::MSpNa1, DataCategory::SinglePoint),
        1 => (AsduTypeId::MDpNa1, DataCategory::DoublePoint),
        2 => (AsduTypeId::MMeNa1, DataCategory::NormalizedMeasured),
        3 => (AsduTypeId::MMeNb1, DataCategory::ScaledMeasured),
        4 => (AsduTypeId::MMeNc1, DataCategory::FloatMeasured),
        _ => (AsduTypeId::MItNa1, DataCategory::IntegratedTotals),
    }
}

/// A minimal I-frame APDU: APCI with zero sequence numbers, one information
/// object, originator address 0.
pub open spec fn i_frame(asdu_type: u8, cause: u8, ca: Seq<u8>, ioa: Seq<u8>, value: Seq<u8>) -> Seq<
    u8,
> {
    seq![0x68, ((10 + ioa.len() + value.len()) % 256) as u8, 0, 0, 0, 0, asdu_type, 1, cause, 0]
        + ca.subrange(0, 2) + ioa + value
}

/// Build a minimal I-frame APDU.
pub fn build_i_frame(asdu_type: u8, cause: u8, ca: &[u8], ioa: &[u8], value_bytes: &[u8]) -> (r:
    Vec<u8>)
    requires
        ca.len() >= 2,
        12 + ioa.len() + value_bytes.len() <= usize::MAX,
    ensures
        r@ == i_frame(asdu_type, cause, ca@, ioa@, value_bytes@),
{
    // APCI header (6 bytes) + ASDU
    let asdu_len = 6 + ioa.len() + value_bytes.len();
    let total_len = 4 + asdu_len;
    let mut frame: Vec<u8> = Vec::with_capacity(2 + total_len);
    frame.push(0x68);
    frame.push((total_len % 256) as u8);
    // Control fields (I-frame, seq=0 for simplicity)
    frame.push(0x00);
    frame.push(0x00);
    frame.push(0x00);
    frame.push(0x00);
    // ASDU header
    frame.push(asdu_type);
    frame.push(0x01);
    frame.push(cause);
    frame.push(0x00);
    frame.push(ca[0]);
    frame.push(ca[1]);
    // Information object
    bytes::push_all(&mut frame, ioa);
    bytes::push_all(&mut frame, value_bytes);
    assert(frame@ =~= i_frame(asdu_type, cause, ca@, ioa@, value_bytes@));
    frame
}

/// The interrogation reply frame for one point of station `ca`, if its value
/// is a monitored one.
pub open spec fn point_frame(ca: u16, p: DataPoint) -> Option<Seq<u8>> {
    let c = bytes::le16(ca);
    let a = bytes::le24(p.ioa);
    match p.value {
        DataPointValue::SinglePoint { value } => Some(
            i_frame(1, 20, c, a, seq![if value { 1u8 } else { 0u8 }]),
        ),
        DataPointValue::DoublePoint { value } => Some(i_frame(3, 20, c, a, seq![(value % 4) as u8])),
        DataPointValue::Normalized { raw } => Some(
            i_frame(9, 20, c, a, bytes::le16(bytes::i16_bits(raw)).push(0)),
        ),
        DataPointValue::Scaled { value } => Some(
            i_frame(11, 20, c, a, bytes::le16(bytes::i16_bits(value)).push(0)),
        ),
        DataPointValue::ShortFloat { bits } => Some(i_frame(13, 20, c, a, bytes::le32(bits).push(0))),
        DataPointValue::IntegratedTotal { value, carry, sequence } => Some(
            i_frame(
                15,
                20,
                c,
                a,
                bytes::le32(bytes::i32_bits(value)).push(
                    ((sequence % 32) + if carry {
                        32int
                    } else {
                        0
                    }) as u8,
                ),
            ),
        ),
        DataPointValue::NoValue => None,
    }
}

/// The interrogation reply frames for points `ps` of station `ca`, in order,
/// skipping points without a monitored value.
pub open spec fn points_frames(ca: u16, ps: Seq<DataPoint>) -> Seq<Seq<u8>>
    decreases ps.len(),
{
    if ps.len() == 0 {
        Seq::empty()
    } else {
        points_frames(ca, ps.drop_last()) + match point_frame(ca, ps.last()) {
            Some(f) => seq![f],
            None => Seq::empty(),
        }
    }
}

/// The interrogation reply frames of a station: one per monitored point, in
/// increasing IOA order.
pub open spec fn station_frames(st: &Station) -> Seq<Seq<u8>> {
    points_frames(st.common_address, st.data_points.sorted())
}

fn point_frame_bytes(ca: u16, p: &DataPoint) -> (r: Option<Vec<u8>>)
    ensures
        match r {
            Some(v) => point_frame(ca, *p) == Some(v@),
            None => point_frame(ca, *p) is None,
        },
{
    let ca_bytes = bytes::u16_le(ca);
    let ioa_bytes = bytes::u32_le(p.ioa);
    let ioa3 = [ioa_bytes[0], ioa_bytes[1], ioa_bytes[2]];
    assert(ioa3@ =~= bytes::le24(p.ioa));
    match p.value {
        DataPointValue::SinglePoint { value } => {
            // M_SP_NA_1 (Type 1)
            let siq: u8 = if value { 0x01 } else { 0x00 };
            let v = [siq];
            let f = build_i_frame(1, 20, &ca_bytes, &ioa3, &v);
            assert(v@ =~= seq![if value { 1u8 } else { 0u8 }]);
            Some(f)
        },
        DataPointValue::DoublePoint { value } => {
            // M_DP_NA_1 (Type 3)
            let diq = value & 0x03;
            assert(value & 0x03 == value % 4) by (bit_vector);
            let v = [diq];
            let f = build_i_frame(3, 20, &ca_bytes, &ioa3, &v);
            assert(v@ =~= seq![(value % 4) as u8]);
            Some(f)
        },
        DataPointValue::Normalized { raw } => {
            // M_ME_NA_1 (Type 9)
            let b = bytes::u16_le(bytes::i16_to_bits(raw));
            let v = [b[0], b[1], 0u8];
            let f = build_i_frame(9, 20, &ca_bytes, &ioa3, &v);
            assert(v@ =~= bytes::le16(bytes::i16_bits(raw)).push(0));
            Some(f)
        },
        DataPointValue::Scaled { value } => {
            // M_ME_NB_1 (Type 11)
            let b = bytes::u16_le(bytes::i16_to_bits(value));
            let v = [b[0], b[1], 0u8];
            let f = build_i_frame(11, 20, &ca_bytes, &ioa3, &v);
            assert(v@ =~= bytes::le16(bytes::i16_bits(value)).push(0));
            Some(f)
        },
        DataPointValue::ShortFloat { bits } => {
            // M_ME_NC_1 (Type 13)
            let b = bytes::u32_le(bits);
            let v = [b[0], b[1], b[2], b[3], 0u8];
            let f = build_i_frame(13, 20, &ca_bytes, &ioa3, &v);
            assert(v@ =~= bytes::le32(bits).push(0));
            Some(f)
        },
        DataPointValue::IntegratedTotal { value, carry, sequence } => {
            // M_IT_NA_1 (Type 15)
            let b = bytes::u32_le(bytes::i32_to_bits(value));
            let mut bcr = sequence & 0x1F;
            if carry {
                bcr = bcr | 0x20;
            }
            assert(sequence & 0x1F == sequence % 32) by (bit_vector);
            assert((sequence & 0x1F) | 0x20 == sequence % 32 + 32) by (bit_vector);
            let v = [b[0], b[1], b[2], b[3], bcr];
            let f = build_i_frame(15, 20, &ca_bytes, &ioa3, &v);
            assert(v@ =~= bytes::le32(bytes::i32_bits(value)).push(
                ((sequence % 32) + if carry {
                    32int
                } else {
                    0
                }) as u8,
            ));
            Some(f)
        },
        DataPointValue::NoValue => None,
    }
}

/// All data points of a station as interrogation reply frames (cause 20,
/// interrogated by station), in increasing IOA order.
pub fn interrogation_frames(station: &Station) -> (r: Vec<Vec<u8>>)
    ensures
        r@.map_values(|f: Vec<u8>| f@) == station_frames(station),
{
    let points = station.data_points.all_sorted();
    let mut out: Vec<Vec<u8>> = Vec::new();
    let mut i: usize = 0;
    while i < points.len()
        invariant
            i <= points@.len(),
            points@ == station.data_points.sorted(),
            out@.map_values(|f: Vec<u8>| f@) == points_frames(
                station.common_address,
                points@.subrange(0, i as int),
            ),
        decreases points@.len() - i,
    {
        let ghost prev = out@;
        let ghost sub = points@.subrange(0, i + 1);
        assert(sub.drop_last() =~= points@.subrange(0, i as int));
        assert(sub.last() == points@[i as int]);
        match point_frame_bytes(station.common_address, &points[i]) {
            Some(f) => {
                out.push(f);
                assert(out@.map_values(|f: Vec<u8>| f@) =~= prev.map_values(|f: Vec<u8>| f@).push(
                    f@,
                ));
            },
            None => {},
        }
        assert(out@.map_values(|f: Vec<u8>| f@) =~= points_frames(station.common_address, sub));
        i = i + 1;
    }
    assert(points@.subrange(0, points@.len() as int) =~= points@);
    out
}

/// The stations of a slave server, keyed by common address.
#[derive(Debug)]
pub struct StationTable {
    stations: HashMap<u16, Station>,
}

impl View for StationTable {
    type V = Map<u16, Station>;

    closed spec fn view(&self) -> Map<u16, Station> {
        self.stations@
    }
}

impl StationTable {
    /// Every station is filed under its own common address.
    #[verifier::type_invariant]
    closed spec fn inv(self) -> bool {
        forall|k: u16| #[trigger] self.stations@.contains_key(k) ==> self.stations@[k].common_address == k
    }

    /// An empty table.
    pub fn new() -> (r: StationTable)
        ensures
            r@ == Map::<u16, Station>::empty(),
    {
        StationTable { stations: HashMap::new() }
    }

    /// Whether a station with address `ca` exists.
    pub fn contains(&self, ca: u16) -> (r: bool)
        ensures
            r == self@.contains_key(ca),
    {
        broadcast use vstd::std_specs::hash::group_hash_axioms;

        self.stations.contains_key(&ca)
    }

    /// The station with address `ca`, if any.
    pub fn get(&self, ca: u16) -> (r: Option<&Station>)
        ensures
            match r {
                Some(st) => self@.contains_key(ca) && *st == self@[ca],
                None => !self@.contains_key(ca),
            },
    {
        broadcast use vstd::std_specs::hash::group_hash_axioms;

        self.stations.get(&ca)
    }

    /// Add a station.
    pub fn add_station(&mut self, station: Station) -> (r: Result<(), SlaveError>)
        ensures
            old(self)@.contains_key(station.common_address) ==> (r matches Err(
                SlaveError::DuplicateStation(x),
            ) && x == station.common_address) && final(self)@ == old(self)@,
            !old(self)@.contains_key(station.common_address) ==> r is Ok && final(self)@ == old(self)@.insert(station.common_address, station),
    {
        broadcast use vstd::std_specs::hash::group_hash_axioms;

        proof {
            use_type_invariant(&*self);
        }
        let ca = station.common_address;
        if self.stations.contains_key(&ca) {
            return Err(SlaveError::DuplicateStation(ca));
        }
        let mut m: HashMap<u16, Station> = HashMap::new();
        std::mem::swap(&mut m, &mut self.stations);
        m.insert(ca, station);
        self.stations = m;
        Ok(())
    }

    /// Remove a station by common address.
    pub fn remove_station(&mut self, ca: u16) -> (r: Result<Station, SlaveError>)
        ensures
            !old(self)@.contains_key(ca) ==> (r matches Err(SlaveError::StationNotFound(x)) && x
                == ca) && final(self)@ == old(self)@,
            old(self)@.contains_key(ca) ==> (r matches Ok(st) && st == old(self)@[ca]) && final(self)@ == old(self)@.remove(ca),
    {
        broadcast use vstd::std_specs::hash::group_hash_axioms;

        proof {
            use_type_invariant(&*self);
        }
        let mut m: HashMap<u16, Station> = HashMap::new();
        std::mem::swap(&mut m, &mut self.stations);
        let removed = m.remove(&ca);
        self.stations = m;
        match removed {
            Some(st) => Ok(st),
            None => {
                assert(self.stations@ =~= old(self).stations@);
                Err(SlaveError::StationNotFound(ca))
            },
        }
    }

    /// Sets the value of point `ioa` of station `ca`, when both exist, and
    /// records `timestamp` as its last update. Returns whether they exist.
    pub fn set_point_value(&mut self, ca: u16, ioa: u32, value: DataPointValue, timestamp: i64) -> (r:
        bool)
        ensures
            r == (old(self)@.contains_key(ca) && old(self)@[ca].data_points@.contains_key(ioa)),
            final(self)@.dom() == old(self)@.dom(),
            forall|k: u16| #[trigger] final(self)@.contains_key(k) && k != ca ==> final(self)@[k] == old(self)@[k],
            old(self)@.contains_key(ca) ==> {
                let before = old(self)@[ca];
                let after = final(self)@[ca];
                &&& after.common_address == before.common_address
                &&& after.name == before.name
                &&& after.object_defs == before.object_defs
                &&& after.data_points@ == if r {
                    before.data_points@.insert(
                        ioa,
                        DataPoint { value, timestamp: Some(timestamp), ..before.data_points@[ioa] },
                    )
                } else {
                    before.data_points@
                }
            },
    {
        broadcast use vstd::std_specs::hash::group_hash_axioms;

        proof {
            use_type_invariant(&*self);
        }
        let ghost before = self.stations@;
        let mut m: HashMap<u16, Station> = HashMap::new();
        std::mem::swap(&mut m, &mut self.stations);
        match m.remove(&ca) {
            None => {
                assert(m@ =~= before);
                self.stations = m;
                false
            },
            Some(st) => {
                let mut st = st;
                let r = st.data_points.set_value(ioa, value, timestamp);
                m.insert(ca, st);
                proof {
                    assert(m@ =~= before.insert(ca, st));
                    assert(m@.dom() =~= before.dom());
                }
                self.stations = m;
                r
            },
        }
    }
}

/// Adding a station and removing it by its address gives the station back
/// and leaves the table as it was.
pub proof fn lemma_add_then_remove_station(table: Map<u16, Station>, st: Station)
    requires
        !table.contains_key(st.common_address),
    ensures
        table.insert(st.common_address, st).contains_key(st.common_address),
        table.insert(st.common_address, st)[st.common_address] == st,
        table.insert(st.common_address, st).remove(st.common_address) == table,
{
    assert(table.insert(st.common_address, st).remove(st.common_address) =~= table);
}

/// The frame that reports point `p` of station `ca` spontaneously, if its
/// value is a monitored one: its interrogation reply frame with cause of
/// transmission 3 (spontaneous).
pub open spec fn spontaneous_frame(ca: u16, p: DataPoint) -> Option<Seq<u8>> {
    match point_frame(ca, p) {
        Some(f) => Some(f.update(8, 3)),
        None => None,
    }
}

impl StationTable {
    /// Changes the value of point `ioa` of station `ca`, stamped
    /// `now_millis`, as `set_point_value` does, and returns the frame that
    /// reports the change spontaneously (cause 3), when the point exists and
    /// its value is a monitored one.
    pub fn change_point_value(&mut self, ca: u16, ioa: u32, value: DataPointValue, now_millis: i64) -> (r:
        Option<Vec<u8>>)
        ensures
            final(self)@.dom() == old(self)@.dom(),
            forall|k: u16| #[trigger] final(self)@.contains_key(k) && k != ca ==> final(self)@[k] == old(self)@[k],
            old(self)@.contains_key(ca) ==> {
                let before = old(self)@[ca];
                let after = final(self)@[ca];
                &&& after.common_address == before.common_address
                &&& after.name == before.name
                &&& after.object_defs == before.object_defs
                &&& after.data_points@ == if before.data_points@.contains_key(ioa) {
                    before.data_points@.insert(
                        ioa,
                        DataPoint { value, timestamp: Some(now_millis), ..before.data_points@[ioa] },
                    )
                } else {
                    before.data_points@
                }
            },
            match r {
                Some(f) => old(self)@.contains_key(ca) && old(self)@[ca].data_points@.contains_key(ioa)
                    && spontaneous_frame(
                    ca,
                    DataPoint { value, timestamp: Some(now_millis), ..old(self)@[ca].data_points@[ioa] },
                ) == Some(f@),
                None => !(old(self)@.contains_key(ca) && old(self)@[ca].data_points@.contains_key(ioa))
                    || spontaneous_frame(
                    ca,
                    DataPoint { value, timestamp: Some(now_millis), ..old(self)@[ca].data_points@[ioa] },
                ) is None,
            },
    {
        let changed = self.set_point_value(ca, ioa, value, now_millis);
        if !changed {
            return None;
        }
        let point = match self.get(ca) {
            Some(st) => st.data_points.get(ioa),
            None => None,
        };
        match point {
            Some(p) => match point_frame_bytes(ca, &p) {
                Some(f) => {
                    let mut f = f;
                    assert(f@.len() > 8);
                    f.set(8, 3);
                    Some(f)
                },
                None => None,
            },
            None => None,
        }
    }
}

impl StationTable {
    /// Changes the value of point `ioa` of station `ca` at the current time:
    /// as `change_point_value`, stamped by the UTC clock. Returns the
    /// spontaneous report frame, if any, and the time (Unix milliseconds)
    /// used; `None`, with nothing changed, when the system clock gives no
    /// reading (it is set before 1970).
    pub fn change_point_value_now(&mut self, ca: u16, ioa: u32, value: DataPointValue) -> (r: Option<
        (Option<Vec<u8>>, i64),
    >)
        ensures
            r is None ==> final(self)@ == old(self)@,
            r matches Some(out) ==> out.1 >= 0,
            r matches Some(out) ==> final(self)@.dom() == old(self)@.dom(),
            r matches Some(out) ==> forall|k: u16| #[trigger] final(self)@.contains_key(k) && k != ca ==> final(self)@[k] == old(self)@[k],
            r matches Some(out) ==> old(self)@.contains_key(ca) ==> {
                let before = old(self)@[ca];
                let after = final(self)@[ca];
                &&& after.common_address == before.common_address
                &&& after.name == before.name
                &&& after.object_defs == before.object_defs
                &&& after.data_points@ == if before.data_points@.contains_key(ioa) {
                    before.data_points@.insert(
                        ioa,
                        DataPoint { value, timestamp: Some(out.1), ..before.data_points@[ioa] },
                    )
                } else {
                    before.data_points@
                }
            },
            r matches Some(out) ==> match out.0 {
                Some(f) => old(self)@.contains_key(ca) && old(self)@[ca].data_points@.contains_key(ioa)
                    && spontaneous_frame(
                    ca,
                    DataPoint { value, timestamp: Some(out.1), ..old(self)@[ca].data_points@[ioa] },
                ) == Some(f@),
                None => !(old(self)@.contains_key(ca) && old(self)@[ca].data_points@.contains_key(ioa))
                    || spontaneous_frame(
                    ca,
                    DataPoint { value, timestamp: Some(out.1), ..old(self)@[ca].data_points@[ioa] },
                ) is None,
            },
    {
        let now = match clock::utc_now() {
            Some(t) => t.unix_millis,
            None => {
                return None;
            },
        };
        let frame = self.change_point_value(ca, ioa, value, now);
        Some((frame, now))
    }
}

/// What a slave makes of one block of bytes read from a master.
#[derive(Debug, Clone, Copy, PartialEq, Eq, Structural)]
pub enum SlaveAction {
    /// nothing to answer
    Ignore,
    /// a U-frame to confirm (STARTDT, STOPDT or TESTFR activation)
    ConfirmU { kind: UFrameKind },
    /// general interrogation (C_IC_NA_1) of station `ca`
    Interrogation { ca: u16 },
    /// clock synchronization (C_CS_NA_1)
    ClockSync { ca: u16 },
    /// single command (C_SC_NA_1)
    SingleCommand { ca: u16, ioa: u32, value: bool },
    /// double command (C_DC_NA_1)
    DoubleCommand { ca: u16, ioa: u32, value: u8 },
    /// set-point, short float (C_SE_NC_1), value as IEEE-754 bits
    SetpointFloat { ca: u16, ioa: u32, bits: u32 },
    /// an ASDU type the slave does not handle
    UnknownAsdu { asdu_type: u8, ca: u16, cause: u8 },
}

/// The information object address in bytes 12..15 of an I-frame.
pub open spec fn frame_ioa(d: Seq<u8>) -> u32 {
    (d[12] + 256 * d[13] + 65536 * d[14]) as u32
}

/// The action a slave takes on block `d`.
pub open spec fn slave_action(d: Seq<u8>) -> SlaveAction {
    if d.len() < 6 || d[0] != 0x68 {
        SlaveAction::Ignore
    } else if d[2] % 4 == 3 {
        if d[2] == 0x07 {
            SlaveAction::ConfirmU { kind: UFrameKind::StartDtAct }
        } else if d[2] == 0x13 {
            SlaveAction::ConfirmU { kind: UFrameKind::StopDtAct }
        } else if d[2] == 0x43 {
            SlaveAction::ConfirmU { kind: UFrameKind::TestFrAct }
        } else {
            SlaveAction::Ignore
        }
    } else if d[2] % 2 == 0 && d.len() >= 12 {
        let t = d[6];
        let ca = (d[10] + 256 * d[11]) as u16;
        if t == 100 {
            SlaveAction::Interrogation { ca }
        } else if t == 103 {
            SlaveAction::ClockSync { ca }
        } else if t == 45 {
            if d.len() >= 15 {
                SlaveAction::SingleCommand { ca, ioa: frame_ioa(d), value: d[15] % 2 == 1 }
            } else {
                SlaveAction::Ignore
            }
        } else if t == 46 {
            if d.len() >= 15 {
                SlaveAction::DoubleCommand { ca, ioa: frame_ioa(d), value: (d[15] % 4) as u8 }
            } else {
                SlaveAction::Ignore
            }
        } else if t == 50 {
            if d.len() >= 19 {
                SlaveAction::SetpointFloat {
                    ca,
                    ioa: frame_ioa(d),
                    bits: bytes::u32_of(d[15], d[16], d[17], d[18]),
                }
            } else {
                SlaveAction::Ignore
            }
        } else {
            SlaveAction::UnknownAsdu { asdu_type: t, ca, cause: d[8] }
        }
    } else {
        SlaveAction::Ignore
    }
}

/// The blocks on which the slave would read past the end: a single or
/// double command of exactly 15 bytes (its command octet is byte 15).
pub open spec fn slave_block_reads_past_end(d: Seq<u8>) -> bool {
    &&& d.len() == 15
    &&& d[0] == 0x68
    &&& d[2] % 2 == 0
    &&& (d[6] == 45 || d[6] == 46)
}

/// The confirmation that answers a U-frame activation.
pub open spec fn confirmation_of(kind: UFrameKind) -> UFrameKind {
    match kind {
        UFrameKind::StartDtAct => UFrameKind::StartDtCon,
        UFrameKind::StopDtAct => UFrameKind::StopDtCon,
        UFrameKind::TestFrAct => UFrameKind::TestFrCon,
        other => other,
    }
}

/// The U-frame (six bytes) that confirms a U-frame activation.
pub open spec fn u_confirmation(kind: UFrameKind) -> Seq<u8> {
    seq![0x68u8, 0x04, frame::u_kind_code(confirmation_of(kind)), 0x00, 0x00, 0x00]
}

/// The request block with its cause of transmission replaced by `cause`.
pub open spec fn with_cause(d: Seq<u8>, cause: u8) -> Seq<u8> {
    d.update(8, cause)
}

/// The new value a command writes to its point, if the action is a command.
pub open spec fn command_value(a: SlaveAction) -> Option<(u16, u32, DataPointValue)> {
    match a {
        SlaveAction::SingleCommand { ca, ioa, value } => Some(
            (ca, ioa, DataPointValue::SinglePoint { value }),
        ),
        SlaveAction::DoubleCommand { ca, ioa, value } => Some(
            (ca, ioa, DataPointValue::DoublePoint { value }),
        ),
        SlaveAction::SetpointFloat { ca, ioa, bits } => Some(
            (ca, ioa, DataPointValue::ShortFloat { bits }),
        ),
        _ => None,
    }
}

/// The spontaneous report (cause 3) of the point a command sets, when the
/// action is a command, its station and point exist and the new value is a
/// monitored one; nothing otherwise.
pub open spec fn command_report(stations: Map<u16, Station>, a: SlaveAction) -> Seq<Seq<u8>> {
    match command_value(a) {
        Some((ca, ioa, v)) => if stations.contains_key(ca) && stations[ca].data_points@.contains_key(ioa) {
            match spontaneous_frame(ca, DataPoint { value: v, ..stations[ca].data_points@[ioa] }) {
                Some(f) => seq![f],
                None => Seq::empty(),
            }
        } else {
            Seq::empty()
        },
        None => Seq::empty(),
    }
}

/// The frames a slave writes back for block `d`, given its stations: the
/// confirmation of a U-frame activation; for an interrogation the activation
/// confirmation (cause 7), the station's points and the activation
/// termination (cause 10); for a clock synchronization its confirmation; for
/// a single, double or set-point command its confirmation, the spontaneous
/// report of the point it set, and its termination; nothing otherwise.
pub open spec fn slave_reply_frames(stations: Map<u16, Station>, d: Seq<u8>) -> Seq<Seq<u8>> {
    match slave_action(d) {
        SlaveAction::Ignore => Seq::empty(),
        SlaveAction::UnknownAsdu { .. } => Seq::empty(),
        SlaveAction::ConfirmU { kind } => seq![u_confirmation(kind)],
        SlaveAction::Interrogation { ca } => seq![with_cause(d, 7)] + (if stations.contains_key(ca) {
            station_frames(&stations[ca])
        } else {
            Seq::empty()
        }) + seq![with_cause(d, 10)],
        SlaveAction::ClockSync { .. } => seq![with_cause(d, 7)],
        _ => seq![with_cause(d, 7)] + command_report(stations, slave_action(d)) + seq![with_cause(d, 10)],
    }
}

/// What handling block `d` at time `now` does: `r` takes the action the
/// block asks for and holds the reply frames; a command sets its point in
/// `after` (when station and point exist) and nothing else changes.
pub open spec fn slave_block_handled(
    before: Map<u16, Station>,
    after: Map<u16, Station>,
    d: Seq<u8>,
    now: i64,
    r: SlaveReply,
) -> bool {
    &&& r.action == slave_action(d)
    &&& r.frames@.map_values(|f: Vec<u8>| f@) == slave_reply_frames(before, d)
    &&& match command_value(r.action) {
        Some((ca, ioa, v)) => {
            &&& after.dom() == before.dom()
            &&& forall|k: u16| #[trigger] after.contains_key(k) && k != ca ==> after[k] == before[k]
            &&& before.contains_key(ca) ==> {
                let b = before[ca];
                let a = after[ca];
                &&& a.common_address == b.common_address
                &&& a.name == b.name
                &&& a.object_defs == b.object_defs
                &&& a.data_points@ == if b.data_points@.contains_key(ioa) {
                    b.data_points@.insert(
                        ioa,
                        DataPoint { value: v, timestamp: Some(now), ..b.data_points@[ioa] },
                    )
                } else {
                    b.data_points@
                }
            }
        },
        None => after == before,
    }
}

/// The answer of a slave to one block.
pub struct SlaveReply {
    /// what the block asked for
    pub action: SlaveAction,
    /// the frames to write back, in order
    pub frames: Vec<Vec<u8>>,
}

fn confirm_u(kind: UFrameKind) -> (r: Vec<u8>)
    ensures
        r@ == u_confirmation(kind),
{
    let code: u8 = match kind {
        UFrameKind::StartDtAct => 0x0B,
        UFrameKind::StopDtAct => 0x23,
        UFrameKind::TestFrAct => 0x83,
        UFrameKind::StartDtCon => 0x0B,
        UFrameKind::StopDtCon => 0x23,
        UFrameKind::TestFrCon => 0x83,
    };
    let r = vec![0x68u8, 0x04, code, 0x00, 0x00, 0x00];
    assert(r@ =~= u_confirmation(kind));
    r
}

fn copy_with_cause(data: &[u8], cause: u8) -> (r: Vec<u8>)
    requires
        data.len() > 8,
    ensures
        r@ == with_cause(data@, cause),
{
    let mut v: Vec<u8> = Vec::new();
    bytes::push_all(&mut v, data);
    v.set(8, cause);
    v
}

/// Handles one block read from a master: decides the action, applies a
/// command to the addressed point (stamped `now_millis`), and returns the
/// frames to write back.
pub fn handle_block(stations: &mut StationTable, data: &[u8], now_millis: i64) -> (r: SlaveReply)
    requires
        !slave_block_reads_past_end(data@),
    ensures
        slave_block_handled(old(stations)@, final(stations)@, data@, now_millis, r),
{
    let ghost d = data@;
    let mut frames: Vec<Vec<u8>> = Vec::new();
    assert(frames@.map_values(|f: Vec<u8>| f@) =~= Seq::<Seq<u8>>::empty());
    if data.len() < 6 || data[0] != 0x68 {
        return SlaveReply { action: SlaveAction::Ignore, frames };
    }
    let ctrl1 = data[2];
    assert((ctrl1 & 0x01 == 0) == (ctrl1 % 2 == 0)) by (bit_vector);
    assert((ctrl1 & 0x03 == 0x03) == (ctrl1 % 4 == 3)) by (bit_vector);
    if ctrl1 & 0x03 == 0x03 {
        // U-frame
        let kind = match ctrl1 {
            0x07 => UFrameKind::StartDtAct,
            0x13 => UFrameKind::StopDtAct,
            0x43 => UFrameKind::TestFrAct,
            _ => {
                return SlaveReply { action: SlaveAction::Ignore, frames };
            },
        };
        frames.push(confirm_u(kind));
        assert(frames@.map_values(|f: Vec<u8>| f@) =~= seq![u_confirmation(kind)]);
        return SlaveReply { action: SlaveAction::ConfirmU { kind }, frames };
    }
    if !(ctrl1 & 0x01 == 0 && data.len() >= 12) {
        return SlaveReply { action: SlaveAction::Ignore, frames };
    }
    // I-frame with ASDU
    let asdu_type = data[6];
    let cause = data[8];
    let ca = bytes::u16_from(data[10], data[11]);
    if asdu_type == 100 {
        // General Interrogation Command (C_IC_NA_1)
        frames.push(copy_with_cause(data, 7));
        let ghost head = frames@;
        match stations.get(ca) {
            Some(station) => {
                let mut points = interrogation_frames(station);
                frames.append(&mut points);
                assert(frames@.map_values(|f: Vec<u8>| f@) =~= head.map_values(|f: Vec<u8>| f@)
                    + station_frames(&stations@[ca]));
            },
            None => {
                assert(frames@.map_values(|f: Vec<u8>| f@) =~= head.map_values(|f: Vec<u8>| f@)
                    + Seq::<Seq<u8>>::empty());
            },
        }
        let ghost mid = frames@;
        frames.push(copy_with_cause(data, 10));
        assert(frames@.map_values(|f: Vec<u8>| f@) =~= mid.map_values(|f: Vec<u8>| f@).push(
            with_cause(d, 10),
        ));
        assert(frames@.map_values(|f: Vec<u8>| f@) =~= slave_reply_frames(old(stations)@, d));
        return SlaveReply { action: SlaveAction::Interrogation { ca }, frames };
    }
    if asdu_type == 103 {
        // Clock Synchronization (C_CS_NA_1)
        frames.push(copy_with_cause(data, 7));
        assert(frames@.map_values(|f: Vec<u8>| f@) =~= seq![with_cause(d, 7)]);
        return SlaveReply { action: SlaveAction::ClockSync { ca }, frames };
    }
    let action = if asdu_type == 45 || asdu_type == 46 {
        if data.len() < 15 {
            return SlaveReply { action: SlaveAction::Ignore, frames };
        }
        let ioa = bytes::u32_from(data[12], data[13], data[14], 0);
        let c = data[15];
        assert(c & 0x01 == c % 2) by (bit_vector);
        assert(c & 0x03 == c % 4) by (bit_vector);
        if asdu_type == 45 {
            SlaveAction::SingleCommand { ca, ioa, value: c & 0x01 != 0 }
        } else {
            SlaveAction::DoubleCommand { ca, ioa, value: c & 0x03 }
        }
    } else if asdu_type == 50 {
        if data.len() < 19 {
            return SlaveReply { action: SlaveAction::Ignore, frames };
        }
        let ioa = bytes::u32_from(data[12], data[13], data[14], 0);
        let bits = bytes::u32_from(data[15], data[16], data[17], data[18]);
        SlaveAction::SetpointFloat { ca, ioa, bits }
    } else {
        return SlaveReply { action: SlaveAction::UnknownAsdu { asdu_type, ca, cause }, frames };
    };
    let (ioa, value) = match action {
        SlaveAction::SingleCommand { ioa, value, .. } => (ioa, DataPointValue::SinglePoint { value }),
        SlaveAction::DoubleCommand { ioa, value, .. } => (ioa, DataPointValue::DoublePoint { value }),
        SlaveAction::SetpointFloat { ioa, bits, .. } => (ioa, DataPointValue::ShortFloat { bits }),
        _ => (0u32, DataPointValue::NoValue),
    };
    let report = stations.change_point_value(ca, ioa, value, now_millis);
    frames.push(copy_with_cause(data, 7));
    let ghost head = frames@;
    match report {
        Some(f) => {
            frames.push(f);
        },
        None => {},
    }
    let ghost mid = frames@;
    assert(mid.map_values(|f: Vec<u8>| f@) =~= seq![with_cause(d, 7)] + command_report(
        old(stations)@,
        action,
    ));
    frames.push(copy_with_cause(data, 10));
    assert(frames@.map_values(|f: Vec<u8>| f@) =~= mid.map_values(|f: Vec<u8>| f@).push(
        with_cause(d, 10),
    ));
    assert(action == slave_action(d));
    assert(frames@.map_values(|f: Vec<u8>| f@) =~= slave_reply_frames(old(stations)@, d));
    SlaveReply { action, frames }
}

/// Whether block `d` is a command that sets a point, and so needs the time.
pub open spec fn block_sets_point(d: Seq<u8>) -> bool {
    command_value(slave_action(d)) is Some
}

fn block_is_command(data: &[u8]) -> (r: bool)
    ensures
        r == block_sets_point(data@),
{
    if data.len() < 12 || data[0] != 0x68 {
        return false;
    }
    let ctrl1 = data[2];
    assert((ctrl1 & 0x01 == 0) == (ctrl1 % 2 == 0)) by (bit_vector);
    assert((ctrl1 & 0x03 == 0x03) == (ctrl1 % 4 == 3)) by (bit_vector);
    if ctrl1 & 0x03 == 0x03 || ctrl1 & 0x01 != 0 {
        return false;
    }
    let t = data[6];
    (t == 45 || t == 46) && data.len() >= 15 || t == 50 && data.len() >= 19
}

/// Handles one block read from a master at the current time: as
/// `handle_block`, with a command stamped by the UTC clock. Returns the reply
/// and the time (Unix milliseconds) used, which is 0 for a block that sets
/// no point. Gives `None`, and changes nothing, for a command when the
/// system clock gives no reading (it is set before 1970).
pub fn handle_block_now(stations: &mut StationTable, data: &[u8]) -> (r: Option<(SlaveReply, i64)>)
    requires
        !slave_block_reads_past_end(data@),
    ensures
        match r {
            Some((reply, now)) => {
                &&& now >= 0
                &&& !block_sets_point(data@) ==> now == 0
                &&& slave_block_handled(old(stations)@, final(stations)@, data@, now, reply)
            },
            None => block_sets_point(data@) && final(stations)@ == old(stations)@,
        },
{
    let now = if block_is_command(data) {
        match clock::utc_now() {
            Some(t) => t.unix_millis,
            None => {
                return None;
            },
        }
    } else {
        0
    };
    let reply = handle_block(stations, data, now);
    Some((reply, now))
}

/// Running state of a slave server.
#[derive(Debug, Clone, Copy, PartialEq, Eq, Structural)]
pub enum ServerState {
    Stopped,
    Running,
}

impl ServerState {
    /// The state after a start request, or `AlreadyRunning` when running.
    pub fn start(self) -> (r: Result<ServerState, SlaveError>)
        ensures
            self == ServerState::Running ==> r matches Err(SlaveError::AlreadyRunning),
            self == ServerState::Stopped ==> r matches Ok(ServerState::Running),
    {
        match self {
            ServerState::Running => Err(SlaveError::AlreadyRunning),
            ServerState::Stopped => Ok(ServerState::Running),
        }
    }

    /// The state after a stop request, or `NotRunning` when stopped.
    pub fn stop(self) -> (r: Result<ServerState, SlaveError>)
        ensures
            self == ServerState::Stopped ==> r matches Err(SlaveError::NotRunning),
            self == ServerState::Running ==> r matches Ok(ServerState::Stopped),
    {
        match self {
            ServerState::Stopped => Err(SlaveError::NotRunning),
            ServerState::Running => Ok(ServerState::Stopped),
        }
    }
}

/// Transport configuration for a slave server.
#[derive(Debug, Clone)]
pub struct SlaveTransportConfig {
    pub bind_address: String,
    pub port: u16,
    /// TLS configuration (optional)
    pub tls: SlaveTlsConfig,
}

impl Default for SlaveTransportConfig {
    fn default() -> (r: Self)
        ensures
            r.bind_address@ == "0.0.0.0"@,
            r.port == 2404,
            !r.tls.enabled,
            r.tls.cert_file@.len() == 0,
            r.tls.key_file@.len() == 0,
            r.tls.ca_file@.len() == 0,
            !r.tls.require_client_cert,
    {
        SlaveTransportConfig {
            bind_address: "0.0.0.0".to_string(),
            port: 2404,
            tls: SlaveTlsConfig::default(),
        }
    }
}

} // verus!
