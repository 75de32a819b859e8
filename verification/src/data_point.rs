//! Data points of a station and their map keyed by information object
//! address (IOA).
use crate::text;
use crate::types;
use crate::types::{AsduTypeId, DataCategory};
use vstd::prelude::*;

verus! {

/// The value of a data point as it travels on the wire.
///
/// Floating-point quantities are kept in their transmitted form: a
/// normalized value as its 16-bit fixed-point code (the value is
/// `raw / 32767`), a short float as its IEEE-754 bit pattern.
#[derive(Debug, Clone, Copy, PartialEq, Eq, Structural)]
pub enum DataPointValue {
    SinglePoint { value: bool },
    DoublePoint { value: u8 },
    Normalized { raw: i16 },
    Scaled { value: i16 },
    ShortFloat { bits: u32 },
    IntegratedTotal { value: i32, carry: bool, sequence: u8 },
    /// commands and system types carry no monitored value
    NoValue,
}

/// Quality descriptor bits.
#[derive(Debug, Clone, Copy, PartialEq, Eq, Structural)]
pub struct QualityDescriptor {
    /// invalid
    pub iv: bool,
    /// not topical
    pub nt: bool,
    /// substituted
    pub sb: bool,
    /// blocked
    pub bl: bool,
    /// overflow
    pub ov: bool,
}

/// The good quality: no bit set.
pub open spec fn good_quality() -> QualityDescriptor {
    QualityDescriptor { iv: false, nt: false, sb: false, bl: false, ov: false }
}

/// A data point: address, type, current value, quality and the time (Unix
/// milliseconds) of its last update.
#[derive(Debug, Clone, Copy, PartialEq, Eq, Structural)]
pub struct DataPoint {
    pub ioa: u32,
    pub asdu_type: AsduTypeId,
    pub value: DataPointValue,
    pub quality: QualityDescriptor,
    pub timestamp: Option<i64>,
}

/// Definition of an information object (metadata for the user interface).
#[derive(Debug, Clone)]
pub struct InformationObjectDef {
    pub ioa: u32,
    pub asdu_type: AsduTypeId,
    pub category: DataCategory,
    pub name: String,
    pub comment: String,
}

/// The initial value of a point of the given type: zero, off, or nothing
/// for commands and system types.
pub open spec fn default_value(t: AsduTypeId) -> DataPointValue {
    match types::asdu_category(t) {
        DataCategory::SinglePoint => DataPointValue::SinglePoint { value: false },
        DataCategory::DoublePoint => DataPointValue::DoublePoint { value: 0 },
        DataCategory::NormalizedMeasured => DataPointValue::Normalized { raw: 0 },
        DataCategory::ScaledMeasured => DataPointValue::Scaled { value: 0 },
        DataCategory::FloatMeasured => DataPointValue::ShortFloat { bits: 0 },
        DataCategory::IntegratedTotals => DataPointValue::IntegratedTotal {
            value: 0,
            carry: false,
            sequence: 0,
        },
        _ => DataPointValue::NoValue,
    }
}

/// A fresh point of the given type: default value, good quality, never updated.
pub open spec fn new_point(ioa: u32, t: AsduTypeId) -> DataPoint {
    DataPoint { ioa, asdu_type: t, value: default_value(t), quality: good_quality(), timestamp: None }
}

/// The display text of a value that needs no floating point: `"ON"` or
/// `"OFF"` for a single point, the number for double points, scaled values
/// and integrated totals, `"-"` for no value; none for normalized and
/// short-float values.
pub open spec fn value_display(v: DataPointValue) -> Option<Seq<char>> {
    match v {
        DataPointValue::SinglePoint { value } => Some(if value { "ON"@ } else { "OFF"@ }),
        DataPointValue::DoublePoint { value } => Some(text::dec_str(value as nat)),
        DataPointValue::Scaled { value } => Some(text::signed_dec_str(value as int)),
        DataPointValue::IntegratedTotal { value, .. } => Some(text::signed_dec_str(value as int)),
        DataPointValue::NoValue => Some("-"@),
        DataPointValue::Normalized { .. } => None,
        DataPointValue::ShortFloat { .. } => None,
    }
}

impl DataPointValue {
    /// The display text of this value, where it needs no floating point
    /// (see `value_display`); `None` for normalized and short-float values,
    /// whose decimal rendering is floating point.
    pub fn display(&self) -> (r: Option<String>)
        ensures
            match r {
                Some(t) => value_display(*self) == Some(t@),
                None => value_display(*self) is None,
            },
    {
        match *self {
            DataPointValue::SinglePoint { value } => {
                let t = if value { "ON" } else { "OFF" };
                proof {
                    reveal_strlit("ON");
                    reveal_strlit("OFF");
                }
                Some(t.to_string())
            },
            DataPointValue::DoublePoint { value } => {
                let mut t = String::new();
                text::push_dec(&mut t, value as u64);
                assert(t@ =~= text::dec_str(value as nat));
                Some(t)
            },
            DataPointValue::Scaled { value } => {
                let mut t = String::new();
                text::push_signed_dec(&mut t, value as i64);
                assert(t@ =~= text::signed_dec_str(value as int));
                Some(t)
            },
            DataPointValue::IntegratedTotal { value, .. } => {
                let mut t = String::new();
                text::push_signed_dec(&mut t, value as i64);
                assert(t@ =~= text::signed_dec_str(value as int));
                Some(t)
            },
            DataPointValue::NoValue => Some("-".to_string()),
            DataPointValue::Normalized { .. } => None,
            DataPointValue::ShortFloat { .. } => None,
        }
    }

    /// The initial value for a point of type `t`.
    pub fn default_for(t: AsduTypeId) -> (r: DataPointValue)
        ensures
            r == default_value(t),
    {
        match t.category() {
            DataCategory::SinglePoint => DataPointValue::SinglePoint { value: false },
            DataCategory::DoublePoint => DataPointValue::DoublePoint { value: 0 },
            DataCategory::NormalizedMeasured => DataPointValue::Normalized { raw: 0 },
            DataCategory::ScaledMeasured => DataPointValue::Scaled { value: 0 },
            DataCategory::FloatMeasured => DataPointValue::ShortFloat { bits: 0 },
            DataCategory::IntegratedTotals => DataPointValue::IntegratedTotal {
                value: 0,
                carry: false,
                sequence: 0,
            },
            _ => DataPointValue::NoValue,
        }
    }
}

impl DataPoint {
    /// A fresh point of type `t` at address `ioa`.
    pub fn new(ioa: u32, t: AsduTypeId) -> (r: DataPoint)
        ensures
            r == new_point(ioa, t),
    {
        DataPoint {
            ioa,
            asdu_type: t,
            value: DataPointValue::default_for(t),
            quality: QualityDescriptor { iv: false, nt: false, sb: false, bl: false, ov: false },
            timestamp: None,
        }
    }

    /// A point of type `t` at address `ioa` holding `value`, with good quality.
    pub fn with_value(ioa: u32, t: AsduTypeId, value: DataPointValue) -> (r: DataPoint)
        ensures
            r == (DataPoint { ioa, asdu_type: t, value, quality: good_quality(), timestamp: None }),
    {
        DataPoint {
            ioa,
            asdu_type: t,
            value,
            quality: QualityDescriptor { iv: false, nt: false, sb: false, bl: false, ov: false },
            timestamp: None,
        }
    }
}

/// Points listed in strictly increasing IOA order.
pub open spec fn sorted_by_ioa(s: Seq<DataPoint>) -> bool {
    forall|i: int, j: int| 0 <= i < j < s.len() ==> #[trigger] s[i].ioa < #[trigger] s[j].ioa
}

/// Whether some listed point has address `k`.
pub open spec fn has_ioa(s: Seq<DataPoint>, k: u32) -> bool {
    exists|i: int| 0 <= i < s.len() && #[trigger] s[i].ioa == k
}

/// The map from address to point that a list of points describes.
pub open spec fn points_map(s: Seq<DataPoint>) -> Map<u32, DataPoint> {
    Map::new(
        |k: u32| has_ioa(s, k),
        |k: u32| s[choose|i: int| 0 <= i < s.len() && #[trigger] s[i].ioa == k],
    )
}

/// In a sorted list the point at position `i` is the one its address maps to.
pub proof fn lemma_points_map_at(s: Seq<DataPoint>, i: int)
    requires
        sorted_by_ioa(s),
        0 <= i < s.len(),
    ensures
        points_map(s).contains_key(s[i].ioa),
        points_map(s)[s[i].ioa] == s[i],
{
    let k = s[i].ioa;
    assert(has_ioa(s, k));
    let j = choose|j: int| 0 <= j < s.len() && #[trigger] s[j].ioa == k;
    if j < i {
        assert(s[j].ioa < s[i].ioa);
    } else if i < j {
        assert(s[i].ioa < s[j].ioa);
    }
}

/// A sorted list and its map have the same number of entries.
pub proof fn lemma_points_map_len(s: Seq<DataPoint>)
    requires
        sorted_by_ioa(s),
    ensures
        points_map(s).dom().finite(),
        points_map(s).len() == s.len(),
{
    let keys = s.map_values(|p: DataPoint| p.ioa);
    assert(points_map(s).dom() =~= keys.to_set()) by {
        assert forall|k: u32| points_map(s).dom().contains(k) implies keys.to_set().contains(k) by {
            let i = choose|i: int| 0 <= i < s.len() && #[trigger] s[i].ioa == k;
            assert(keys[i] == k);
        }
        assert forall|k: u32| keys.to_set().contains(k) implies points_map(s).dom().contains(k) by {
            let i = choose|i: int| 0 <= i < keys.len() && keys[i] == k;
            assert(s[i].ioa == k);
        }
    }
    assert(keys.no_duplicates()) by {
        assert forall|i: int, j: int| 0 <= i < keys.len() && 0 <= j < keys.len() && i != j implies keys[i]
            != keys[j] by {
            if i < j {
                assert(s[i].ioa < s[j].ioa);
            } else {
                assert(s[j].ioa < s[i].ioa);
            }
        }
    }
    keys.unique_seq_to_set();
}

/// Two sorted lists that describe the same map are equal.
pub proof fn lemma_sorted_unique(a: Seq<DataPoint>, b: Seq<DataPoint>)
    requires
        sorted_by_ioa(a),
        sorted_by_ioa(b),
        points_map(a) == points_map(b),
    ensures
        a == b,
    decreases a.len() + b.len(),
{
    if a.len() == 0 || b.len() == 0 {
        lemma_points_map_len(a);
        lemma_points_map_len(b);
        assert(a =~= b);
    } else {
        lemma_points_map_at(a, 0);
        lemma_points_map_at(b, 0);
        let ka = a[0].ioa;
        let kb = b[0].ioa;
        // the smallest keys agree
        assert(points_map(b).contains_key(ka));
        let jb = choose|j: int| 0 <= j < b.len() && #[trigger] b[j].ioa == ka;
        assert(points_map(a).contains_key(kb));
        let ja = choose|j: int| 0 <= j < a.len() && #[trigger] a[j].ioa == kb;
        if ka < kb {
            if jb > 0 {
                assert(b[0].ioa < b[jb].ioa);
            }
            assert(false);
        }
        if kb < ka {
            if ja > 0 {
                assert(a[0].ioa < a[ja].ioa);
            }
            assert(false);
        }
        assert(a[0] == b[0]);
        let ta = a.skip(1);
        let tb = b.skip(1);
        assert(points_map(ta) =~= points_map(tb)) by {
            assert forall|k: u32| #[trigger] points_map(ta).contains_key(k) implies points_map(
                tb,
            ).contains_key(k) && points_map(ta)[k] == points_map(tb)[k] by {
                let i = choose|i: int| 0 <= i < ta.len() && #[trigger] ta[i].ioa == k;
                assert(a[i + 1].ioa == k);
                lemma_points_map_at(a, i + 1);
                assert(k > ka);
                let j = choose|j: int| 0 <= j < b.len() && #[trigger] b[j].ioa == k;
                assert(j != 0);
                lemma_points_map_at(b, j);
                assert(tb[j - 1] == b[j]);
                lemma_points_map_at(ta, i);
                lemma_points_map_at(tb, j - 1);
            }
            assert forall|k: u32| #[trigger] points_map(tb).contains_key(k) implies points_map(
                ta,
            ).contains_key(k) by {
                let j = choose|j: int| 0 <= j < tb.len() && #[trigger] tb[j].ioa == k;
                assert(b[j + 1].ioa == k);
                lemma_points_map_at(b, j + 1);
                assert(k > kb);
                let i = choose|i: int| 0 <= i < a.len() && #[trigger] a[i].ioa == k;
                assert(i != 0);
                assert(ta[i - 1] == a[i]);
            }
        }
        lemma_sorted_unique(ta, tb);
        assert(a =~= seq![a[0]] + ta);
        assert(b =~= seq![b[0]] + tb);
    }
}

/// Data points keyed by IOA, kept in increasing IOA order.
#[derive(Debug)]
pub struct DataPointMap {
    points: Vec<DataPoint>,
}

impl View for DataPointMap {
    type V = Map<u32, DataPoint>;

    closed spec fn view(&self) -> Map<u32, DataPoint> {
        points_map(self.points@)
    }
}

impl Clone for DataPointMap {
    /// A copy holding the same points.
    fn clone(&self) -> (r: Self)
        ensures
            r@ == self@,
    {
        proof {
            use_type_invariant(self);
        }
        let mut points: Vec<DataPoint> = Vec::new();
        let mut i: usize = 0;
        while i < self.points.len()
            invariant
                i <= self.points@.len(),
                points@ == self.points@.subrange(0, i as int),
            decreases self.points@.len() - i,
        {
            points.push(self.points[i]);
            i = i + 1;
            assert(points@ =~= self.points@.subrange(0, i as int));
        }
        assert(points@ =~= self.points@);
        DataPointMap { points }
    }
}

impl DataPointMap {
    #[verifier::type_invariant]
    closed spec fn inv(self) -> bool {
        sorted_by_ioa(self.points@)
    }

    /// The points in increasing IOA order.
    pub closed spec fn sorted(&self) -> Seq<DataPoint> {
        self.points@
    }

    /// An empty map.
    pub fn new() -> (r: DataPointMap)
        ensures
            r@ == Map::<u32, DataPoint>::empty(),
    {
        let r = DataPointMap { points: Vec::new() };
        assert(r@ =~= Map::<u32, DataPoint>::empty());
        r
    }

    /// The number of points.
    pub fn len(&self) -> (r: usize)
        ensures
            r == self@.len(),
    {
        proof {
            use_type_invariant(self);
            lemma_points_map_len(self.points@);
        }
        self.points.len()
    }

    /// Whether there is no point.
    pub fn is_empty(&self) -> (r: bool)
        ensures
            r == (self@.len() == 0),
    {
        proof {
            use_type_invariant(self);
            lemma_points_map_len(self.points@);
        }
        self.points.len() == 0
    }

    /// The position of the first point whose address is at least `ioa`.
    fn position(&self, ioa: u32) -> (r: usize)
        ensures
            r <= self.points@.len(),
            forall|i: int| 0 <= i < r ==> #[trigger] self.points@[i].ioa < ioa,
            r < self.points@.len() ==> self.points@[r as int].ioa >= ioa,
    {
        let mut i: usize = 0;
        while i < self.points.len()
            invariant
                i <= self.points@.len(),
                forall|j: int| 0 <= j < i ==> #[trigger] self.points@[j].ioa < ioa,
            decreases self.points@.len() - i,
        {
            if self.points[i].ioa >= ioa {
                return i;
            }
            i = i + 1;
        }
        i
    }

    /// Whether a point with address `ioa` exists.
    pub fn contains(&self, ioa: u32) -> (r: bool)
        ensures
            r == self@.contains_key(ioa),
    {
        proof {
            use_type_invariant(self);
        }
        let i = self.position(ioa);
        let r = i < self.points.len() && self.points[i].ioa == ioa;
        proof {
            if r {
                lemma_points_map_at(self.points@, i as int);
            } else if has_ioa(self.points@, ioa) {
                let j = choose|j: int| 0 <= j < self.points@.len() && #[trigger] self.points@[j].ioa
                    == ioa;
                if j > i {
                    assert(self.points@[i as int].ioa < self.points@[j].ioa);
                }
            }
        }
        r
    }

    /// The point with address `ioa`, if any.
    pub fn get(&self, ioa: u32) -> (r: Option<DataPoint>)
        ensures
            r == (if self@.contains_key(ioa) {
                Some(self@[ioa])
            } else {
                None::<DataPoint>
            }),
            r matches Some(p) ==> p.ioa == ioa,
    {
        proof {
            use_type_invariant(self);
        }
        let i = self.position(ioa);
        if i < self.points.len() && self.points[i].ioa == ioa {
            proof {
                lemma_points_map_at(self.points@, i as int);
            }
            Some(self.points[i])
        } else {
            proof {
                if has_ioa(self.points@, ioa) {
                    let j = choose|j: int| 0 <= j < self.points@.len() && #[trigger] self.points@[j].ioa
                        == ioa;
                    if j > i {
                        assert(self.points@[i as int].ioa < self.points@[j].ioa);
                    }
                }
            }
            None
        }
    }

    /// Inserts `point`, replacing any point with the same address.
    pub fn insert(&mut self, point: DataPoint)
        ensures
            final(self)@ == old(self)@.insert(point.ioa, point),
    {
        proof {
            use_type_invariant(&*self);
        }
        let ghost old_s = self.points@;
        let i = self.position(point.ioa);
        let mut pts: Vec<DataPoint> = Vec::new();
        std::mem::swap(&mut pts, &mut self.points);
        assert(pts@ == old_s);
        if i < pts.len() && pts[i].ioa == point.ioa {
            pts.set(i, point);
        } else {
            pts.insert(i, point);
        }
        let ghost new_s = pts@;
        proof {
            assert(sorted_by_ioa(new_s));
            lemma_map_after_put(old_s, new_s, i as int, point);
        }
        self.points = pts;
    }

    /// Removes the point with address `ioa`, if any.
    pub fn remove(&mut self, ioa: u32)
        ensures
            final(self)@ == old(self)@.remove(ioa),
    {
        proof {
            use_type_invariant(&*self);
        }
        let ghost old_s = self.points@;
        let i = self.position(ioa);
        if i < self.points.len() && self.points[i].ioa == ioa {
            let mut pts: Vec<DataPoint> = Vec::new();
            std::mem::swap(&mut pts, &mut self.points);
            pts.remove(i);
            proof {
                lemma_map_after_delete(old_s, pts@, i as int);
            }
            self.points = pts;
        } else {
            proof {
                if has_ioa(old_s, ioa) {
                    let j = choose|j: int| 0 <= j < old_s.len() && #[trigger] old_s[j].ioa == ioa;
                    if j > i {
                        assert(old_s[i as int].ioa < old_s[j].ioa);
                    }
                }
                assert(points_map(old_s) =~= points_map(old_s).remove(ioa));
            }
        }
    }

    /// Replaces the value of the point at `ioa`, if it exists, and records
    /// `timestamp` as its last update. Returns whether the point exists.
    pub fn set_value(&mut self, ioa: u32, value: DataPointValue, timestamp: i64) -> (r: bool)
        ensures
            r == old(self)@.contains_key(ioa),
            r ==> final(self)@ == old(self)@.insert(
                ioa,
                DataPoint { value, timestamp: Some(timestamp), ..old(self)@[ioa] },
            ),
            !r ==> final(self)@ == old(self)@,
    {
        match self.get(ioa) {
            Some(p) => {
                let q = DataPoint { value, timestamp: Some(timestamp), ..p };
                self.insert(q);
                true
            },
            None => false,
        }
    }

    /// All points in increasing IOA order.
    pub fn all_sorted(&self) -> (r: Vec<DataPoint>)
        ensures
            r@ == self.sorted(),
            sorted_by_ioa(r@),
            points_map(r@) == self@,
            r@.len() == self@.len(),
    {
        proof {
            use_type_invariant(self);
            lemma_points_map_len(self.points@);
        }
        self.points.clone()
    }
}

/// Writing `p` at position `i` (replacing a point with the same address, or
/// inserting before the first larger address) updates the map at `p.ioa`.
proof fn lemma_map_after_put(old_s: Seq<DataPoint>, new_s: Seq<DataPoint>, i: int, p: DataPoint)
    requires
        sorted_by_ioa(old_s),
        0 <= i <= old_s.len(),
        forall|j: int| 0 <= j < i ==> #[trigger] old_s[j].ioa < p.ioa,
        i < old_s.len() ==> old_s[i].ioa >= p.ioa,
        (i < old_s.len() && old_s[i].ioa == p.ioa) ==> new_s == old_s.update(i, p),
        !(i < old_s.len() && old_s[i].ioa == p.ioa) ==> new_s == old_s.insert(i, p),
    ensures
        sorted_by_ioa(new_s),
        points_map(new_s) == points_map(old_s).insert(p.ioa, p),
{
    let replaced = i < old_s.len() && old_s[i].ioa == p.ioa;
    // position in new_s of the element old_s[j]
    assert(sorted_by_ioa(new_s)) by {
        assert forall|a: int, b: int| 0 <= a < b < new_s.len() implies #[trigger] new_s[a].ioa
            < #[trigger] new_s[b].ioa by {
            if replaced {
                if a == i {
                    assert(old_s[i].ioa == p.ioa);
                    assert(old_s[a].ioa < old_s[b].ioa);
                } else if b == i {
                    assert(old_s[a].ioa < old_s[b].ioa);
                } else {
                    assert(old_s[a].ioa < old_s[b].ioa);
                }
            } else {
                if b < i {
                    assert(new_s[a] == old_s[a] && new_s[b] == old_s[b]);
                    assert(old_s[a].ioa < old_s[b].ioa);
                } else if b == i {
                    assert(new_s[a] == old_s[a]);
                } else if a == i {
                    assert(new_s[b] == old_s[b - 1]);
                    if b - 1 > i {
                        assert(old_s[i].ioa < old_s[b - 1].ioa);
                    }
                } else if a < i {
                    assert(new_s[a] == old_s[a] && new_s[b] == old_s[b - 1]);
                    assert(old_s[a].ioa < old_s[b - 1].ioa);
                } else {
                    assert(new_s[a] == old_s[a - 1] && new_s[b] == old_s[b - 1]);
                    assert(old_s[a - 1].ioa < old_s[b - 1].ioa);
                }
            }
        }
    }
    let m = points_map(old_s).insert(p.ioa, p);
    assert(points_map(new_s) =~= m) by {
        assert forall|k: u32| #[trigger] points_map(new_s).contains_key(k) implies m.contains_key(k)
            && points_map(new_s)[k] == m[k] by {
            let j = choose|j: int| 0 <= j < new_s.len() && #[trigger] new_s[j].ioa == k;
            lemma_points_map_at(new_s, j);
            if j == i {
                assert(new_s[j] == p);
            } else {
                let oj = if replaced || j < i {
                    j
                } else {
                    j - 1
                };
                assert(new_s[j] == old_s[oj]);
                lemma_points_map_at(old_s, oj);
                if k == p.ioa {
                    lemma_points_map_at(new_s, i);
                }
            }
        }
        assert forall|k: u32| #[trigger] m.contains_key(k) implies points_map(new_s).contains_key(
            k,
        ) by {
            if k == p.ioa {
                assert(new_s[i] == p);
            } else {
                let oj = choose|j: int| 0 <= j < old_s.len() && #[trigger] old_s[j].ioa == k;
                let j = if replaced || oj < i {
                    oj
                } else {
                    oj + 1
                };
                assert(new_s[j] == old_s[oj]);
            }
        }
    }
}

/// Deleting the point at position `i` removes its address from the map.
proof fn lemma_map_after_delete(old_s: Seq<DataPoint>, new_s: Seq<DataPoint>, i: int)
    requires
        sorted_by_ioa(old_s),
        0 <= i < old_s.len(),
        new_s == old_s.remove(i),
    ensures
        sorted_by_ioa(new_s),
        points_map(new_s) == points_map(old_s).remove(old_s[i].ioa),
{
    let k0 = old_s[i].ioa;
    assert(sorted_by_ioa(new_s)) by {
        assert forall|a: int, b: int| 0 <= a < b < new_s.len() implies #[trigger] new_s[a].ioa
            < #[trigger] new_s[b].ioa by {
            let oa = if a < i {
                a
            } else {
                a + 1
            };
            let ob = if b < i {
                b
            } else {
                b + 1
            };
            assert(new_s[a] == old_s[oa] && new_s[b] == old_s[ob]);
            assert(old_s[oa].ioa < old_s[ob].ioa);
        }
    }
    let m = points_map(old_s).remove(k0);
    assert(points_map(new_s) =~= m) by {
        assert forall|k: u32| #[trigger] points_map(new_s).contains_key(k) implies m.contains_key(k)
            && points_map(new_s)[k] == m[k] by {
            let j = choose|j: int| 0 <= j < new_s.len() && #[trigger] new_s[j].ioa == k;
            let oj = if j < i {
                j
            } else {
                j + 1
            };
            assert(new_s[j] == old_s[oj]);
            assert(oj != i);
            if oj < i {
                assert(old_s[oj].ioa < old_s[i].ioa);
            } else {
                assert(old_s[i].ioa < old_s[oj].ioa);
            }
            lemma_points_map_at(old_s, oj);
            lemma_points_map_at(new_s, j);
        }
        assert forall|k: u32| #[trigger] m.contains_key(k) implies points_map(new_s).contains_key(k) by {
            let oj = choose|j: int| 0 <= j < old_s.len() && #[trigger] old_s[j].ioa == k;
            assert(oj != i);
            let j = if oj < i {
                oj
            } else {
                oj - 1
            };
            assert(new_s[j] == old_s[oj]);
        }
    }
}

} // verus!
