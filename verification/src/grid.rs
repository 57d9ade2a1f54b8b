//! The grid: thermal cells, node fields with their aggregate statistics,
//! and node identity on the signed 2D coordinate plane.

pub mod navi;

use vstd::prelude::*;

verus! {

/// One grid node: its identity together with the thermal-field snapshot
/// read from it.
#[derive(Debug, Clone, PartialEq)]
pub struct Node {
    pub id: NodeID,
    pub data: NodeData,
}

/// Identity of a grid node: a pair of signed 16-bit coordinates `(x, y)`,
/// ordered lexicographically and hashable, the sole addressing key.
#[derive(Debug, Clone, Copy, PartialEq, Eq, Structural, PartialOrd, Ord, Hash)]
pub struct NodeID(pub i16, pub i16);

impl NodeID {
    /// Extreme corner sentinel: least x, greatest y.
    pub fn up_left() -> (n: NodeID)
        ensures
            n == NodeID(i16::MIN, i16::MAX),
    {
        NodeID(i16::MIN, i16::MAX)
    }

    /// Edge-middle sentinel at the top of the coordinate space.
    pub fn up_middle() -> (n: NodeID)
        ensures
            n == NodeID(0, i16::MAX),
    {
        NodeID(0, i16::MAX)
    }

    /// Extreme corner sentinel: greatest x, greatest y.
    pub fn up_right() -> (n: NodeID)
        ensures
            n == NodeID(i16::MAX, i16::MAX),
    {
        NodeID(i16::MAX, i16::MAX)
    }

    /// Edge-middle sentinel at the left of the coordinate space.
    pub fn left_middle() -> (n: NodeID)
        ensures
            n == NodeID(i16::MIN, 0),
    {
        NodeID(i16::MIN, 0)
    }

    /// The origin, under its navigation name.
    pub fn situ() -> (n: NodeID)
        ensures
            n == NodeID(0, 0),
    {
        NodeID(0, 0)
    }

    /// The origin of the coordinate space.
    pub fn origin() -> (n: NodeID)
        ensures
            n == NodeID(0, 0),
    {
        NodeID(0, 0)
    }

    /// Edge-middle sentinel at the right of the coordinate space.
    pub fn right_middle() -> (n: NodeID)
        ensures
            n == NodeID(i16::MAX, 0),
    {
        NodeID(i16::MAX, 0)
    }

    /// Extreme corner sentinel: least x, least y.
    pub fn down_left() -> (n: NodeID)
        ensures
            n == NodeID(i16::MIN, i16::MIN),
    {
        NodeID(i16::MIN, i16::MIN)
    }

    /// Edge-middle sentinel at the bottom of the coordinate space.
    pub fn down_middle() -> (n: NodeID)
        ensures
            n == NodeID(0, i16::MIN),
    {
        NodeID(0, i16::MIN)
    }

    /// Extreme corner sentinel: greatest x, least y.
    pub fn down_right() -> (n: NodeID)
        ensures
            n == NodeID(i16::MAX, i16::MIN),
    {
        NodeID(i16::MAX, i16::MIN)
    }
}

impl Default for NodeID {
    /// The default node identity is the origin.
    fn default() -> (n: NodeID)
        ensures
            n == NodeID(0, 0),
    {
        NodeID(0, 0)
    }
}

impl From<(i16, i16)> for NodeID {
    fn from(value: (i16, i16)) -> (n: NodeID)
        ensures
            n == NodeID(value.0, value.1),
    {
        NodeID(value.0, value.1)
    }
}

impl vstd::std_specs::convert::FromSpecImpl<(i16, i16)> for NodeID {
    open spec fn obeys_from_spec() -> bool {
        true
    }

    open spec fn from_spec(value: (i16, i16)) -> NodeID {
        NodeID(value.0, value.1)
    }
}

/// A single spatial temperature sample. Internally a signed 8-bit value;
/// externally addressed through the unsigned absolute encoding of
/// [`Cell::abslute`] and [`Cell::from_abslute`].
#[derive(Debug, Clone, Copy, PartialEq, Eq, Structural, PartialOrd, Ord, Hash)]
pub struct Cell(i8);

/// The signed temperature that decoding an absolute (unsigned) sample
/// yields: values above 127 drop the 127 bias in the unsigned domain (so
/// 255 wraps to -128), values up to 127 drop it in the signed domain.
pub open spec fn decoded_temperature(value: u8) -> i8 {
    if value == 255 {
        -128i8
    } else {
        (value - 127) as i8
    }
}

/// The absolute (unsigned) encoding of a signed temperature: a uniform
/// +128 offset, mapping [-128, 127] onto [0, 255].
pub open spec fn absolute_encoding(temperature: i8) -> u8 {
    (temperature + 128) as u8
}

/// An ordered, fixed-at-snapshot sequence of cells: one node's thermal
/// field. The length is stable within a snapshot; a later snapshot of the
/// same node is fetched whole, never patched in place.
#[derive(Debug, Clone, PartialEq, Eq)]
pub struct NodeData(pub Vec<Cell>);

impl NodeData {
    /// The field as the sequence of its signed temperatures.
    pub open spec fn temperatures(&self) -> Seq<i8> {
        self.0@.map(|_i: int, c: Cell| c.spec_temperature())
    }

    /// Builds a field from raw signed temperatures, in order.
    pub fn from_vec(value: Vec<i8>) -> (d: NodeData)
        ensures
            d.temperatures() =~= value@,
    {
        let mut cells: Vec<Cell> = Vec::new();
        let mut i: usize = 0;
        while i < value.len()
            invariant
                i <= value@.len(),
                cells@.len() == i,
                forall|j: int| 0 <= j < i ==> cells@[j].spec_temperature() == value@[j],
            decreases value@.len() - i,
        {
            cells.push(Cell(value[i]));
            i = i + 1;
        }
        NodeData(cells)
    }

    pub fn len(&self) -> (n: usize)
        ensures
            n == self.temperatures().len(),
    {
        self.0.len()
    }

    /// Decodes a node's thermal field from its wire form: one absolute
    /// (unsigned) sample per byte, in order.
    pub fn from_absolute_bytes(bytes: &Vec<u8>) -> (d: NodeData)
        ensures
            d.temperatures().len() == bytes@.len(),
            forall|j: int|
                0 <= j < bytes@.len() ==> d.temperatures()[j] == decoded_temperature(
                    #[trigger] bytes@[j],
                ),
    {
        let mut cells: Vec<Cell> = Vec::new();
        let mut i: usize = 0;
        while i < bytes.len()
            invariant
                i <= bytes@.len(),
                cells@.len() == i,
                forall|j: int|
                    0 <= j < i ==> cells@[j].spec_temperature() == decoded_temperature(
                        #[trigger] bytes@[j],
                    ),
            decreases bytes@.len() - i,
        {
            cells.push(Cell::from_abslute(bytes[i]));
            i = i + 1;
        }
        NodeData(cells)
    }

    /// The frequency distribution of the field's distinct temperature
    /// values: one entry per distinct value, in order of first
    /// occurrence, with its exact occurrence count. This is the discrete
    /// distribution that the field's Shannon entropy is taken over.
    pub fn frequencies(&self) -> (freq: Vec<(i8, usize)>)
        ensures
            is_frequency_table(self.temperatures(), freq@),
    {
        let temps_len = self.0.len();
        let mut freq: Vec<(i8, usize)> = Vec::new();
        let mut i: usize = 0;
        while i < temps_len
            invariant
                temps_len == self.temperatures().len(),
                i <= temps_len,
                forall|j: int|
                    #![trigger freq@[j]]
                    0 <= j < freq@.len() ==> freq@[j].1 == occurrence_count(
                        self.temperatures(),
                        freq@[j].0,
                    ) && freq@[j].1 >= 1 && self.temperatures().contains(freq@[j].0),
                table_keys(freq@).no_duplicates(),
                forall|k: int|
                    0 <= k < i ==> table_keys(freq@).contains(
                        #[trigger] self.temperatures()[k],
                    ),
            decreases temps_len - i,
        {
            let t = self.0[i].temperature();
            let mut j: usize = 0;
            while j < freq.len() && freq[j].0 != t
                invariant
                    j <= freq@.len(),
                    forall|j2: int| 0 <= j2 < j ==> (#[trigger] freq@[j2]).0 != t,
                decreases freq@.len() - j,
            {
                j = j + 1;
            }
            if j < freq.len() {
                proof {
                    assert(table_keys(freq@)[j as int] == t);
                    assert(table_keys(freq@).contains(self.temperatures()[i as int]));
                }
            } else {
                let mut count: usize = 0;
                let mut k: usize = 0;
                while k < temps_len
                    invariant
                        temps_len == self.temperatures().len(),
                        k <= temps_len,
                        i < temps_len,
                        count == occurrence_count(self.temperatures().take(k as int), t),
                        count <= k,
                        self.temperatures()[i as int] == t,
                        k > i ==> count >= 1,
                    decreases temps_len - k,
                {
                    proof {
                        assert(self.temperatures().take(k as int + 1).drop_last()
                            =~= self.temperatures().take(k as int));
                        assert(self.temperatures().take(k as int + 1).last()
                            == self.temperatures()[k as int]);
                    }
                    if self.0[k].temperature() == t {
                        count = count + 1;
                    }
                    k = k + 1;
                }
                proof {
                    assert(self.temperatures().take(temps_len as int) =~= self.temperatures());
                    assert(self.temperatures().contains(t)) by {
                        assert(self.temperatures()[i as int] == t);
                    }
                }
                let ghost old_keys = table_keys(freq@);
                freq.push((t, count));
                proof {
                    assert(table_keys(freq@) =~= old_keys.push(t));
                    assert(forall|j2: int|
                        0 <= j2 < old_keys.len() ==> #[trigger] old_keys[j2] != t);
                    assert(table_keys(freq@).no_duplicates());
                    assert forall|k2: int| 0 <= k2 < i + 1 implies table_keys(freq@).contains(
                        #[trigger] self.temperatures()[k2],
                    ) by {
                        if k2 < i {
                            assert(old_keys.contains(self.temperatures()[k2]));
                            let jw = choose|jw: int|
                                0 <= jw < old_keys.len() && old_keys[jw]
                                    == self.temperatures()[k2];
                            assert(table_keys(freq@)[jw] == self.temperatures()[k2]);
                        } else {
                            assert(table_keys(freq@)[old_keys.len() as int] == t);
                        }
                    }
                }
            }
            i = i + 1;
        }
        freq
    }

    /// The index and cell of the hottest sample, by signed temperature,
    /// first occurrence winning a tie. An empty field is a contract
    /// violation, not a defaulted case.
    pub fn hotest(&self) -> (r: (usize, Cell))
        requires
            self.temperatures().len() > 0,
        ensures
            r.0 < self.temperatures().len(),
            r.1.spec_temperature() == self.temperatures()[r.0 as int],
            forall|j: int|
                0 <= j < self.temperatures().len() ==> self.temperatures()[j]
                    <= r.1.spec_temperature(),
            forall|j: int| 0 <= j < r.0 ==> self.temperatures()[j] < r.1.spec_temperature(),
    {
        let mut i_max: usize = 0;
        let mut c_max: Cell = self.0[0];
        let mut i: usize = 1;
        while i < self.0.len()
            invariant
                1 <= i <= self.temperatures().len(),
                i_max < i,
                c_max.spec_temperature() == self.temperatures()[i_max as int],
                forall|j: int| 0 <= j < i ==> self.temperatures()[j] <= c_max.spec_temperature(),
                forall|j: int| 0 <= j < i_max ==> self.temperatures()[j] < c_max.spec_temperature(),
            decreases self.temperatures().len() - i,
        {
            if self.0[i].0 > c_max.0 {
                i_max = i;
                c_max = self.0[i];
            }
            i = i + 1;
        }
        (i_max, c_max)
    }

    /// The index and cell of the coldest sample, by signed temperature,
    /// first occurrence winning a tie.
    pub fn coldest(&self) -> (r: (usize, Cell))
        requires
            self.temperatures().len() > 0,
        ensures
            r.0 < self.temperatures().len(),
            r.1.spec_temperature() == self.temperatures()[r.0 as int],
            forall|j: int|
                0 <= j < self.temperatures().len() ==> self.temperatures()[j]
                    >= r.1.spec_temperature(),
            forall|j: int| 0 <= j < r.0 ==> self.temperatures()[j] > r.1.spec_temperature(),
    {
        let mut i_min: usize = 0;
        let mut c_min: Cell = self.0[0];
        let mut i: usize = 1;
        while i < self.0.len()
            invariant
                1 <= i <= self.temperatures().len(),
                i_min < i,
                c_min.spec_temperature() == self.temperatures()[i_min as int],
                forall|j: int| 0 <= j < i ==> self.temperatures()[j] >= c_min.spec_temperature(),
                forall|j: int| 0 <= j < i_min ==> self.temperatures()[j] > c_min.spec_temperature(),
            decreases self.temperatures().len() - i,
        {
            if self.0[i].0 < c_min.0 {
                i_min = i;
                c_min = self.0[i];
            }
            i = i + 1;
        }
        (i_min, c_min)
    }
}

/// Number of occurrences of `v` in `s`.
pub open spec fn occurrence_count(s: Seq<i8>, v: i8) -> nat
    decreases s.len(),
{
    if s.len() == 0 {
        0
    } else {
        occurrence_count(s.drop_last(), v) + (if s.last() == v {
            1nat
        } else {
            0nat
        })
    }
}

/// The values a frequency table lists, in table order.
pub open spec fn table_keys(freq: Seq<(i8, usize)>) -> Seq<i8> {
    freq.map_values(|p: (i8, usize)| p.0)
}

/// What a frequency table promises of a field: every entry carries the
/// exact occurrence count of its value and at least one occurrence, no
/// value is tabled twice, every sample's value is tabled, and every
/// tabled value occurs in the field. These laws pin the table down up to
/// the order of its entries.
pub open spec fn is_frequency_table(temps: Seq<i8>, freq: Seq<(i8, usize)>) -> bool {
    &&& forall|j: int|
        #![trigger freq[j]]
        0 <= j < freq.len() ==> freq[j].1 == occurrence_count(temps, freq[j].0) && freq[j].1 >= 1
            && temps.contains(freq[j].0)
    &&& table_keys(freq).no_duplicates()
    &&& forall|k: int|
        0 <= k < temps.len() ==> table_keys(freq).contains(#[trigger] temps[k])
}

/// A value absent from a sequence occurs zero times in it.
pub proof fn lemma_occurrence_count_absent(s: Seq<i8>, v: i8)
    requires
        !s.contains(v),
    ensures
        occurrence_count(s, v) == 0,
    decreases s.len(),
{
    if s.len() > 0 {
        assert(forall|i: int| 0 <= i < s.len() - 1 ==> s.drop_last()[i] == s[i]);
        lemma_occurrence_count_absent(s.drop_last(), v);
    }
}

/// In a sequence without duplicates no value occurs more than once.
pub proof fn lemma_occurrence_count_no_duplicates(s: Seq<i8>, v: i8)
    requires
        s.no_duplicates(),
    ensures
        occurrence_count(s, v) <= 1,
    decreases s.len(),
{
    if s.len() > 0 {
        assert(s.drop_last().no_duplicates());
        if s.last() == v {
            assert(!s.drop_last().contains(v));
            lemma_occurrence_count_absent(s.drop_last(), v);
        } else {
            lemma_occurrence_count_no_duplicates(s.drop_last(), v);
        }
    }
}

/// In a sequence whose elements are all `v`, `v` occurs at every
/// position.
pub proof fn lemma_occurrence_count_uniform(s: Seq<i8>, v: i8)
    requires
        forall|i: int| 0 <= i < s.len() ==> #[trigger] s[i] == v,
    ensures
        occurrence_count(s, v) == s.len(),
    decreases s.len(),
{
    if s.len() > 0 {
        lemma_occurrence_count_uniform(s.drop_last(), v);
    }
}

/// Entropy bound, degenerate side: a non-empty field whose samples are
/// all identical has exactly one frequency class, holding every sample.
/// Its distribution is the point mass whose Shannon entropy is zero.
pub proof fn lemma_uniform_field_single_class(temps: Seq<i8>, freq: Seq<(i8, usize)>)
    requires
        temps.len() > 0,
        forall|i: int| 0 <= i < temps.len() ==> #[trigger] temps[i] == temps[0],
        is_frequency_table(temps, freq),
    ensures
        freq.len() == 1,
        freq[0].1 == temps.len(),
{
    let keys = table_keys(freq);
    assert(keys.contains(temps[0]));
    assert(freq.len() >= 1);
    if freq.len() > 1 {
        assert(keys[0] != keys[1]);
        assert(temps.contains(freq[0].0) && temps.contains(freq[1].0));
        let k0 = choose|k: int| 0 <= k < temps.len() && temps[k] == freq[0].0;
        let k1 = choose|k: int| 0 <= k < temps.len() && temps[k] == freq[1].0;
        assert(temps[k0] == temps[0] && temps[k1] == temps[0]);
        assert(false);
    }
    assert(keys[0] == temps[0]);
    lemma_occurrence_count_uniform(temps, temps[0]);
}

/// Entropy bound, maximal side: a field whose samples are pairwise
/// distinct has one frequency class per sample, each of count one. Its
/// distribution is uniform over the field's length, the shape of maximal
/// Shannon entropy.
pub proof fn lemma_distinct_field_unit_classes(temps: Seq<i8>, freq: Seq<(i8, usize)>)
    requires
        temps.no_duplicates(),
        is_frequency_table(temps, freq),
    ensures
        freq.len() == temps.len(),
        forall|j: int| 0 <= j < freq.len() ==> (#[trigger] freq[j]).1 == 1,
{
    assert forall|j: int| 0 <= j < freq.len() implies (#[trigger] freq[j]).1 == 1 by {
        lemma_occurrence_count_no_duplicates(temps, freq[j].0);
    }
    let keys = table_keys(freq);
    assert(keys.to_set() =~= temps.to_set()) by {
        assert forall|v: i8| keys.to_set().contains(v) implies temps.to_set().contains(v) by {
            let j = choose|j: int| 0 <= j < keys.len() && keys[j] == v;
            assert(temps.contains(freq[j].0));
        }
        assert forall|v: i8| temps.to_set().contains(v) implies keys.to_set().contains(v) by {
            let k = choose|k: int| 0 <= k < temps.len() && temps[k] == v;
            assert(keys.contains(temps[k]));
        }
    }
    keys.unique_seq_to_set();
    temps.unique_seq_to_set();
}

/// A frequency table never has more classes than the field has samples:
/// the bound that caps the distribution's Shannon entropy at the
/// logarithm of the field's length.
pub proof fn lemma_table_classes_le_len(temps: Seq<i8>, freq: Seq<(i8, usize)>)
    requires
        is_frequency_table(temps, freq),
    ensures
        freq.len() <= temps.len(),
{
    broadcast use vstd::seq_lib::seq_to_set_is_finite;

    let keys = table_keys(freq);
    keys.unique_seq_to_set();
    assert(keys.to_set().subset_of(temps.to_set())) by {
        assert forall|v: i8| keys.to_set().contains(v) implies temps.to_set().contains(v) by {
            let j = choose|j: int| 0 <= j < keys.len() && keys[j] == v;
            assert(temps.contains(freq[j].0));
        }
    }
    vstd::set_lib::lemma_len_subset(keys.to_set(), temps.to_set());
    temps.lemma_cardinality_of_set();
}

/// The boundary identity at the 127/128 seam of the absolute encoding:
/// the coldest decodable absolute sample, zero, decodes to -127.
pub proof fn lemma_cold_boundary_decoding()
    ensures
        decoded_temperature(0) == -127i8,
{
}

impl Cell {
    /// The sample's signed temperature.
    pub closed spec fn spec_temperature(&self) -> i8 {
        self.0
    }

    /// Wraps a signed temperature; the full signed 8-bit range is valid.
    pub fn new(value: i8) -> (c: Cell)
        ensures
            c.spec_temperature() == value,
    {
        Cell(value)
    }

    /// Decodes an absolute (unsigned) sample into a cell. The two branches
    /// carry asymmetric offsets (`- 127u8` against `- 127i8`); they are
    /// kept bit-exact, including the wrap of 255 to -128.
    pub fn from_abslute(value: u8) -> (c: Cell)
        ensures
            c.spec_temperature() == decoded_temperature(value),
    {
        if value == 255u8 {
            Cell(-128i8)
        } else if value > 127u8 {
            Cell((value - 127u8) as i8)
        } else {
            Cell(value as i8 - 127i8)
        }
    }

    pub fn temperature(&self) -> (t: i8)
        ensures
            t == self.spec_temperature(),
    {
        self.0
    }

    /// The absolute (unsigned) encoding of this cell: negative values are
    /// offset from the signed minimum, non-negative values by 128; both
    /// branches amount to a uniform +128 offset.
    pub fn abslute(&self) -> (r: u8)
        ensures
            r == absolute_encoding(self.spec_temperature()),
    {
        if self.0 < 0 {
            (self.0 - i8::MIN) as u8
        } else {
            self.0 as u8 + 128u8
        }
    }
}

} // verus!
