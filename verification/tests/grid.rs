use entropy_sdk::grid::navi;
use entropy_sdk::grid::Cell;
use entropy_sdk::grid::NodeData;
use entropy_sdk::grid::NodeID;

/// Shannon entropy in bits of a field's value distribution, computed from
/// the verified frequency table.
fn entropy(data: &NodeData) -> f64 {
    let len = data.len() as f64;
    let mut h = 0.0f64;
    for (_, count) in data.frequencies() {
        let p = count as f64 / len;
        if p > 0.0 {
            h -= p * (p.ln() / std::f64::consts::LN_2);
        }
    }
    h
}

#[test]
fn cell_boundary_identity() {
    let t = Cell::new(-127);
    let k = Cell::from_abslute(0);
    assert_eq!(t, k);
}

#[test]
fn cell_decoding_values() {
    assert_eq!(Cell::from_abslute(0).temperature(), -127);
    assert_eq!(Cell::from_abslute(1).temperature(), -126);
    assert_eq!(Cell::from_abslute(127).temperature(), 0);
    assert_eq!(Cell::from_abslute(128).temperature(), 1);
    assert_eq!(Cell::from_abslute(254).temperature(), 127);
    assert_eq!(Cell::from_abslute(255).temperature(), -128);
}

#[test]
fn cell_absolute_encoding_values() {
    assert_eq!(Cell::new(-128).abslute(), 0);
    assert_eq!(Cell::new(-127).abslute(), 1);
    assert_eq!(Cell::new(-1).abslute(), 127);
    assert_eq!(Cell::new(0).abslute(), 128);
    assert_eq!(Cell::new(127).abslute(), 255);
}

#[test]
fn cell_temperature_reads_back() {
    assert_eq!(Cell::new(42).temperature(), 42);
    assert_eq!(Cell::new(-42).temperature(), -42);
}

#[test]
fn hotest_takes_first_index_on_tie() {
    let d = NodeData::from_vec(vec![3i8, 1, 3, 2]);
    let (i, c) = d.hotest();
    assert_eq!(i, 0);
    assert_eq!(c.temperature(), 3);
}

#[test]
fn coldest_takes_first_index_on_tie() {
    let d = NodeData::from_vec(vec![3i8, 1, 1, 2]);
    let (i, c) = d.coldest();
    assert_eq!(i, 1);
    assert_eq!(c.temperature(), 1);
}

#[test]
fn extrema_on_single_sample() {
    let d = NodeData::from_vec(vec![-5i8]);
    assert_eq!(d.hotest(), (0, Cell::new(-5)));
    assert_eq!(d.coldest(), (0, Cell::new(-5)));
}

#[test]
fn extrema_use_signed_ordering() {
    // On the absolute scale -1 encodes to 127 and 1 to 129; the extrema
    // must order by signed temperature, not by the encoding.
    let d = NodeData::from_vec(vec![-1i8, 1]);
    assert_eq!(d.hotest().1.temperature(), 1);
    assert_eq!(d.coldest().1.temperature(), -1);
}

#[test]
fn entropy_of_distinct_values() {
    let d = NodeData::from_vec(vec![1i8, 2, 3, 4, 5]);
    assert_eq!(entropy(&d), 2.321928094887362);
}

#[test]
fn entropy_of_identical_values() {
    let d = NodeData::from_vec(vec![1i8, 1, 1, 1, 1]);
    assert_eq!(entropy(&d), 0.0);
}

#[test]
fn entropy_bounds_on_mixed_field() {
    let d = NodeData::from_vec(vec![7i8, 7, 3, 3, 3, -4, 0, 0]);
    let h = entropy(&d);
    let distinct = d.frequencies().len() as f64;
    assert!(h >= 0.0);
    assert!(h <= distinct.log2() + 1e-12);
}

#[test]
fn frequencies_count_every_occurrence() {
    let d = NodeData::from_vec(vec![5i8, -3, 5, 5, -3, 9]);
    let freq = d.frequencies();
    assert_eq!(freq, vec![(5, 3), (-3, 2), (9, 1)]);
}

#[test]
fn from_vec_keeps_order_and_length() {
    let d = NodeData::from_vec(vec![9i8, -9, 0]);
    assert_eq!(d.len(), 3);
    assert_eq!(d.hotest(), (0, Cell::new(9)));
    assert_eq!(d.coldest(), (1, Cell::new(-9)));
}

#[test]
fn from_absolute_bytes_decodes_each_sample() {
    let d = NodeData::from_absolute_bytes(&vec![0u8, 127, 128, 255]);
    assert_eq!(d.len(), 4);
    let freq = d.frequencies();
    assert_eq!(freq, vec![(-127, 1), (0, 1), (1, 1), (-128, 1)]);
}

#[test]
fn node_id_from_pair_and_default() {
    let id = NodeID::from((3i16, -4i16));
    assert_eq!(id, NodeID(3, -4));
    assert_eq!(NodeID::default(), NodeID(0, 0));
}

#[test]
fn node_id_orders_lexicographically() {
    assert!(NodeID(0, 5) < NodeID(1, -5));
    assert!(NodeID(1, -5) < NodeID(1, 5));
}

#[test]
fn node_id_sentinels_mark_the_extremes() {
    assert_eq!(NodeID::up_left(), NodeID(i16::MIN, i16::MAX));
    assert_eq!(NodeID::up_middle(), NodeID(0, i16::MAX));
    assert_eq!(NodeID::up_right(), NodeID(i16::MAX, i16::MAX));
    assert_eq!(NodeID::left_middle(), NodeID(i16::MIN, 0));
    assert_eq!(NodeID::situ(), NodeID(0, 0));
    assert_eq!(NodeID::origin(), NodeID(0, 0));
    assert_eq!(NodeID::right_middle(), NodeID(i16::MAX, 0));
    assert_eq!(NodeID::down_left(), NodeID(i16::MIN, i16::MIN));
    assert_eq!(NodeID::down_middle(), NodeID(0, i16::MIN));
    assert_eq!(NodeID::down_right(), NodeID(i16::MAX, i16::MIN));
}

#[test]
fn navi_vocabulary() {
    assert_eq!(navi::SITU, (0, 0));
    assert_eq!(navi::UP, (0, 1));
    assert_eq!(navi::DOWN, (0, -1));
    assert_eq!(navi::LEFT, (-1, 0));
    assert_eq!(navi::RIGHT, (1, 0));
    assert_eq!(navi::UP_LEFT, (-1, 1));
    assert_eq!(navi::UP_RIGHT, (1, 1));
    assert_eq!(navi::DOWN_LEFT, (-1, -1));
    assert_eq!(navi::DOWN_RIGHT, (1, -1));
}

#[test]
fn indexed_navi_is_row_major_from_top() {
    assert_eq!(
        navi::INDEXED_NAVI,
        [
            (-1, 1),
            (0, 1),
            (1, 1),
            (-1, 0),
            (0, 0),
            (1, 0),
            (-1, -1),
            (0, -1),
            (1, -1),
        ]
    );
}

#[test]
fn allowed_navi_is_the_cardinal_subset() {
    assert_eq!(navi::ALLOWED_NAVI, [(-1, 0), (1, 0), (0, -1), (0, 1)]);
    for d in navi::ALLOWED_NAVI {
        assert!(navi::allowed_step(d));
    }
    assert!(!navi::allowed_step(navi::SITU));
    assert!(!navi::allowed_step(navi::UP_LEFT));
    assert!(!navi::allowed_step(navi::UP_RIGHT));
    assert!(!navi::allowed_step(navi::DOWN_LEFT));
    assert!(!navi::allowed_step(navi::DOWN_RIGHT));
    assert!(!navi::allowed_step((10000, 0)));
    assert!(!navi::allowed_step((2, 0)));
}
