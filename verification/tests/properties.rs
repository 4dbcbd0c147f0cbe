use ord_subset::F32Bits;
use ord_subset::F64Bits;
use ord_subset::OrdSubset;
use ord_subset::OrdSubsetIterExt;
use ord_subset::OrdSubsetSliceExt;
use ord_subset::OrdVar;
use ord_subset::OrderedVal;
use ord_subset::RevOption;
use std::cmp::Ordering;

fn fbits(x: f64) -> F64Bits {
    F64Bits::from_bits(x.to_bits())
}

fn fvec(xs: &[f64]) -> Vec<F64Bits> {
    xs.iter().map(|&x| fbits(x)).collect()
}

#[test]
fn sort_scenario_nan_trailing() {
    let mut v = fvec(&[
        5.0,
        2.0,
        f64::INFINITY,
        3.0,
        5.0,
        7.0,
        27.0,
        f64::NAN,
        f64::NEG_INFINITY,
    ]);
    v.ord_subset_sort();
    let expected = fvec(&[
        f64::NEG_INFINITY,
        2.0,
        3.0,
        5.0,
        5.0,
        7.0,
        27.0,
        f64::INFINITY,
        f64::NAN,
    ]);
    assert_eq!(v, expected);
}

#[test]
fn reduction_scenario() {
    let v = fvec(&[2.0, 3.0, 5.0, f64::NAN]);
    assert_eq!(v.ord_subset_max(), Some(fbits(5.0)));
    assert_eq!(v.ord_subset_min(), Some(fbits(2.0)));
}

#[test]
fn binary_search_scenario() {
    let mut xs: Vec<F64Bits> = fvec(&[
        0., 1., 1., 1., 1., 2., 3., 5., 8., 13., 21., 34., 55.,
    ]);
    xs.push(fbits(f64::NAN));
    xs.push(fbits(f64::NAN));
    assert_eq!(xs.ord_subset_binary_search(&fbits(13.)), Ok(9));
    assert_eq!(xs.ord_subset_binary_search(&fbits(4.)), Err(7));
    assert_eq!(xs.ord_subset_binary_search(&fbits(100.)), Err(13));
    assert_eq!(xs.ord_subset_binary_search(&fbits(f64::INFINITY)), Err(13));
    let r = xs.ord_subset_binary_search(&fbits(1.));
    assert!(match r {
        Ok(i) => (1..=4).contains(&i),
        _ => false,
    });
}

#[test]
fn reductions_absent_iff_all_outside() {
    let empty: Vec<F64Bits> = Vec::new();
    assert_eq!(empty.ord_subset_max(), None);
    assert_eq!(empty.ord_subset_min(), None);

    let all_nan = fvec(&[f64::NAN, f64::NAN, f64::NAN]);
    assert_eq!(all_nan.ord_subset_max(), None);
    assert_eq!(all_nan.ord_subset_min(), None);

    let one_good = fvec(&[f64::NAN, 4.5, f64::NAN]);
    assert_eq!(one_good.ord_subset_max(), Some(fbits(4.5)));
    assert_eq!(one_good.ord_subset_min(), Some(fbits(4.5)));
}

#[test]
fn sort_edge_cases() {
    let mut empty: Vec<F64Bits> = Vec::new();
    empty.ord_subset_sort();
    assert_eq!(empty.len(), 0);

    let mut single = fvec(&[3.5]);
    single.ord_subset_sort();
    assert_eq!(single, fvec(&[3.5]));

    let mut all_nan = fvec(&[f64::NAN, f64::NAN]);
    all_nan.ord_subset_sort();
    assert_eq!(all_nan.len(), 2);
    assert!(all_nan[0].is_outside_order());
    assert!(all_nan[1].is_outside_order());

    let mut zeroes = fvec(&[0.0, -0.0]);
    zeroes.ord_subset_sort();
    // the two zeroes compare equal, so the stable sort keeps their order
    assert_eq!(zeroes[0].to_bits(), 0.0f64.to_bits());
    assert_eq!(zeroes[1].to_bits(), (-0.0f64).to_bits());
}

#[test]
fn sort_equal_elements_kept() {
    let mut v = fvec(&[2.0, 2.0, 1.0, 2.0]);
    v.ord_subset_sort();
    assert_eq!(v, fvec(&[1.0, 2.0, 2.0, 2.0]));
}

#[test]
fn max_returns_latest_tie_min_earliest() {
    // two elements with equal keys but different payloads pin the tie rule
    let v: Vec<i32> = vec![3, -3, 7, -7];
    let max = v.ord_subset_max_by_key(|x: &i32| x.wrapping_abs());
    assert_eq!(max, Some(-7));
    let min = v.ord_subset_min_by_key(|x: &i32| x.wrapping_abs());
    assert_eq!(min, Some(3));
}

#[test]
fn integer_sort_and_search() {
    let mut v: Vec<u64> = vec![9, 1, 8, 2, 7, 3];
    v.ord_subset_sort();
    assert_eq!(v, vec![1, 2, 3, 7, 8, 9]);
    assert_eq!(v.ord_subset_binary_search(&7), Ok(3));
    assert_eq!(v.ord_subset_binary_search(&4), Err(3));
    assert_eq!(v.ord_subset_max(), Some(9));
    assert_eq!(v.ord_subset_min(), Some(1));
}

fn rev_i32(a: &i32, b: &i32) -> Ordering {
    b.cmp(a)
}

#[test]
fn sort_by_comparator() {
    let mut v: Vec<i32> = vec![3, 1, 4, 1, 5];
    v.ord_subset_sort_by(rev_i32);
    assert_eq!(v, vec![5, 4, 3, 1, 1]);
}

#[test]
fn sort_unstable_by_comparator() {
    let mut v: Vec<i32> = vec![2, 9, 4];
    v.ord_subset_sort_unstable_by(rev_i32);
    assert_eq!(v, vec![9, 4, 2]);
}

#[test]
fn option_ordering() {
    let none: Option<i32> = None;
    assert!(!none.is_outside_order());
    assert!(!Some(3).is_outside_order());
    assert!(Some(fbits(f64::NAN)).is_outside_order());
    assert_eq!(none.partial_compare(&Some(3)), Some(Ordering::Less));
    assert_eq!(Some(3).partial_compare(&none), Some(Ordering::Greater));
    assert_eq!(Some(2).partial_compare(&Some(3)), Some(Ordering::Less));
    assert_eq!(none.partial_compare(&none), Some(Ordering::Equal));
    assert_eq!(
        Some(fbits(f64::NAN)).partial_compare(&Some(fbits(1.0))),
        None
    );

    let mut v: Vec<Option<i32>> = vec![Some(3), None, Some(1)];
    v.ord_subset_sort();
    assert_eq!(v, vec![None, Some(1), Some(3)]);
}

#[test]
fn binary_search_by_probe() {
    let v = fvec(&[1.0, 3.0, 5.0, f64::NAN]);
    let r = v.ord_subset_binary_search_by(|e: &F64Bits| {
        f64::from_bits(e.to_bits()).partial_cmp(&3.0).unwrap()
    });
    assert_eq!(r, Ok(1));
    let r2 = v.ord_subset_binary_search_by(|e: &F64Bits| {
        f64::from_bits(e.to_bits()).partial_cmp(&4.0).unwrap()
    });
    assert_eq!(r2, Err(2));
}

#[test]
fn checked_construction_round_trip() {
    let x = fbits(1.5);
    let w = OrdVar::new_checked(x).unwrap();
    assert_eq!(w.into_inner(), x);

    let v = OrdVar::new(fbits(-2.5));
    assert_eq!(v.into_inner(), fbits(-2.5));

    let u = OrdVar::new_unchecked(fbits(0.25));
    assert_eq!(u.into_inner(), fbits(0.25));
}

#[test]
fn checked_construction_rejects_outside_order() {
    assert!(OrdVar::new_checked(fbits(f64::NAN)).is_none());
    assert!(OrdVar::new_checked(fbits(2.0)).is_some());
}

#[test]
fn ord_var_total_comparison() {
    let a = OrdVar::new(fbits(1.0));
    let b = OrdVar::new(fbits(2.0));
    assert_eq!(a.cmp(&b), Ordering::Less);
    assert_eq!(b.cmp(&a), Ordering::Greater);
    assert_eq!(a.cmp(&a), Ordering::Equal);
    assert_eq!(
        OrdVar::new(fbits(0.0)).cmp(&OrdVar::new(fbits(-0.0))),
        Ordering::Equal
    );
}

#[test]
fn ordered_val_construction_and_comparison() {
    let a = OrderedVal::new(fbits(1.0));
    let b = OrderedVal::new_unchecked(fbits(2.0));
    assert_eq!(a.cmp(&b), Ordering::Less);
    assert!(OrderedVal::new_checked(fbits(f64::NAN)).is_none());
    let c = OrderedVal::new_checked(fbits(4.0)).unwrap();
    assert_eq!(c.0, fbits(4.0));
}

#[test]
fn rev_option_total_comparison() {
    let none: RevOption<i32> = RevOption(None);
    let two = RevOption(Some(2));
    let three = RevOption(Some(3));
    assert_eq!(none.cmp(&two), Ordering::Greater);
    assert_eq!(two.cmp(&none), Ordering::Less);
    assert_eq!(two.cmp(&three), Ordering::Less);
    assert_eq!(two.cmp(&two), Ordering::Equal);
    assert!(two == RevOption(Some(2)));
    assert!(two != three);
}

#[test]
fn heterogenous_tuple() {
    let tup = ((), 0u8, 0u16, 0u32, 0u64, 0usize, 0i8, 0i16, 0i32, 0i64, 0isize, 'a');
    assert!(!tup.is_outside_order());
}

#[test]
fn tuple_ordering() {
    let a = (1i32, fbits(2.0));
    let b = (1i32, fbits(3.0));
    let c = (2i32, fbits(0.0));
    assert_eq!(a.partial_compare(&b), Some(Ordering::Less));
    assert_eq!(b.partial_compare(&c), Some(Ordering::Less));
    assert_eq!(c.partial_compare(&a), Some(Ordering::Greater));
    assert_eq!(a.partial_compare(&a), Some(Ordering::Equal));
    assert!((1i32, fbits(f64::NAN)).is_outside_order());
    assert_eq!((1i32, fbits(f64::NAN)).partial_compare(&a), None);
}

#[test]
fn float_classification() {
    assert!(fbits(f64::NAN).is_outside_order());
    assert!(!fbits(f64::INFINITY).is_outside_order());
    assert!(!fbits(f64::NEG_INFINITY).is_outside_order());
    assert!(!fbits(0.0).is_outside_order());
    assert!(F32Bits::from_bits(f32::NAN.to_bits()).is_outside_order());
    assert!(!F32Bits::from_bits(7.5f32.to_bits()).is_outside_order());
}

#[test]
fn float_partial_comparison() {
    assert_eq!(
        fbits(-1.0).partial_compare(&fbits(1.0)),
        Some(Ordering::Less)
    );
    assert_eq!(
        fbits(-1.0).partial_compare(&fbits(-2.0)),
        Some(Ordering::Greater)
    );
    assert_eq!(
        fbits(0.0).partial_compare(&fbits(-0.0)),
        Some(Ordering::Equal)
    );
    assert_eq!(fbits(f64::NAN).partial_compare(&fbits(1.0)), None);
    assert_eq!(fbits(1.0).partial_compare(&fbits(f64::NAN)), None);
    assert_eq!(
        fbits(f64::NEG_INFINITY).partial_compare(&fbits(f64::INFINITY)),
        Some(Ordering::Less)
    );
}

#[test]
fn f32_sort() {
    let mut v: Vec<F32Bits> = [2.5f32, f32::NAN, -1.0, 0.5]
        .iter()
        .map(|x| F32Bits::from_bits(x.to_bits()))
        .collect();
    v.ord_subset_sort_unstable();
    assert_eq!(v[0], F32Bits::from_bits((-1.0f32).to_bits()));
    assert_eq!(v[1], F32Bits::from_bits(0.5f32.to_bits()));
    assert_eq!(v[2], F32Bits::from_bits(2.5f32.to_bits()));
    assert!(v[3].is_outside_order());
}
