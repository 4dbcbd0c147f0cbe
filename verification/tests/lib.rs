use ord_subset::F32Bits;
use ord_subset::F64Bits;
use ord_subset::OrdSubset;
use ord_subset::OrdSubsetIterExt;
use ord_subset::OrdSubsetSliceExt;
use ord_subset::RevOption;
use std::cmp::Ordering;

fn fb(x: f64) -> F64Bits {
    F64Bits::from_bits(x.to_bits())
}

fn fbv(xs: &[f64]) -> Vec<F64Bits> {
    xs.iter().map(|&x| fb(x)).collect()
}

fn test_array() -> Vec<F64Bits> {
    fbv(&[
        1.0,
        7.0,
        26.0,
        f64::INFINITY,
        f64::NAN,
        0.0,
        14.0,
        17.0,
        27.0,
        13.0,
        10.0,
        3.0,
        f64::NAN,
        25.0,
        9.0,
        20.0,
        16.0,
        8.0,
        f64::NEG_INFINITY,
        4.0,
        2.0,
        22.0,
        18.0,
        21.0,
        15.0,
        6.0,
        24.0,
        19.0,
        12.0,
        11.0,
        5.0,
        23.0,
    ])
}

fn sorted_no_nan() -> Vec<F64Bits> {
    fbv(&[
        f64::NEG_INFINITY,
        0.0,
        1.0,
        2.0,
        3.0,
        4.0,
        5.0,
        6.0,
        7.0,
        8.0,
        9.0,
        10.0,
        11.0,
        12.0,
        13.0,
        14.0,
        15.0,
        16.0,
        17.0,
        18.0,
        19.0,
        20.0,
        21.0,
        22.0,
        23.0,
        24.0,
        25.0,
        26.0,
        27.0,
        f64::INFINITY,
    ])
}

fn sorted_with_nan() -> Vec<F64Bits> {
    let mut v = sorted_no_nan();
    v.push(fb(f64::NAN));
    v.push(fb(f64::NAN));
    v
}

fn key_function(el: &F64Bits) -> F64Bits {
    fb((f64::from_bits(el.to_bits()) - 13.0).recip())
}

fn key_as_f64(el: &F64Bits) -> f64 {
    f64::from_bits(key_function(el).to_bits())
}

// A reference result for the key-based sorts: the elements whose key is not
// NaN, stable-sorted by their key with plain floating-point comparison.
fn sorted_by_key_reference() -> Vec<F64Bits> {
    let mut out: Vec<F64Bits> = Vec::new();
    for el in test_array() {
        let k = key_as_f64(&el);
        if k.is_nan() {
            continue;
        }
        let mut pos = 0;
        while pos < out.len() && key_as_f64(&out[pos]) <= k {
            pos += 1;
        }
        out.insert(pos, el);
    }
    out
}

#[test]
fn ord_subset_max() {
    let arr = fbv(&[2.0, 3.0, 5.0, f64::NAN]);
    let max = arr.ord_subset_max().unwrap();
    assert_eq!(fb(5.0), max);
}

#[test]
fn ord_subset_max_by() {
    let arr = fbv(&[2.0, 3.0, 5.0, f64::NAN]);
    let max_by = arr
        .ord_subset_max_by_key(|num: &F64Bits| fb(f64::from_bits(num.to_bits()).recip()))
        .unwrap();
    assert_eq!(fb(2.0), max_by);
}

#[test]
fn ord_subset_min() {
    let arr = fbv(&[2.0, 3.0, 5.0, f64::NAN]);
    let min = arr.ord_subset_min().unwrap();
    assert_eq!(fb(2.0), min);
}

#[test]
fn ord_subset_min_by() {
    let arr = fbv(&[2.0, 3.0, 5.0, f64::NAN]);
    let min_by = arr
        .ord_subset_min_by_key(|num: &F64Bits| fb(f64::from_bits(num.to_bits()).recip()))
        .unwrap();
    assert_eq!(fb(5.0), min_by);
}

#[test]
fn sort() {
    let mut array = test_array();
    array.ord_subset_sort();
    assert_eq!(&array[0..30], &sorted_no_nan()[..]);
}

#[test]
fn sort_rev() {
    let mut array = test_array();
    array.ord_subset_sort_rev();

    let mut rev_sorted_array = sorted_no_nan();
    rev_sorted_array.reverse();

    assert_eq!(&array[0..30], &rev_sorted_array[..]);
}

#[test]
fn sort_by_key() {
    let mut array = test_array();
    array.ord_subset_sort_by_key(key_function);
    let std_sorted_array = sorted_by_key_reference();
    assert_eq!(&array[..30], &std_sorted_array[..]);
}

#[test]
fn sort_unstable() {
    let mut array = test_array();
    array.ord_subset_sort_unstable();
    assert_eq!(&array[0..30], &sorted_no_nan()[..]);
}

#[test]
fn sort_unstable_rev() {
    let mut array = test_array();
    array.ord_subset_sort_unstable_rev();

    let mut rev_sorted_array = sorted_no_nan();
    rev_sorted_array.reverse();

    assert_eq!(&array[0..30], &rev_sorted_array[..]);
}

#[test]
fn sort_unstable_by_key() {
    let mut array = test_array();
    array.ord_subset_sort_unstable_by_key(key_function);
    let std_sorted_array = sorted_by_key_reference();
    assert_eq!(&array[..30], &std_sorted_array[..]);
}

#[test]
fn binary_search() {
    let array = sorted_with_nan();
    for (i, num) in array.iter().enumerate().take(30) {
        assert_eq!(array.ord_subset_binary_search(num), Ok(i));
    }
}

#[test]
fn binary_search_rev() {
    let mut array = test_array();
    array.ord_subset_sort_unstable_rev();
    for i in 0..30 {
        let num = array[i];
        assert_eq!(array.ord_subset_binary_search_rev(&num), Ok(i));
    }
}

#[test]
fn binary_search_by_key() {
    let mut array = test_array();
    array.ord_subset_sort_unstable_by_key(key_function);
    for i in 0..30 {
        let key = key_function(&array[i]);
        match array.ord_subset_binary_search_by_key(&key, key_function) {
            Err(_) => panic!("Did not find correct location of element"),
            Ok(pos) => assert_eq!(
                f64::from_bits(key_function(&array[pos]).to_bits()),
                f64::from_bits(key.to_bits())
            ),
        }
    }
}

#[test]
fn binary_search_err() {
    let array = sorted_with_nan();
    for (i, num) in array
        .iter()
        .enumerate()
        .filter(|&(_, num)| f64::from_bits(num.to_bits()).is_finite())
    {
        let new_num = fb(f64::from_bits(num.to_bits()) + 0.5);
        assert_eq!(array.ord_subset_binary_search(&new_num), Err(i + 1));
    }
}

#[test]
fn binary_search_rev_err() {
    let mut array = test_array();
    array.ord_subset_sort_unstable_rev();
    for i in 0..array.len() {
        let num = array[i];
        if !f64::from_bits(num.to_bits()).is_finite() {
            continue;
        }
        let new_num = fb(f64::from_bits(num.to_bits()) + 0.5);
        assert_eq!(array.ord_subset_binary_search_rev(&new_num), Err(i));
    }
}

#[test]
fn binary_search_by_key_err() {
    let mut array = test_array();
    array.ord_subset_sort_unstable_by_key(key_function);
    for i in 0..30 {
        let num = f64::from_bits(array[i].to_bits());
        let key_diff = (num + 0.01 - 13.0).recip() * 1.01 + 0.01;
        let pos = array.ord_subset_binary_search_by_key(&fb(key_diff), key_function);
        // The index at which the key could be inserted, found by scanning
        // the elements whose key is inside the order.
        let mut pos_scan = 0;
        for j in 0..30 {
            if key_as_f64(&array[j]) < key_diff {
                pos_scan = j + 1;
            }
        }
        match pos {
            Err(pos) => assert!(pos == pos_scan),
            _ => panic!("Inconsistency between this library's and std's binary_search_by_key"),
        }
    }
}

#[derive(Debug)]
struct Foo {
    property: f32,
}

#[test]
fn binary_search_lifetime() {
    let xs = vec![
        Foo { property: 1. },
        Foo { property: 2. },
        Foo { property: 3. },
    ];

    let _r = xs.ord_subset_binary_search_by_key(
        &F32Bits::from_bits(2.0f32.to_bits()),
        |entry: &Foo| F32Bits::from_bits(entry.property.to_bits()),
    );
}

#[test]
fn slice() {
    let a = [0u8; 32];
    assert!(!a.is_outside_order());
    assert!(!(&a).is_outside_order());
}

#[test]
fn vec_lexicographic_order() {
    let a: Vec<u8> = vec![1, 2, 3];
    let b: Vec<u8> = vec![1, 2, 4];
    let c: Vec<u8> = vec![1, 2];
    assert_eq!(a.partial_compare(&b), Some(Ordering::Less));
    assert_eq!(b.partial_compare(&a), Some(Ordering::Greater));
    assert_eq!(c.partial_compare(&a), Some(Ordering::Less));
    assert_eq!(a.partial_compare(&a), Some(Ordering::Equal));
    let with_nan = vec![ord_subset::F64Bits::from_bits(f64::NAN.to_bits())];
    assert!(with_nan.is_outside_order());
    assert_eq!(
        with_nan.partial_compare(&vec![ord_subset::F64Bits::from_bits(1.0f64.to_bits())]),
        None
    );
}

#[test]
fn rev_option() {
    assert!(RevOption::<i32>(None) > RevOption(Some(2)));
    assert!(RevOption::<i32>(None) >= RevOption(Some(2)));
    assert!(!(RevOption::<i32>(None) < RevOption(Some(2))));
}

#[test]
fn normal_option() {
    assert!(None < Some(2));
    assert!(None <= Some(2));
    assert!(!(None > Some(2)));
}
