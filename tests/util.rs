use rsp2::bonds::{BondType, Element, UnsupportedBond};
use rsp2::util::{nest_err, ok, transpose_iter_to_vec, tup2, tup3, write_conf, zip_eq, AtomicCounter, EqualsInConfKey};

#[test]
fn conf_text() {
    let conf = vec![
        (b"BAND".to_vec(), b"0 0 0 1 0 0".to_vec()),
        (b"BAND_POINTS".to_vec(), b"2".to_vec()),
    ];
    assert_eq!(write_conf(&conf).unwrap(), b"BAND = 0 0 0 1 0 0\nBAND_POINTS = 2\n".to_vec());
    assert_eq!(write_conf(&vec![]).unwrap(), Vec::<u8>::new());
    let bad = vec![(b"A=B".to_vec(), b"1".to_vec())];
    assert_eq!(write_conf(&bad), Err(EqualsInConfKey));
}

#[test]
fn transpose_rows() {
    let rows = vec![vec![1, 2, 3], vec![4, 5, 6]];
    assert_eq!(transpose_iter_to_vec(&rows), vec![vec![1, 4], vec![2, 5], vec![3, 6]]);
}

#[test]
fn tuples_and_zip() {
    assert_eq!(tup2([1, 2]), (1, 2));
    assert_eq!(tup3(['a', 'b', 'c']), ('a', 'b', 'c'));
    assert_eq!(zip_eq(&vec![1, 2], &vec!['x', 'y']), vec![(1, 'x'), (2, 'y')]);
    assert_eq!(ok::<u8, ()>(3), Ok(3));
}

#[test]
fn counter_is_shared_between_clones() {
    let c = AtomicCounter::new();
    let d = c.clone();
    assert_eq!(c.get(), 0);
    assert_eq!(c.inc(), 0);
    assert_eq!(d.inc(), 1);
    assert_eq!(c.get(), 2);
}

#[test]
fn bond_types() {
    assert_eq!(BondType::from_elements(Element(6), Element(6)), Ok(BondType::CC));
    assert_eq!(BondType::from_elements(Element(6), Element(1)), Ok(BondType::CH));
    assert_eq!(BondType::from_elements(Element(1), Element(6)), Ok(BondType::CH));
    assert_eq!(BondType::from_elements(Element(1), Element(1)), Ok(BondType::HH));
    assert_eq!(
        BondType::from_elements(Element(6), Element(8)),
        Err(UnsupportedBond { a: Element(6), b: Element(8) })
    );
}

#[test]
fn nest_err_separates_errors() {
    let a: Result<Result<u8, &str>, i32> = nest_err(|| Ok(1));
    assert_eq!(a, Ok(Ok(1)));
    let b: Result<Result<u8, &str>, i32> = nest_err(|| Err(Ok("theirs")));
    assert_eq!(b, Ok(Err("theirs")));
    let c: Result<Result<u8, &str>, i32> = nest_err(|| Err(Err(7)));
    assert_eq!(c, Err(7));
}
