use rsp2::functional::{arr_from_fn, map_arr, opt_arr_from_fn, opt_map_arr, try_arr_from_fn, try_map_arr};
use std::cell::RefCell;
use std::fmt;

/// A value that records itself in a shared list when it is dropped.
struct PushDrop<'a, T: Clone> {
    value: Option<T>,
    vec: &'a RefCell<Vec<T>>,
}

impl<'a, T: Clone> PushDrop<'a, T> {
    fn new(value: T, vec: &'a RefCell<Vec<T>>) -> Self {
        PushDrop { value: Some(value), vec }
    }

    fn into_inner(mut self) -> T {
        self.value.take().unwrap()
    }
}

impl<'a, T: Clone> Drop for PushDrop<'a, T> {
    fn drop(&mut self) {
        if let Some(value) = self.value.take() {
            self.vec.borrow_mut().push(value);
        }
    }
}

impl<'a, T: Clone + PartialEq> PartialEq for PushDrop<'a, T> {
    fn eq(&self, other: &Self) -> bool {
        self.value == other.value
    }
}

impl<'a, T: Clone + fmt::Debug> fmt::Debug for PushDrop<'a, T> {
    fn fmt(&self, f: &mut fmt::Formatter<'_>) -> fmt::Result {
        f.debug_tuple("PushDrop").field(&self.value).finish()
    }
}

#[test]
fn try_vec_from_fn_drop() {
    let vec = RefCell::new(vec![3, 4, 2]);

    // Completely construct something; nothing should get dropped.
    let arr: Result<[PushDrop<'_, i32>; 5], ()> = try_arr_from_fn(|i| Ok(PushDrop::new(i as i32, &vec)));
    assert_eq!(*vec.borrow(), vec![3, 4, 2]);
    std::mem::forget(arr);

    // Interrupt construction with an Err.
    // The successfully added elements should be dropped in reverse.
    let ret: Result<[PushDrop<'_, i32>; 5], _> = try_arr_from_fn(|i| match i {
        3 => Err("lol!"),
        i => Ok(PushDrop::new(i as i32, &vec)),
    });
    assert_eq!(ret, Err("lol!"));
    assert_eq!(*vec.borrow(), vec![3, 4, 2, 2, 1, 0]);
}

#[test]
fn try_map_arr_drop() {
    let vec = RefCell::new(vec![]);
    let make_arr = || -> [PushDrop<'_, i32>; 5] { arr_from_fn(|i| PushDrop::new(i as i32, &vec)) };

    // Completely map something; nothing should get dropped.
    let arr = make_arr();
    let _arr: Result<[PushDrop<'_, i32>; 5], ()> =
        try_map_arr(arr, |x| Ok(PushDrop::new(x.into_inner() + 10, &vec)));

    assert_eq!(*vec.borrow(), vec![]);
    std::mem::forget(_arr);

    // Interrupt construction with an Err.
    // Both the unmapped elements and the successfully mapped
    //   elements should be dropped.
    let arr = make_arr();
    let ret: Result<[PushDrop<'_, i32>; 5], _> = try_map_arr(arr, |x| match x.into_inner() {
        2 => Err("lol!"),
        x => Ok(PushDrop::new(x + 10, &vec)),
    });
    assert_eq!(ret, Err("lol!"));
    vec.borrow_mut().sort();
    assert_eq!(*vec.borrow(), vec![3, 4, 10, 11]);
}

#[test]
fn map_arr_maps_in_place() {
    assert_eq!(map_arr([1, 2, 3], |x: i32| x * 2), [2, 4, 6]);
    assert_eq!(map_arr([1u8, 2, 3], |x: u8| x as u32 + 100), [101, 102, 103]);
}

#[test]
fn arr_from_fn_uses_indices() {
    let arr: [usize; 4] = arr_from_fn(|i| i * i);
    assert_eq!(arr, [0, 1, 4, 9]);
}

#[test]
fn opt_variants_stop_at_none() {
    let all: Option<[usize; 3]> = opt_arr_from_fn(|i| Some(i + 1));
    assert_eq!(all, Some([1, 2, 3]));
    let none: Option<[usize; 3]> = opt_arr_from_fn(|i| if i == 1 { None } else { Some(i) });
    assert_eq!(none, None);
    assert_eq!(opt_map_arr([1, 2, 3], |x: i32| Some(-x)), Some([-1, -2, -3]));
    assert_eq!(opt_map_arr([1, 2, 3], |x: i32| if x == 3 { None } else { Some(x) }), None);
}

#[test]
fn try_map_arr_keeps_order_on_success() {
    let r: Result<[i64; 3], ()> = try_map_arr([5i64, 6, 7], |x| Ok(x - 5));
    assert_eq!(r, Ok([0, 1, 2]));
}
