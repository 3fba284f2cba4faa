use malloc_array::{Allocator, HeapArray, InitIterExt, Store};

#[test]
fn zeroed_array_has_count_and_zero_bytes() {
    let mut al = Allocator::new();
    let arr = HeapArray::<u32>::new(&mut al, 7);
    assert_eq!(arr.len(), 7);
    let bytes = arr.memory();
    assert_eq!(bytes.len(), 28);
    for b in bytes {
        assert_eq!(b, 0);
    }
    let empty = HeapArray::<u64>::new(&mut al, 0);
    assert_eq!(empty.len(), 0);
    assert_eq!(empty.memory().len(), 0);
}

#[test]
fn buffer_round_trip_is_identity() {
    let mut al = Allocator::new();
    let v = vec![5u32, 6, 7, 8];
    let arr = HeapArray::from_vec(&mut al, v.clone());
    assert_eq!(arr.len(), v.len());
    let back = arr.into_vec(&mut al);
    assert_eq!(back, v);

    let words = vec!["alpha".to_owned(), "beta".to_owned()];
    let arr = HeapArray::from_vec(&mut al, words.clone());
    let back = arr.into_vec(&mut al);
    assert_eq!(back, words);
}

#[test]
fn reinterpret_round_trip_keeps_bytes_and_count() {
    let mut al = Allocator::new();
    let arr = HeapArray::<u16>::from_bytes(&mut al, &[1, 2, 3, 4, 5, 6, 7, 8]);
    assert_eq!(arr.len(), 4);
    let bytes0 = arr.memory();

    let arr2 = arr.reinterpret::<u32>();
    assert_eq!(arr2.len(), 2);
    assert_eq!(arr2.memory(), bytes0);

    let arr3 = arr2.reinterpret::<u16>();
    assert_eq!(arr3.len(), 4);
    assert_eq!(arr3.memory(), bytes0);
    assert_eq!(arr3.as_slice(), vec![0x0201u16, 0x0403, 0x0605, 0x0807]);
}

#[test]
fn fill_default_then_drain_yields_defaults_in_order() {
    let mut al = Allocator::new();
    let arr = HeapArray::<u32>::new_uninit(&mut al, 6);
    let arr = arr.initialise().fill_default();
    let mut iter = arr.into_iter();
    let mut count = 0;
    while let Some(x) = iter.next(&mut al) {
        assert_eq!(x, 0u32);
        count += 1;
    }
    assert_eq!(count, 6);
}

#[test]
fn abandoned_iterator_frees_once_and_destroys_rest() {
    let mut al = Allocator::new();
    let arr = HeapArray::from_vec(&mut al, (0..10u32).collect());
    assert_eq!(al.count_live_handles(), 1);
    let mut iter = arr.into_iter();
    for expect in 0..3u32 {
        assert_eq!(iter.next(&mut al), Some(expect));
    }
    let rest = iter.abandon(&mut al);
    assert_eq!(rest, vec![3, 4, 5, 6, 7, 8, 9]);
    assert_eq!(al.count_live_handles(), 0);
}

#[test]
fn filled_and_imported_values_are_exact() {
    let mut al = Allocator::new();
    let arr = HeapArray::new_repeat(&mut al, 4u32, 5);
    assert_eq!(arr.as_slice(), vec![4, 4, 4, 4, 4]);

    let arr = HeapArray::<i32>::from_bytes(&mut al, &[0xff, 0xff, 0xff, 0xff, 0, 0, 0, 0]);
    assert_eq!(arr.as_slice(), vec![-1, 0]);
}

#[test]
fn drained_store_matches_insertion_order_without_leaks() {
    let mut al = Allocator::new();
    let mut store = Store::new();
    for a in 0..10u32 {
        let h = al.malloc(4).unwrap();
        store.ptr(h, a);
    }
    assert_eq!(al.count_live_handles(), 10);
    let ha = store.into_heap_array(&mut al);
    assert_eq!(al.count_live_handles(), 1);
    assert_eq!(ha.as_slice(), vec![0, 1, 2, 3, 4, 5, 6, 7, 8, 9]);
    assert_eq!(ha.dispose(&mut al), 10);
    assert_eq!(al.count_live_handles(), 0);
}

#[test]
fn zero_length_array_is_well_behaved() {
    let mut al = Allocator::new();
    let arr = HeapArray::<u32>::new(&mut al, 0);
    assert_eq!(arr.len(), 0);
    assert!(arr.as_slice().is_empty());
    let mut iter = arr.into_iter();
    assert_eq!(iter.next(&mut al), None);
    assert_eq!(al.count_live_handles(), 0);

    let mut al = Allocator::with_policy(true);
    let arr = HeapArray::<u32>::new(&mut al, 0);
    assert!(arr.as_ptr().is_null());
    assert!(arr.as_slice().is_empty());
    assert_eq!(arr.dispose(&mut al), 0);
    assert_eq!(al.count_live_handles(), 0);
}
