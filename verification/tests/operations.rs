use malloc_array::{null, Allocator, DynStore, HeapArray, InitIterExt, Store};

#[test]
fn allocator_tracks_blocks() {
    let mut al = Allocator::new();
    assert_eq!(al.count_live_handles(), 0);
    let a = al.malloc(16).unwrap();
    let b = al.calloc(4, 8).unwrap();
    assert!(!a.is_null());
    assert!(!b.is_null());
    assert_ne!(a, b);
    assert_eq!(al.count_live_handles(), 2);
    al.free(a);
    assert_eq!(al.count_live_handles(), 1);
    al.free(null());
    assert_eq!(al.count_live_handles(), 1);
    let c = al.realloc(b, 32).unwrap();
    assert_eq!(al.count_live_handles(), 1);
    al.free(c);
    assert_eq!(al.count_live_handles(), 0);
}

#[test]
fn realloc_of_null_acquires() {
    let mut al = Allocator::new();
    let h = al.realloc(null(), 8).unwrap();
    assert!(!h.is_null());
    assert_eq!(al.count_live_handles(), 1);
    al.free(h);
}

#[test]
fn eliding_policy_short_circuits_zero_sizes() {
    let mut al = Allocator::with_policy(true);
    let z = al.malloc(0).unwrap();
    assert!(z.is_null());
    assert_eq!(al.count_live_handles(), 0);
    let h = al.malloc(8).unwrap();
    let z = al.realloc(h, 0).unwrap();
    assert!(z.is_null());
    assert_eq!(al.count_live_handles(), 0);
}

#[test]
fn resize_keeps_prefix() {
    let mut al = Allocator::new();
    let arr = HeapArray::from_vec(&mut al, vec![1, 2, 3u32]);
    let arr = arr.resize(&mut al, 5);
    assert_eq!(arr.len(), 5);
    assert_eq!(*arr.get(0), 1);
    assert_eq!(*arr.get(1), 2);
    assert_eq!(*arr.get(2), 3);
    let arr = arr.resize(&mut al, 2);
    assert_eq!(arr.len(), 2);
    assert_eq!(arr.as_slice(), vec![1, 2]);
    assert_eq!(al.count_live_handles(), 1);
    arr.free(&mut al);
    assert_eq!(al.count_live_handles(), 0);
}

#[test]
fn set_memory_writes_every_byte() {
    let mut al = Allocator::new();
    let mut arr = HeapArray::<u16>::new_uninit(&mut al, 3);
    arr.set_memory(0xab);
    assert_eq!(arr.memory(), vec![0xab; 6]);
    assert_eq!(arr.as_slice(), vec![0xabab; 3]);
}

#[test]
fn memory_from_bytes_overwrites_prefix() {
    let mut al = Allocator::new();
    let mut arr = HeapArray::<u32>::new(&mut al, 2);
    let copied = arr.memory_from_bytes(&[1, 0, 0, 0, 2, 0, 0, 0, 9]);
    assert_eq!(copied, 8);
    assert_eq!(arr.as_slice(), vec![1, 2]);
    let copied = arr.memory_from_bytes(&[7]);
    assert_eq!(copied, 1);
    assert_eq!(arr.as_slice(), vec![7, 2]);
}

#[test]
fn reinterpret_ref_reads_without_consuming() {
    let mut al = Allocator::new();
    let arr = HeapArray::<u8>::from_bytes(&mut al, &[1, 0, 0, 0]);
    let words: Vec<u32> = arr.reinterpret_ref::<u32>();
    assert_eq!(words, vec![1]);
    assert_eq!(arr.len(), 4);
}

#[test]
fn value_punning_truncates_bytes() {
    assert_eq!(malloc_array::reinterpret::bytes::<u32, u8>(0x04030201), 0x01u8);
    assert_eq!(malloc_array::reinterpret::bytes::<u32, u16>(0x04030201), 0x0201u16);
    assert_eq!(malloc_array::reinterpret::bytes::<i32, u32>(-1), u32::MAX);
}

#[test]
fn arrays_compare_by_length_and_bytes() {
    let mut al = Allocator::new();
    let a = HeapArray::new_repeat(&mut al, 3u32, 4);
    let b = HeapArray::new_repeat(&mut al, 3u32, 4);
    let c = HeapArray::new_repeat(&mut al, 4u32, 4);
    let d = HeapArray::new_repeat(&mut al, 3u32, 5);
    assert!(a.eq_array(&b));
    assert!(!a.eq_array(&c));
    assert!(!a.eq_array(&d));
    let zeroed = HeapArray::<u32>::new(&mut al, 2);
    let filled = HeapArray::new_repeat(&mut al, 0u32, 2);
    assert!(zeroed.eq_array(&filled));
}

#[test]
fn new_range_repeats_the_pattern() {
    let mut al = Allocator::new();
    let arr = HeapArray::new_range(&mut al, &[1, 2, 3u8], 7);
    assert_eq!(arr.as_slice(), vec![1, 2, 3, 1, 2, 3, 1]);
    let arr = HeapArray::new_range(&mut al, &[5u8], 4);
    assert_eq!(arr.as_slice(), vec![5, 5, 5, 5]);
}

#[test]
fn clone_mem_is_an_independent_copy() {
    let mut al = Allocator::new();
    let arr = HeapArray::from_vec(&mut al, vec![1, 2, 3u32]);
    let copy = arr.clone_mem(&mut al);
    assert_ne!(arr.as_ptr(), copy.as_ptr());
    arr.free(&mut al);
    assert_eq!(copy.as_slice(), vec![1, 2, 3]);
    assert_eq!(al.count_live_handles(), 1);
}

#[test]
fn into_slice_moves_into_prefix() {
    let mut al = Allocator::new();
    let arr = HeapArray::from_vec(&mut al, vec![1, 2, 3u32]);
    let mut out = vec![9u32; 5];
    arr.into_slice(&mut al, &mut out);
    assert_eq!(out, vec![1, 2, 3, 9, 9]);
    assert_eq!(al.count_live_handles(), 0);
}

#[test]
fn cursor_tracks_initialisation_state() {
    let mut al = Allocator::new();
    let arr = HeapArray::<u32>::new_uninit(&mut al, 4);
    let mut it = arr.initialise();
    assert!(it.has_next());
    assert!(!it.is_init());
    assert_eq!(it.get(), None);
    it.put(7);
    assert!(it.is_init());
    assert_eq!(it.get(), Some(&7));
    it.put(8);
    assert_eq!(it.get(), Some(&8));
    it.advance();
    it.put(9);
    it.advance();
    let arr = it.uninit();
    assert_eq!(*arr.get(0), 8);
    assert_eq!(*arr.get(1), 9);
    let bytes = arr.memory();
    assert_eq!(&bytes[8..], &[0u8; 8]);
}

#[test]
fn raw_parts_round_trip() {
    let mut al = Allocator::new();
    let arr = HeapArray::from_vec(&mut al, vec![1u8, 2]);
    let handle = arr.as_ptr();
    let (h, slots, dc) = arr.into_raw_parts();
    assert_eq!(h, handle);
    assert!(dc);
    let arr = HeapArray::from_raw_parts(h, slots, dc);
    assert_eq!(arr.as_slice(), vec![1, 2]);

    let mut store = Store::new();
    let h = al.malloc(1).unwrap();
    store.ptr(h, 5u8);
    let entries = store.into_raw_parts();
    assert_eq!(entries.len(), 1);
    let store = Store::from_raw_parts(entries);
    store.free(&mut al);

    let mut dyn_store = DynStore::new();
    let h = al.malloc(1).unwrap();
    dyn_store.ptr(h);
    let pointers = dyn_store.into_raw_parts();
    assert_eq!(pointers.len(), 1);
    let dyn_store = DynStore::from_raw_parts(pointers);
    dyn_store.free(&mut al);
}

#[test]
fn store_remove_relinquishes_without_freeing() {
    let mut al = Allocator::new();
    let mut store = Store::new();
    let h1 = al.malloc(4).unwrap();
    let h2 = al.malloc(4).unwrap();
    let h3 = al.malloc(4).unwrap();
    store.ptr(h1, 10u32);
    store.ptr(h2, 20u32);
    store.ptr(h3, 30u32);
    let removed = store.remove(h2);
    assert_eq!(removed, vec![20]);
    assert_eq!(al.count_live_handles(), 3);
    al.free(h2);
    assert_eq!(store.dispose(&mut al), 2);
    assert_eq!(al.count_live_handles(), 0);

    let mut dyn_store = DynStore::new();
    let h1 = al.malloc(4).unwrap();
    let h2 = al.malloc(4).unwrap();
    dyn_store.ptr(h1);
    dyn_store.ptr(h2);
    dyn_store.remove(h1);
    al.free(h1);
    dyn_store.free(&mut al);
    assert_eq!(al.count_live_handles(), 0);
}

#[test]
fn sizes_are_element_multiples() {
    let mut al = Allocator::new();
    assert_eq!(HeapArray::<u32>::element_size(), 4);
    assert!(HeapArray::<u8>::is_single());
    assert!(!HeapArray::<u16>::is_single());
    let mut arr = HeapArray::<u32>::new(&mut al, 3);
    assert_eq!(arr.len_bytes(), 12);
    assert_eq!(arr.as_ptr_mut(), arr.as_ptr());
    assert!(null().is_null());
}

#[test]
fn fill_leaves_already_set_slots() {
    let mut al = Allocator::new();
    let arr = HeapArray::<u32>::new_uninit(&mut al, 4);
    let mut it = arr.initialise();
    it.put(5);
    it.advance();
    let arr = it.fill(9);
    assert_eq!(arr.as_slice(), vec![5, 9, 9, 9]);

    let arr = HeapArray::<u32>::new_uninit(&mut al, 3);
    let mut it = arr.initialise();
    it.put(7);
    let arr = it.fill(2);
    assert_eq!(arr.as_slice(), vec![7, 2, 2]);
}

#[test]
fn punning_to_the_same_size_is_identity() {
    assert_eq!(malloc_array::reinterpret::bytes::<u16, u16>(0x1234), 0x1234u16);
    assert_eq!(malloc_array::reinterpret::bytes::<u8, u8>(0x7f), 0x7fu8);
}

#[test]
fn wide_elements_round_their_bytes() {
    let mut al = Allocator::new();
    let arr = HeapArray::<u64>::from_bytes(&mut al, &[1, 2, 3, 4, 5, 6, 7, 8]);
    assert_eq!(arr.as_slice(), vec![0x0807060504030201u64]);
    assert_eq!(arr.memory(), vec![1, 2, 3, 4, 5, 6, 7, 8]);
}

#[test]
fn dispose_honours_the_policy_flag() {
    let mut al = Allocator::new();
    let arr = HeapArray::from_vec(&mut al, vec![1, 2, 3u32]);
    assert_eq!(arr.dispose(&mut al), 3);
    let mut arr = HeapArray::from_vec(&mut al, vec![1, 2, 3u32]);
    arr.drop_check = false;
    assert_eq!(arr.dispose(&mut al), 0);
    assert_eq!(al.count_live_handles(), 0);

    let arr = HeapArray::from_vec(&mut al, vec![4, 5u32]);
    let values: Vec<u32> = arr.iter().into_iter().copied().collect();
    assert_eq!(values, vec![4, 5]);
    arr.free(&mut al);
    assert_eq!(al.count_live_handles(), 0);
}
