use malloc_array::{Allocator, DynStore, HeapArray, InitIterExt, Store};

#[test]
fn from_bytes() {
    let mut al = Allocator::new();
    let heap = HeapArray::<i32>::from_bytes(
        &mut al,
        &[0xff, 0xff, 0xff, 0xff, 0, 0, 0, 0, 0xff, 0xff, 0xff, 0xff],
    );
    assert_eq!(*heap.get(0), -1);
    assert_eq!(*heap.get(1), 0);
    assert_eq!(*heap.get(2), -1);
}

#[test]
fn copy() {
    let mut al = Allocator::new();
    let heap = HeapArray::new_repeat(&mut al, 1u16, 10);
    let mut heap2 = HeapArray::new_repeat(&mut al, 10u16, 20);

    assert_eq!(heap2.memory_from_slice(&heap.as_slice()), 10);

    assert_eq!(*heap2.get(0), 1);
    assert_eq!(*heap2.get(10), 10);

    let heap3 = HeapArray::from_slice_copied(&mut al, &heap2.as_slice()[..15]);
    assert_eq!(heap3.len(), 15);
    assert_eq!(*heap3.get(0), 1);
    assert_eq!(*heap3.get(10), 10);
}

#[test]
fn as_slice() {
    let mut al = Allocator::new();
    let heap = HeapArray::from_vec(&mut al, vec![0, 1, 2, 3u8]);

    assert_eq!(heap.as_slice(), [0, 1, 2, 3u8]);
}

#[test]
fn non_trivial_type() {
    let mut al = Allocator::new();
    let heap = HeapArray::from_vec(&mut al, vec!["test one".to_owned(), "test two".to_owned()]);
    let refs = HeapArray::new_repeat(&mut al, "test three", 2);

    assert_eq!(&refs.as_slice()[..], &["test three", "test three"]);
    assert_eq!(heap.get(0), "test one");
    assert_eq!(heap.get(1), "test two");
}

struct Unit;

#[test]
fn reinterpret() {
    let mut al = Allocator::new();
    let heap = HeapArray::new_repeat(&mut al, 0u8, 32);
    let heap = heap.reinterpret::<i32>();
    assert_eq!(heap.len(), 8);
    let heap = heap.reinterpret::<u8>();
    assert_eq!(heap.len(), 32);
}

#[test]
fn zero_size() {
    let mut al = Allocator::new();
    let heap: HeapArray<u8> = HeapArray::new_uninit(&mut al, 0);
    let heap_zst: HeapArray<()> = HeapArray::new_repeat(&mut al, (), 3);

    assert_eq!(&heap.as_slice()[..], &[] as &[u8]);
    assert_eq!(&heap_zst.as_slice()[..], &[(), (), ()]);

    let heap = HeapArray::from_vec(
        &mut al,
        vec![
            Unit, Unit, Unit, Unit, Unit, Unit, Unit, Unit, Unit, Unit, Unit, Unit, Unit, Unit,
            Unit, Unit, Unit, Unit, Unit, Unit, Unit, Unit, Unit, Unit, Unit, Unit, Unit, Unit,
            Unit, Unit, Unit, Unit,
        ],
    );
    let mut i = 0;
    let mut iter = heap.into_iter();
    while let Some(_x) = iter.next(&mut al) {
        i += 1;
    }
    assert_eq!(i, 32);
}

#[test]
fn into_iter() {
    let mut al = Allocator::new();
    let primitive = HeapArray::from_vec(&mut al, vec![1, 3, 5, 7, 9u32]);

    let mut iter = primitive.into_iter();
    assert_eq!(iter.len(), 5);
    while let Some(x) = iter.next(&mut al) {
        assert_eq!(x % 2, 1);
    }

    let non = HeapArray::from_vec(
        &mut al,
        vec![
            "string one".to_owned(),
            "string two!".to_owned(),
            "string".to_owned(),
        ],
    );

    let mut iter = non.into_iter();
    assert_eq!(iter.len(), 3);
    while let Some(x) = iter.next(&mut al) {
        assert_eq!(&x[..6], "string");
    }

    let non = HeapArray::from_vec(&mut al, vec!["strings".to_owned(), "strings!!!".to_owned()]);
    let iter = non.into_iter();
    iter.abandon(&mut al);
}

#[test]
fn vec() {
    let mut al = Allocator::new();
    let heap = HeapArray::from_vec(&mut al, vec![0, 1, 2, 3, 4u8]);
    let vec = vec![0, 1, 2, 3, 4u8];

    assert_eq!(&vec[..], &heap.as_slice()[..]);

    let heap = heap.into_vec(&mut al);

    assert_eq!(vec, heap);

    let heap = HeapArray::from_vec(&mut al, heap);

    assert_eq!(&vec[..], &heap.as_slice()[..]);
}

#[test]
fn init() {
    let mut al = Allocator::new();

    let array = HeapArray::<String>::new(&mut al, 32);
    let mut it = array.initialise();
    while it.has_next() {
        it.put("Hiya".to_owned());
        it.advance();
    }
    let array = it.finish();
    assert_eq!(array.len(), 32);
    let mut iter = array.into_iter();
    while let Some(x) = iter.next(&mut al) {
        assert_eq!(x, "Hiya");
    }

    let array = HeapArray::<String>::new(&mut al, 10);
    let array = array.initialise().fill("wowe".to_owned());
    let mut iter = array.into_iter();
    while let Some(x) = iter.next(&mut al) {
        assert_eq!(x, "wowe");
    }

    let array = HeapArray::<String>::new(&mut al, 10);
    let array = array.initialise().fill_with(|| "wow".to_owned());
    let mut iter = array.into_iter();
    while let Some(x) = iter.next(&mut al) {
        assert_eq!(x, "wow");
    }

    let array = HeapArray::<String>::new(&mut al, 10);
    let array = array.initialise().fill_default();
    let mut iter = array.into_iter();
    while let Some(x) = iter.next(&mut al) {
        assert_eq!(x, "");
    }
}

#[test]
fn store() {
    let mut al = Allocator::new();
    let mut store = Store::new();
    for _a in 0..10 {
        let h = al.malloc(100).unwrap();
        let _ptr = store.ptr(h, ());
    }
    store.dispose(&mut al);
    assert_eq!(al.count_live_handles(), 0);
}

#[test]
fn dyn_store() {
    let mut al = Allocator::new();
    let mut store = DynStore::new();
    for _a in 0..10 {
        let h = al.malloc(4).unwrap();
        let _ptr = store.ptr(h);
    }
    store.free(&mut al);
    assert_eq!(al.count_live_handles(), 0);
}

#[test]
fn into_ha() {
    let mut al = Allocator::new();
    let mut store = Store::new();
    for a in 0..10u32 {
        let h = al.malloc(4).unwrap();
        store.ptr(h, a);
    }
    let ha = store.into_heap_array(&mut al);
    assert_eq!(ha.len(), 10);
    assert_eq!(&ha.as_slice()[..], &[0, 1, 2, 3, 4, 5, 6, 7, 8, 9]);
    assert_eq!(al.count_live_handles(), 1);
}
