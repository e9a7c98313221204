use lsi::{BufferLayout, FastStr, InternTable, InternedData, LayoutError};

#[test]
fn it_works() {
    let mut table = InternTable::new();
    let s = FastStr::new(&mut table, "Hello");
    assert_eq!(s.as_str(&table), "Hello");
}

#[test]
fn same_text_gives_same_handle() {
    let mut table = InternTable::new();
    let before = table.len();
    let a = FastStr::new(&mut table, "hello");
    let b = FastStr::new(&mut table, "hello");
    assert_eq!(a, b);
    assert_eq!(table.len(), before + 1);
    assert_eq!(a.as_str(&table), "hello");
    assert_eq!(b.as_str(&table), "hello");
}

#[test]
fn empty_text_skips_the_table() {
    let mut table = InternTable::new();
    FastStr::new(&mut table, "x");
    let before = table.len();
    let e = FastStr::new(&mut table, "");
    assert_eq!(e, FastStr::empty());
    assert_eq!(e.len(&table), 0);
    assert_eq!(e.as_str(&table), "");
    assert_eq!(table.len(), before);
}

#[test]
fn many_requests_for_one_text_share_one_entry() {
    let mut table = InternTable::new();
    let first = FastStr::new(&mut table, "shared");
    for _ in 0..1000 {
        let h = FastStr::new(&mut table, "shared");
        assert_eq!(h, first);
    }
    assert_eq!(table.len(), 1);
}

#[test]
fn different_texts_give_different_handles() {
    let mut table = InternTable::new();
    let before = table.len();
    let a = FastStr::new(&mut table, "a");
    let b = FastStr::new(&mut table, "b");
    assert_ne!(a, b);
    assert_eq!(table.len(), before + 2);
    assert_ne!(a.as_str(&table), b.as_str(&table));
    assert_eq!(a.as_str(&table), "a");
    assert_eq!(b.as_str(&table), "b");
}

#[test]
fn round_trip_keeps_text_and_byte_length() {
    let mut table = InternTable::new();
    let text = "h\u{e9}llo w\u{f6}rld \u{1f600}";
    let h = FastStr::new(&mut table, text);
    assert_eq!(h.as_str(&table), text);
    assert_eq!(h.len(&table), 18);
    assert_eq!(h.len(&table), text.len());
}

#[test]
fn earlier_handles_stay_valid() {
    let mut table = InternTable::new();
    let first = FastStr::new(&mut table, "first");
    let mut handles = Vec::new();
    for i in 0..200 {
        let text = format!("text number {}", i);
        handles.push((FastStr::new(&mut table, &text), text));
    }
    assert_eq!(table.len(), 201);
    assert_eq!(first.as_str(&table), "first");
    for (h, text) in &handles {
        assert_eq!(h.as_str(&table), text.as_str());
        assert_eq!(FastStr::new(&mut table, text), *h);
    }
    assert_eq!(table.len(), 201);
}

#[test]
fn get_or_intern_finds_existing_entries() {
    let mut table = InternTable::new();
    let a = table.get_or_intern("alpha");
    let b = table.get_or_intern("beta");
    assert_eq!(table.get_or_intern("alpha"), a);
    assert_eq!(table.get_or_intern("beta"), b);
    assert_eq!(b.as_str(&table), "beta");
    assert_eq!(table.len(), 2);
}

#[test]
fn lookup_reports_only_interned_texts() {
    let mut table = InternTable::new();
    assert_eq!(table.lookup("gamma"), None);
    assert_eq!(table.lookup(""), Some(FastStr::empty()));
    let g = FastStr::new(&mut table, "gamma");
    assert_eq!(table.lookup("gamma"), Some(g));
    assert_eq!(table.lookup("gamm"), None);
    assert_eq!(table.len(), 1);
}

#[test]
fn resolves_only_own_handles() {
    let mut small = InternTable::new();
    let mut big = InternTable::new();
    FastStr::new(&mut big, "one");
    let two = FastStr::new(&mut big, "two");
    assert!(big.resolves(two));
    assert!(!small.resolves(two));
    assert!(small.resolves(FastStr::empty()));
    let own = FastStr::new(&mut small, "one");
    assert!(small.resolves(own));
}

#[test]
fn layout_sizes_are_padded_to_alignment() {
    let expect = |size: usize| Ok(BufferLayout { size, align: 8, data_offset: 8 });
    assert_eq!(InternedData::layout_of(0), expect(8));
    assert_eq!(InternedData::layout_of(1), expect(16));
    assert_eq!(InternedData::layout_of(8), expect(16));
    assert_eq!(InternedData::layout_of(9), expect(24));
    assert_eq!(InternedData::layout_of(100), expect(112));
}

#[test]
fn largest_layout_fits_and_one_more_byte_overflows() {
    let largest = isize::MAX as usize - 15;
    assert_eq!(
        InternedData::layout_of(largest),
        Ok(BufferLayout { size: isize::MAX as usize - 7, align: 8, data_offset: 8 })
    );
    assert_eq!(InternedData::layout_of(largest + 1), Err(LayoutError::Overflow));
    assert_eq!(InternedData::layout_of(usize::MAX), Err(LayoutError::Overflow));
}

#[test]
fn buffer_keeps_text_and_length() {
    let d = InternedData::new("caf\u{e9}").unwrap();
    assert_eq!(d.as_str(), "caf\u{e9}");
    assert_eq!(d.len(), 5);
    let e = InternedData::new("").unwrap();
    assert_eq!(e.as_str(), "");
    assert_eq!(e.len(), 0);
}
