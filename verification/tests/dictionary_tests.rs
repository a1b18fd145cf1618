use forth_shell::forth_state::{ForthState, ForthWord, MCUMemoryDataWord, HEADER_SIZE};
use forth_shell::show_words::{listing_is_readable, parse_showWords};

fn word(name: &str, address: u32) -> ForthWord {
    ForthWord {
        name: name.to_string(),
        address,
        address_string: format!("{:#010x}", address),
        data: vec![],
        is_primitive: false,
        is_immediate: false,
        impl_address: address + HEADER_SIZE,
    }
}

fn cell(address: u32, data: u32) -> MCUMemoryDataWord {
    MCUMemoryDataWord {
        address,
        data,
        address_str: format!("{:#010x}", address),
        data_str: format!("{:#010x}", data),
        annotation: String::new(),
    }
}

#[test]
fn data_word_from_tokens() {
    let d = MCUMemoryDataWord::from_tokens(&vec!["0x20000100", "0x2000002c"]);
    assert_eq!(d.address, 0x2000_0100);
    assert_eq!(d.data, 0x2000_002c);
    assert_eq!(d.address_str, "0x20000100");
    assert_eq!(d.data_str, "0x2000002c");
    assert_eq!(d.annotation, "");
    let d2 = MCUMemoryDataWord::from_tokens(&vec!["1f", "+A", "ignored"]);
    assert_eq!(d2.address, 31);
    assert_eq!(d2.data, 10);
    assert_eq!(d2.data_str, "0x0000000a");
}

#[test]
fn forth_word_from_tokens() {
    let w = ForthWord::from_tokens(&vec!["0x20000000", "DUP", "0x0", "0x1"]);
    assert_eq!(w.name, "DUP");
    assert_eq!(w.address, 0x2000_0000);
    assert_eq!(w.address_string, "0x20000000");
    assert!(w.data.is_empty());
    assert!(!w.is_immediate);
    assert!(w.is_primitive);
    assert_eq!(w.impl_address, 0x2000_0000 + 44);
    let w2 = ForthWord::from_tokens(&vec!["0x100", ";", "0x1", "0x0"]);
    assert!(w2.is_immediate);
    assert!(!w2.is_primitive);
    assert_eq!(w2.impl_address, 0x100 + 44);
}

#[test]
fn insert_replaces_word_of_same_name() {
    let mut st = ForthState::new();
    assert_eq!(st.len(), 0);
    st.insert(word("DUP", 0x100));
    st.insert(word("SWAP", 0x200));
    st.insert(word("DUP", 0x300));
    assert_eq!(st.len(), 2);
    assert_eq!(st.words()[0].name, "DUP");
    assert_eq!(st.words()[0].address, 0x300);
    assert_eq!(st.words()[1].name, "SWAP");
    st.clear();
    assert_eq!(st.len(), 0);
}

#[test]
fn lookup_word_impl_address_finds_label() {
    let mut st = ForthState::new();
    st.insert(word("DUP", 0x100));
    st.insert(word("SWAP", 0x200));
    assert_eq!(st.lookup_word_impl_address(0x100 + 44), Some("DUP_impl".to_string()));
    assert_eq!(st.lookup_word_impl_address(0x200 + 44), Some("SWAP_impl".to_string()));
    assert_eq!(st.lookup_word_impl_address(0x100), None);
    assert_eq!(ForthState::new().lookup_word_impl_address(0), None);
}

#[test]
fn annotate_data_labels_implementation_addresses() {
    let mut st = ForthState::new();
    let mut sq = word("SQ", 0x300);
    sq.data.push(cell(0x330, 0x100 + 44));
    sq.data.push(cell(0x334, 0x12345));
    let mut keep = cell(0x338, 0x999);
    keep.annotation = "old".to_string();
    sq.data.push(keep);
    st.insert(word("DUP", 0x100));
    st.insert(sq);
    st.annotate_data();
    let sq = &st.words()[1];
    assert_eq!(sq.data[0].annotation, "DUP_impl");
    assert_eq!(sq.data[1].annotation, "");
    assert_eq!(sq.data[2].annotation, "old");
    assert_eq!(sq.data[0].data, 0x100 + 44);
    // Annotating again changes nothing.
    let before: Vec<String> = st.words()[1].data.iter().map(|d| d.annotation.clone()).collect();
    st.annotate_data();
    let after: Vec<String> = st.words()[1].data.iter().map(|d| d.annotation.clone()).collect();
    assert_eq!(before, after);
    // The annotation agrees with the lookup.
    assert_eq!(st.lookup_word_impl_address(0x100 + 44), Some(after[0].clone()));
}

#[test]
fn parse_show_words_reads_listing() {
    let listing = "0x20000000 DUP 0x0 0x1\n\
                   0x2000002c 0x0000abcd\n\
                   0x20000100 SQ 0x0 0x0\n\
                   0x2000012c 0x2000002c\n\
                   0x20000130 0x20000200\n";
    let lines: Vec<&str> = listing.lines().collect();
    assert!(listing_is_readable(&lines));
    let mut st = ForthState::new();
    parse_showWords(&lines, &mut st);
    assert_eq!(st.len(), 2);
    let dup = &st.words()[0];
    assert_eq!(dup.name, "DUP");
    assert!(dup.is_primitive);
    assert_eq!(dup.data.len(), 1);
    assert_eq!(dup.data[0].data, 0xabcd);
    let sq = &st.words()[1];
    assert_eq!(sq.name, "SQ");
    assert_eq!(sq.impl_address, 0x2000012c);
    assert_eq!(sq.data.len(), 2);
    assert_eq!(sq.data[0].address_str, "0x2000012c");
    assert_eq!(sq.data[0].annotation, "DUP_impl");
    assert_eq!(sq.data[1].annotation, "");
}

#[test]
fn parse_show_words_replaces_redefined_word() {
    let mut st = ForthState::new();
    st.insert(word("OLD", 0x10));
    st.insert(word("SQ", 0x20));
    let lines = vec!["0x20000100 SQ 0x0 0x0", "0x2000012c 0x00000010"];
    parse_showWords(&lines, &mut st);
    assert_eq!(st.len(), 2);
    assert_eq!(st.words()[0].name, "OLD");
    assert_eq!(st.words()[1].name, "SQ");
    assert_eq!(st.words()[1].address, 0x2000_0100);
    assert_eq!(st.words()[1].data.len(), 1);
    // An empty listing only annotates.
    parse_showWords(&vec![], &mut st);
    assert_eq!(st.len(), 2);
}

#[test]
fn unreadable_listings_are_recognised() {
    assert!(listing_is_readable(&vec![]));
    assert!(!listing_is_readable(&vec!["0x2000012c 0x00000010"]));
    assert!(!listing_is_readable(&vec!["0x20000100 SQ 0x0"]));
    assert!(!listing_is_readable(&vec![""]));
    assert!(!listing_is_readable(&vec!["zz SQ 0x0 0x0"]));
    assert!(!listing_is_readable(&vec!["0xffffffff SQ 0x0 0x0"]));
    assert!(!listing_is_readable(&vec!["0x20000100 SQ 0x0 0x0", "0x1 zz"]));
    assert!(listing_is_readable(&vec!["0xffffffd3 SQ 0x0 0x0"]));
}

#[test]
fn parse_show_words_keeps_words_it_does_not_name() {
    let mut st = ForthState::new();
    let mut old = word("OLD", 0x10);
    old.data.push(cell(0x40, 0x20 + 44));
    st.insert(old);
    st.insert(word("SQ", 0x20));
    let lines = vec!["0x20000100 NEW 0x0 0x0"];
    parse_showWords(&lines, &mut st);
    let kept = &st.words()[0];
    assert_eq!(kept.name, "OLD");
    assert_eq!(kept.address, 0x10);
    assert_eq!(kept.data.len(), 1);
    assert_eq!(kept.data[0].data, 0x20 + 44);
    assert_eq!(kept.data[0].annotation, "SQ_impl");
    assert_eq!(st.len(), 3);
}
