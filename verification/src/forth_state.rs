//! What the shell knows of the Forth dictionary on the target: its words, the
//! memory cells that each word's definition occupies, and the labels that
//! mark the cells holding the address of a word's implementation.
use vstd::prelude::*;
use vstd::string::StringExecFns;
use crate::hex::{format_hex8, hex8, hex_token_value, lemma_hex8_roundtrip, parse_hex_token};
use crate::text::str_views;

verus! {

/// The size in bytes of a dictionary header; a word's implementation starts
/// this far after the word's address.
pub const HEADER_SIZE: u32 = 44;

/// One memory cell of a word's definition, as `showWords` lists it.
#[derive(Clone, Debug)]
pub struct MCUMemoryDataWord {
    pub address: u32,
    pub data: u32,
    pub address_str: String,
    pub data_str: String,
    pub annotation: String,
}

/// The mathematical value of a [`MCUMemoryDataWord`].
pub struct DataWordView {
    pub address: u32,
    pub data: u32,
    pub address_str: Seq<char>,
    pub data_str: Seq<char>,
    pub annotation: Seq<char>,
}

impl View for MCUMemoryDataWord {
    type V = DataWordView;

    open spec fn view(&self) -> DataWordView {
        DataWordView {
            address: self.address,
            data: self.data,
            address_str: self.address_str@,
            data_str: self.data_str@,
            annotation: self.annotation@,
        }
    }
}

/// The cell that a listing line of two tokens, address and content, stands for.
pub open spec fn data_word_of(tokens: Seq<Seq<char>>) -> DataWordView {
    let address = hex_token_value(tokens[0])->0;
    let data = hex_token_value(tokens[1])->0;
    DataWordView {
        address,
        data,
        address_str: hex8(address),
        data_str: hex8(data),
        annotation: Seq::empty(),
    }
}

/// Whether a line's tokens can be read as a memory cell.
pub open spec fn data_tokens_ok(tokens: Seq<Seq<char>>) -> bool {
    &&& tokens.len() >= 2
    &&& hex_token_value(tokens[0]) is Some
    &&& hex_token_value(tokens[1]) is Some
}

impl MCUMemoryDataWord {
    /// Reads a memory cell from the first two tokens of a listing line: its
    /// address and its content, both in hexadecimal.
    pub fn from_tokens(tokens: &Vec<&str>) -> (r: Self)
        requires
            data_tokens_ok(str_views(tokens@)),
        ensures
            r@ == data_word_of(str_views(tokens@)),
    {
        let t0 = tokens[0];
        let t = tokens[1];
        assert(t0@ == str_views(tokens@)[0]);
        assert(t@ == str_views(tokens@)[1]);
        let addr = match parse_hex_token(t0) {
            Some(a) => a,
            None => 0,
        };
        let val = match parse_hex_token(t) {
            Some(v) => v,
            None => 0,
        };
        Self {
            address: addr,
            data: val,
            address_str: format_hex8(addr),
            data_str: format_hex8(val),
            annotation: String::new(),
        }
    }
}

/// A word of the Forth dictionary.
#[derive(Clone, Debug)]
pub struct ForthWord {
    pub name: String,
    pub address: u32,
    pub address_string: String,
    pub data: Vec<MCUMemoryDataWord>,
    pub is_primitive: bool,
    pub is_immediate: bool,
    pub impl_address: u32,
}

/// The mathematical value of a [`ForthWord`].
pub struct WordView {
    pub name: Seq<char>,
    pub address: u32,
    pub address_string: Seq<char>,
    pub data: Seq<DataWordView>,
    pub is_primitive: bool,
    pub is_immediate: bool,
    pub impl_address: u32,
}

/// The views of a list of memory cells.
pub open spec fn data_views(v: Seq<MCUMemoryDataWord>) -> Seq<DataWordView> {
    Seq::new(v.len(), |i: int| v[i]@)
}

impl View for ForthWord {
    type V = WordView;

    open spec fn view(&self) -> WordView {
        WordView {
            name: self.name@,
            address: self.address,
            address_string: self.address_string@,
            data: data_views(self.data@),
            is_primitive: self.is_primitive,
            is_immediate: self.is_immediate,
            impl_address: self.impl_address,
        }
    }
}

/// Whether a line's tokens can be read as a word header: address, name,
/// immediate flag and primitive flag, where the implementation address
/// (address plus header size) still fits in 32 bits.
pub open spec fn header_tokens_ok(tokens: Seq<Seq<char>>) -> bool {
    &&& tokens.len() == 4
    &&& hex_token_value(tokens[0]) is Some
    &&& hex_token_value(tokens[2]) is Some
    &&& hex_token_value(tokens[3]) is Some
    &&& hex_token_value(tokens[0])->0 + HEADER_SIZE <= u32::MAX
}

/// The word, with no cells yet, that a header line stands for.
pub open spec fn word_of_header(tokens: Seq<Seq<char>>) -> WordView {
    let address = hex_token_value(tokens[0])->0;
    WordView {
        name: tokens[1],
        address,
        address_string: hex8(address),
        data: Seq::empty(),
        is_primitive: hex_token_value(tokens[3])->0 != 0,
        is_immediate: hex_token_value(tokens[2])->0 != 0,
        impl_address: (address + HEADER_SIZE) as u32,
    }
}

/// Law: a word read from a header line shows, next to its name, the
/// header's address written as `0x` and eight lower-case hex digits, and that
/// text reads back as the same address as the line's first token.
pub proof fn lemma_header_word_shows_its_address(tokens: Seq<Seq<char>>)
    requires
        header_tokens_ok(tokens),
    ensures
        word_of_header(tokens).address_string == hex8(word_of_header(tokens).address),
        hex_token_value(word_of_header(tokens).address_string) == hex_token_value(tokens[0]),
{
    lemma_hex8_roundtrip(word_of_header(tokens).address);
}

impl ForthWord {
    /// Reads a word header from a listing line of four tokens: address,
    /// name, immediate flag and primitive flag (flags are non-zero when set).
    pub fn from_tokens(tokens: &Vec<&str>) -> (r: Self)
        requires
            header_tokens_ok(str_views(tokens@)),
        ensures
            r@ == word_of_header(str_views(tokens@)),
    {
        assert(tokens[0]@ == str_views(tokens@)[0]);
        assert(tokens[1]@ == str_views(tokens@)[1]);
        assert(tokens[2]@ == str_views(tokens@)[2]);
        assert(tokens[3]@ == str_views(tokens@)[3]);
        let address: u32 = match parse_hex_token(tokens[0]) {
            Some(a) => a,
            None => 0,
        };
        let is_immediate: bool = match parse_hex_token(tokens[2]) {
            Some(v) => v != 0,
            None => false,
        };
        let is_primititive: bool = match parse_hex_token(tokens[3]) {
            Some(v) => v != 0,
            None => false,
        };
        let w = Self {
            name: String::from_str(tokens[1]),
            address: address,
            address_string: format_hex8(address),
            data: Vec::new(),
            is_immediate: is_immediate,
            is_primitive: is_primititive,
            impl_address: address + HEADER_SIZE,
        };
        assert(data_views(w.data@) =~= Seq::<DataWordView>::empty());
        w
    }
}

/// The words of a dictionary, as values.
pub open spec fn word_views(v: Seq<ForthWord>) -> Seq<WordView> {
    Seq::new(v.len(), |i: int| v[i]@)
}

/// No two words of the list share a name.
pub open spec fn names_distinct(words: Seq<WordView>) -> bool {
    forall|i: int, j: int|
        0 <= i < words.len() && 0 <= j < words.len() && i != j ==> words[i].name != words[j].name
}

/// The index of the word named `name`, if there is one.
pub open spec fn index_of_name(words: Seq<WordView>, name: Seq<char>) -> Option<int> {
    if exists|i: int| 0 <= i < words.len() && words[i].name == name {
        Some(choose|i: int| 0 <= i < words.len() && words[i].name == name)
    } else {
        None
    }
}

/// The dictionary after `w` is entered under its name: a word of that name
/// is replaced in place, otherwise `w` is added at the end.
pub open spec fn insert_word(words: Seq<WordView>, w: WordView) -> Seq<WordView> {
    match index_of_name(words, w.name) {
        Some(i) => words.update(i, w),
        None => words.push(w),
    }
}

/// The characters `_impl`.
pub open spec fn impl_suffix() -> Seq<char> {
    seq!['_', 'i', 'm', 'p', 'l']
}

/// The label of the first word, from index `i` on, whose implementation starts at `addr`.
pub open spec fn label_from(words: Seq<WordView>, addr: u32, i: int) -> Option<Seq<char>>
    decreases words.len() - i,
{
    if i < 0 || i >= words.len() {
        None
    } else if words[i].impl_address == addr {
        Some(words[i].name + impl_suffix())
    } else {
        label_from(words, addr, i + 1)
    }
}

/// The label `<name>_impl` of the first word whose implementation starts at `addr`.
pub open spec fn impl_label(words: Seq<WordView>, addr: u32) -> Option<Seq<char>> {
    label_from(words, addr, 0)
}

/// A cell with its annotation set to the label of the word implemented at
/// the address it holds, if there is such a word.
pub open spec fn annotate_cell(words: Seq<WordView>, d: DataWordView) -> DataWordView {
    match impl_label(words, d.data) {
        Some(l) => DataWordView { annotation: l, ..d },
        None => d,
    }
}

/// A word with every cell annotated against the dictionary `words`.
pub open spec fn annotate_word(words: Seq<WordView>, w: WordView) -> WordView {
    WordView { data: Seq::new(w.data.len(), |j: int| annotate_cell(words, w.data[j])), ..w }
}

/// The dictionary with every cell of every word annotated.
pub open spec fn annotated(words: Seq<WordView>) -> Seq<WordView> {
    Seq::new(words.len(), |i: int| annotate_word(words, words[i]))
}

/// The dictionary of the target as the shell has learnt it. No two words
/// share a name (the words are keyed by name).
pub struct ForthState {
    words: Vec<ForthWord>,
}

impl View for ForthState {
    type V = Seq<WordView>;

    closed spec fn view(&self) -> Seq<WordView> {
        word_views(self.words@)
    }
}

impl ForthState {
    /// The state's invariant: word names are distinct.
    pub open spec fn wf(&self) -> bool {
        names_distinct(self@)
    }

    /// An empty dictionary.
    pub fn new() -> (r: Self)
        ensures
            r.wf(),
            r@ == Seq::<WordView>::empty(),
    {
        let r = Self { words: Vec::new() };
        assert(r@ =~= Seq::<WordView>::empty());
        r
    }

    /// The words, in the order in which they were first entered.
    pub fn words(&self) -> (r: &[ForthWord])
        ensures
            word_views(r@) == self@,
    {
        self.words.as_slice()
    }

    /// The number of words.
    pub fn len(&self) -> (r: usize)
        ensures
            r == self@.len(),
    {
        self.words.len()
    }

    /// Forgets every word.
    pub fn clear(&mut self)
        ensures
            final(self).wf(),
            final(self)@ == Seq::<WordView>::empty(),
    {
        self.words = Vec::new();
        assert(self@ =~= Seq::<WordView>::empty());
    }

    /// Enters `word` under its name, replacing a word of the same name.
    pub fn insert(&mut self, word: ForthWord)
        requires
            old(self).wf(),
        ensures
            final(self).wf(),
            final(self)@ == insert_word(old(self)@, word@),
    {
        let n = self.words.len();
        let ghost ws = self@;
        let mut i: usize = 0;
        let mut found: bool = false;
        while i < n
            invariant_except_break
                n == self.words@.len(),
                self@ == ws,
                i <= n,
                !found,
                forall|j: int| 0 <= j < i ==> ws[j].name != word@.name,
            ensures
                n == self.words@.len(),
                self@ == ws,
                found ==> i < n && ws[i as int].name == word@.name,
                !found ==> forall|j: int| 0 <= j < n ==> ws[j].name != word@.name,
            decreases n - i,
        {
            assert(self@[i as int] == self.words@[i as int]@);
            if self.words[i].name.eq(&word.name) {
                found = true;
                break;
            }
            i = i + 1;
        }
        let ghost w = word@;
        if found {
            proof {
                assert(exists|k: int| 0 <= k < ws.len() && ws[k].name == w.name);
                let k = choose|k: int| 0 <= k < ws.len() && ws[k].name == w.name;
                assert(k == i);
            }
            self.words.set(i, word);
            assert(self@ =~= ws.update(i as int, w));
        } else {
            self.words.push(word);
            assert(self@ =~= ws.push(w));
        }
    }

    /// The label `<name>_impl` of a word whose implementation starts at
    /// `address` (the first such word), or `None` if there is none.
    pub fn lookup_word_impl_address(&self, address: u32) -> (r: Option<String>)
        ensures
            r matches Some(s) ==> impl_label(self@, address) == Some(s@),
            r is None ==> impl_label(self@, address) is None,
            r is None <==> forall|i: int| 0 <= i < self@.len() ==> self@[i].impl_address != address,
    {
        let r = label_of(&self.words, address);
        proof {
            lemma_label_none(self@, address, 0);
        }
        r
    }

    /// Sets the annotation of every cell that holds the implementation
    /// address of a word to that word's label `<name>_impl`; other cells
    /// keep their annotation.
    pub fn annotate_data(&mut self)
        requires
            old(self).wf(),
        ensures
            final(self).wf(),
            final(self)@ == annotated(old(self)@),
    {
        let ghost ws = self@;
        let n = self.words.len();
        let mut out: Vec<ForthWord> = Vec::new();
        let mut i: usize = 0;
        while i < n
            invariant
                n == ws.len(),
                i <= n,
                self@ == ws,
                word_views(out@) =~= annotated(ws).take(i as int),
            decreases n - i,
        {
            let w = &self.words[i];
            assert(w@ == ws[i as int]);
            let mut cells: Vec<MCUMemoryDataWord> = Vec::new();
            let m = w.data.len();
            let mut j: usize = 0;
            while j < m
                invariant
                    m == w.data@.len(),
                    j <= m,
                    i < n,
                    n == ws.len(),
                    word_views(out@) =~= annotated(ws).take(i as int),
                    self@ == ws,
                    w@ == ws[i as int],
                    data_views(cells@) =~= annotate_word(ws, w@).data.take(j as int),
                decreases m - j,
            {
                let d = &w.data[j];
                assert(d@ == w@.data[j as int]);
                let label = label_of(&self.words, d.data);
                let annotation = match label {
                    Some(l) => l,
                    None => d.annotation.clone(),
                };
                let cell = MCUMemoryDataWord {
                    address: d.address,
                    data: d.data,
                    address_str: d.address_str.clone(),
                    data_str: d.data_str.clone(),
                    annotation,
                };
                assert(cell@ == annotate_cell(ws, d@));
                let ghost before = data_views(cells@);
                cells.push(cell);
                assert(data_views(cells@) =~= before.push(annotate_cell(ws, d@)));
                assert(annotate_word(ws, w@).data[j as int] == annotate_cell(ws, d@));
                assert(annotate_word(ws, w@).data.take(j + 1) =~= annotate_word(ws, w@).data.take(j as int).push(annotate_cell(ws, d@)));
                j = j + 1;
            }
            assert(annotate_word(ws, w@).data.take(m as int) =~= annotate_word(ws, w@).data);
            let nw = ForthWord {
                name: w.name.clone(),
                address: w.address,
                address_string: w.address_string.clone(),
                data: cells,
                is_primitive: w.is_primitive,
                is_immediate: w.is_immediate,
                impl_address: w.impl_address,
            };
            assert(nw@ =~= annotate_word(ws, ws[i as int]));
            let ghost before = word_views(out@);
            out.push(nw);
            assert(word_views(out@) =~= before.push(annotate_word(ws, ws[i as int])));
            assert(annotated(ws).take(i + 1) =~= annotated(ws).take(i as int).push(annotate_word(ws, ws[i as int])));
            i = i + 1;
        }
        self.words = out;
        assert(self@ =~= annotated(ws));
    }
}

/// The label of the first word in `words` implemented at `addr`.
fn label_of(words: &Vec<ForthWord>, addr: u32) -> (r: Option<String>)
    ensures
        r matches Some(s) ==> impl_label(word_views(words@), addr) == Some(s@),
        r is None ==> impl_label(word_views(words@), addr) is None,
{
    let ghost ws = word_views(words@);
    let n = words.len();
    for i in 0..n
        invariant
            n == ws.len(),
            ws == word_views(words@),
            label_from(ws, addr, i as int) == impl_label(ws, addr),
    {
        assert(ws[i as int] == words@[i as int]@);
        if words[i].impl_address == addr {
            let mut s = words[i].name.clone();
            s.append("_impl");
            proof {
                reveal_strlit("_impl");
            }
            assert(s@ =~= ws[i as int].name + impl_suffix());
            return Some(s);
        }
    }
    None
}

/// No label from `i` on exactly when no word from `i` on is implemented at `addr`.
proof fn lemma_label_none(words: Seq<WordView>, addr: u32, i: int)
    requires
        0 <= i <= words.len(),
    ensures
        label_from(words, addr, i) is None <==> forall|j: int|
            i <= j < words.len() ==> words[j].impl_address != addr,
    decreases words.len() - i,
{
    if i < words.len() {
        lemma_label_none(words, addr, i + 1);
    }
}

/// Two dictionaries with the same names and implementation addresses, word
/// by word, give every address the same label.
proof fn lemma_label_same(a: Seq<WordView>, b: Seq<WordView>, addr: u32, i: int)
    requires
        a.len() == b.len(),
        forall|k: int|
            0 <= k < a.len() ==> a[k].name == b[k].name && a[k].impl_address == b[k].impl_address,
    ensures
        label_from(a, addr, i) == label_from(b, addr, i),
    decreases a.len() - i,
{
    if 0 <= i < a.len() {
        lemma_label_same(a, b, addr, i + 1);
    }
}

/// Law: annotating changes no name, address, flag or cell content, and so
/// gives every address the label that it had before.
pub proof fn lemma_annotated_keeps_labels(ws: Seq<WordView>, addr: u32)
    ensures
        impl_label(annotated(ws), addr) == impl_label(ws, addr),
        annotated(ws).len() == ws.len(),
        forall|i: int| #![trigger annotated(ws)[i]]
            0 <= i < ws.len() ==> {
                let w = annotated(ws)[i];
                &&& w.name == ws[i].name
                &&& w.address == ws[i].address
                &&& w.address_string == ws[i].address_string
                &&& w.is_primitive == ws[i].is_primitive
                &&& w.is_immediate == ws[i].is_immediate
                &&& w.impl_address == ws[i].impl_address
                &&& w.data.len() == ws[i].data.len()
                &&& forall|j: int| #![trigger w.data[j]]
                    0 <= j < w.data.len() ==> {
                        &&& w.data[j].address == ws[i].data[j].address
                        &&& w.data[j].data == ws[i].data[j].data
                        &&& w.data[j].address_str == ws[i].data[j].address_str
                        &&& w.data[j].data_str == ws[i].data[j].data_str
                    }
            },
{
    lemma_label_same(annotated(ws), ws, addr, 0);
}

/// Law: annotating is idempotent; annotating an annotated dictionary again
/// changes nothing.
pub proof fn lemma_annotate_idempotent(ws: Seq<WordView>)
    ensures
        annotated(annotated(ws)) == annotated(ws),
{
    let a = annotated(ws);
    assert forall|i: int| 0 <= i < a.len() implies #[trigger] annotated(a)[i] == a[i] by {
        assert forall|j: int| 0 <= j < a[i].data.len() implies #[trigger] annotate_cell(a, a[i].data[j]) == a[i].data[j] by {
            lemma_annotated_keeps_labels(ws, a[i].data[j].data);
        }
        assert(annotated(a)[i].data =~= a[i].data);
    }
    assert(annotated(a) =~= a);
}

/// Law: in an annotated dictionary, a cell that holds the implementation
/// address of a word is annotated with the label that
/// `lookup_word_impl_address` gives for that address.
pub proof fn lemma_annotation_agrees_with_lookup(ws: Seq<WordView>, i: int, j: int)
    requires
        0 <= i < annotated(ws).len(),
        0 <= j < annotated(ws)[i].data.len(),
        impl_label(annotated(ws), annotated(ws)[i].data[j].data) is Some,
    ensures
        annotated(ws)[i].data[j].annotation == impl_label(
            annotated(ws),
            annotated(ws)[i].data[j].data,
        )->0,
{
    lemma_annotated_keeps_labels(ws, ws[i].data[j].data);
    assert(annotated(ws)[i].data[j].data == ws[i].data[j].data);
}

/// Law: after a word is entered, it is the one word of its name, every word
/// of another name is kept, and names stay distinct.
pub proof fn lemma_insert_finds_word(ws: Seq<WordView>, w: WordView, name: Seq<char>)
    requires
        names_distinct(ws),
    ensures
        names_distinct(insert_word(ws, w)),
        index_of_name(insert_word(ws, w), w.name) matches Some(k) && insert_word(ws, w)[k] == w,
        name != w.name ==> (index_of_name(insert_word(ws, w), name) is Some <==> index_of_name(
            ws,
            name,
        ) is Some),
        name != w.name ==> (index_of_name(ws, name) matches Some(k) ==> index_of_name(
            insert_word(ws, w),
            name,
        ) matches Some(k2) && insert_word(ws, w)[k2] == ws[k]),
{
    let r = insert_word(ws, w);
    match index_of_name(ws, w.name) {
        Some(i) => {
            assert(r =~= ws.update(i, w));
        },
        None => {
            assert(r =~= ws.push(w));
        },
    }
    assert(exists|k: int| 0 <= k < r.len() && r[k].name == w.name) by {
        match index_of_name(ws, w.name) {
            Some(i) => { assert(r[i].name == w.name); },
            None => { assert(r[r.len() - 1].name == w.name); },
        }
    }
    let k = choose|k: int| 0 <= k < r.len() && r[k].name == w.name;
    match index_of_name(ws, w.name) {
        Some(i) => { assert(k == i); },
        None => { assert(k == r.len() - 1); },
    }
    if name != w.name {
        if exists|k: int| 0 <= k < ws.len() && ws[k].name == name {
            let k = choose|k: int| 0 <= k < ws.len() && ws[k].name == name;
            assert(r[k].name == name);
        }
        if exists|k: int| 0 <= k < r.len() && r[k].name == name {
            let k = choose|k: int| 0 <= k < r.len() && r[k].name == name;
            assert(k < ws.len() && ws[k].name == name);
        }
    }
}

} // verus!
