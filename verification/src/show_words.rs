//! Reading the dictionary listing that the Forth words `showWords` and
//! `showLastWord` print: a header line `address name immediate primitive`
//! for each word, followed by one `address content` line per memory cell.
use vstd::prelude::*;
use crate::forth_state::{
    annotated, data_tokens_ok, data_views, data_word_of, header_tokens_ok, index_of_name,
    insert_word, lemma_annotated_keeps_labels, lemma_insert_finds_word, names_distinct,
    word_of_header, DataWordView, ForthState, ForthWord, MCUMemoryDataWord, WordView,
    HEADER_SIZE,
};
use crate::hex::parse_hex_token;
use crate::text::{split_whitespace, str_views, words_of};

verus! {

/// Whether the listing lines from here on can be read, `has_word` telling
/// whether a word header was read before them: every line is a header line
/// or, after a header, a cell line.
pub open spec fn listing_ok_from(lines: Seq<Seq<char>>, has_word: bool) -> bool
    decreases lines.len(),
{
    if lines.len() == 0 {
        true
    } else {
        let t = words_of(lines[0]);
        if t.len() == 2 {
            has_word && data_tokens_ok(t) && listing_ok_from(lines.drop_first(), true)
        } else if t.len() == 4 {
            header_tokens_ok(t) && listing_ok_from(lines.drop_first(), true)
        } else {
            false
        }
    }
}

/// Whether a whole listing can be read: the input on which `parse_showWords`
/// does not panic.
pub open spec fn listing_ok(lines: Seq<Seq<char>>) -> bool {
    listing_ok_from(lines, false)
}

/// The word under construction with one more cell.
pub open spec fn with_cell(w: WordView, d: DataWordView) -> WordView {
    WordView { data: w.data.push(d), ..w }
}

/// The dictionary with the word under construction entered, if there is one.
pub open spec fn finish_word(ws: Seq<WordView>, cur: Option<WordView>) -> Seq<WordView> {
    match cur {
        Some(w) => insert_word(ws, w),
        None => ws,
    }
}

/// The dictionary after the listing lines are read, starting from `ws` with
/// `cur` the word under construction (annotation not yet done).
pub open spec fn read_listing(lines: Seq<Seq<char>>, cur: Option<WordView>, ws: Seq<WordView>) -> Seq<
    WordView,
>
    decreases lines.len(),
{
    if lines.len() == 0 {
        finish_word(ws, cur)
    } else {
        let t = words_of(lines[0]);
        if t.len() == 2 {
            read_listing(lines.drop_first(), Some(with_cell(cur->0, data_word_of(t))), ws)
        } else {
            read_listing(lines.drop_first(), Some(word_of_header(t)), finish_word(ws, cur))
        }
    }
}

/// The dictionary `ws` after a listing is read into it and annotated.
pub open spec fn listing_result(lines: Seq<Seq<char>>, ws: Seq<WordView>) -> Seq<WordView> {
    annotated(read_listing(lines, None, ws))
}

/// The view of an optional word.
pub open spec fn opt_word_view(w: Option<ForthWord>) -> Option<WordView> {
    match w {
        Some(x) => Some(x@),
        None => None,
    }
}

/// Whether a line's tokens can be read as a memory cell.
fn data_tokens_check(tokens: &Vec<&str>) -> (r: bool)
    ensures
        r == data_tokens_ok(str_views(tokens@)),
{
    if tokens.len() < 2 {
        return false;
    }
    assert(tokens[0]@ == str_views(tokens@)[0]);
    assert(tokens[1]@ == str_views(tokens@)[1]);
    parse_hex_token(tokens[0]).is_some() && parse_hex_token(tokens[1]).is_some()
}

/// Whether a line's tokens can be read as a word header.
fn header_tokens_check(tokens: &Vec<&str>) -> (r: bool)
    ensures
        r == header_tokens_ok(str_views(tokens@)),
{
    if tokens.len() != 4 {
        return false;
    }
    assert(tokens[0]@ == str_views(tokens@)[0]);
    assert(tokens[2]@ == str_views(tokens@)[2]);
    assert(tokens[3]@ == str_views(tokens@)[3]);
    match parse_hex_token(tokens[0]) {
        None => false,
        Some(a) => a <= u32::MAX - HEADER_SIZE && parse_hex_token(tokens[2]).is_some()
            && parse_hex_token(tokens[3]).is_some(),
    }
}

/// Whether `parse_showWords` can read these lines; a caller that must not
/// panic tests this first.
pub fn listing_is_readable(lines: &Vec<&str>) -> (r: bool)
    ensures
        r == listing_ok(str_views(lines@)),
{
    let ghost ls = str_views(lines@);
    let n = lines.len();
    let mut has_word = false;
    let mut i: usize = 0;
    assert(ls.skip(0) =~= ls);
    while i < n
        invariant
            n == ls.len(),
            ls == str_views(lines@),
            i <= n,
            listing_ok_from(ls.skip(i as int), has_word) == listing_ok(ls),
        decreases n - i,
    {
        assert(ls.skip(i as int)[0] == lines[i as int]@);
        assert(ls.skip(i as int).drop_first() =~= ls.skip(i + 1));
        let tokens = split_whitespace(lines[i]);
        if tokens.len() == 2 {
            if !has_word || !data_tokens_check(&tokens) {
                return false;
            }
        } else if tokens.len() == 4 {
            if !header_tokens_check(&tokens) {
                return false;
            }
        } else {
            return false;
        }
        has_word = true;
        i = i + 1;
    }
    true
}

/// Reads a dictionary listing into `forth_state`: each header line starts a
/// word, each following cell line adds a cell to it, each finished word is
/// entered under its name (replacing a word of that name), and at the end
/// every cell is annotated. Lines that cannot be read are excluded by the
/// precondition (the listing is otherwise rejected with a panic).
#[allow(non_snake_case)]
pub fn parse_showWords(lines: &Vec<&str>, forth_state: &mut ForthState)
    requires
        old(forth_state).wf(),
        listing_ok(str_views(lines@)),
    ensures
        final(forth_state).wf(),
        final(forth_state)@ == listing_result(str_views(lines@), old(forth_state)@),
{
    let ghost ls = str_views(lines@);
    let ghost ws0 = forth_state@;
    let mut word_under_construction: Option<ForthWord> = None;
    let n = lines.len();
    let mut i: usize = 0;
    assert(ls.skip(0) =~= ls);
    while i < n
        invariant
            n == ls.len(),
            ls == str_views(lines@),
            i <= n,
            forth_state.wf(),
            listing_ok_from(ls.skip(i as int), word_under_construction is Some),
            read_listing(ls.skip(i as int), opt_word_view(word_under_construction), forth_state@)
                == read_listing(ls, None, ws0),
        decreases n - i,
    {
        assert(ls.skip(i as int)[0] == lines[i as int]@);
        assert(ls.skip(i as int).drop_first() =~= ls.skip(i + 1));
        let tokens = split_whitespace(lines[i]);
        if tokens.len() == 2 {
            let d = MCUMemoryDataWord::from_tokens(&tokens);
            if let Some(mut x) = word_under_construction {
                let ghost before = x@;
                let ghost dv = d@;
                x.data.push(d);
                assert(data_views(x.data@) =~= before.data.push(dv));
                assert(x@ =~= with_cell(before, data_word_of(str_views(tokens@))));
                word_under_construction = Some(x);
            }
        } else {
            let w = ForthWord::from_tokens(&tokens);
            if let Some(x) = word_under_construction {
                forth_state.insert(x);
            }
            word_under_construction = Some(w);
        }
        i = i + 1;
    }
    assert(ls.skip(n as int) =~= Seq::<Seq<char>>::empty());
    if let Some(x) = word_under_construction {
        forth_state.insert(x);
    }
    forth_state.annotate_data();
}

/// Whether some word of the dictionary has the name `name`.
pub open spec fn has_name(ws: Seq<WordView>, name: Seq<char>) -> bool {
    exists|i: int| 0 <= i < ws.len() && ws[i].name == name
}

/// Whether some header line of the listing names the word `name`.
pub open spec fn listing_names(lines: Seq<Seq<char>>, name: Seq<char>) -> bool {
    exists|k: int|
        0 <= k < lines.len() && #[trigger] words_of(lines[k]).len() == 4 && words_of(lines[k])[1]
            == name
}

proof fn lemma_finish_word_names(ws: Seq<WordView>, cur: Option<WordView>, name: Seq<char>)
    requires
        names_distinct(ws),
    ensures
        names_distinct(finish_word(ws, cur)),
        has_name(finish_word(ws, cur), name) <==> (has_name(ws, name) || (cur matches Some(w)
            && w.name == name)),
{
    if let Some(w) = cur {
        lemma_insert_finds_word(ws, w, name);
        let r = insert_word(ws, w);
        if has_name(r, name) {
            assert(index_of_name(r, name) is Some);
        }
        if has_name(ws, name) {
            assert(index_of_name(ws, name) is Some);
        }
        if w.name == name {
            let k = index_of_name(r, w.name)->0;
            assert(r[k].name == name);
        }
    }
}

proof fn lemma_read_listing_names(
    lines: Seq<Seq<char>>,
    cur: Option<WordView>,
    ws: Seq<WordView>,
    name: Seq<char>,
)
    requires
        names_distinct(ws),
        listing_ok_from(lines, cur is Some),
    ensures
        names_distinct(read_listing(lines, cur, ws)),
        has_name(read_listing(lines, cur, ws), name) <==> (has_name(ws, name) || (cur matches Some(
            w,
        ) && w.name == name) || listing_names(lines, name)),
    decreases lines.len(),
{
    if lines.len() == 0 {
        lemma_finish_word_names(ws, cur, name);
    } else {
        let t = words_of(lines[0]);
        let rest = lines.drop_first();
        assert forall|k: int| 0 <= k < rest.len() implies #[trigger] rest[k] == lines[k + 1] by {}
        if t.len() == 2 {
            let c = with_cell(cur->0, data_word_of(t));
            lemma_read_listing_names(rest, Some(c), ws, name);
            if listing_names(lines, name) {
                let k = choose|k: int|
                    0 <= k < lines.len() && #[trigger] words_of(lines[k]).len() == 4
                        && words_of(lines[k])[1] == name;
                assert(k != 0);
                assert(words_of(rest[k - 1]).len() == 4);
            }
            if listing_names(rest, name) {
                let k = choose|k: int|
                    0 <= k < rest.len() && #[trigger] words_of(rest[k]).len() == 4
                        && words_of(rest[k])[1] == name;
                assert(words_of(lines[k + 1]).len() == 4);
            }
        } else {
            lemma_finish_word_names(ws, cur, name);
            lemma_read_listing_names(rest, Some(word_of_header(t)), finish_word(ws, cur), name);
            if listing_names(lines, name) {
                let k = choose|k: int|
                    0 <= k < lines.len() && #[trigger] words_of(lines[k]).len() == 4
                        && words_of(lines[k])[1] == name;
                if k > 0 {
                    assert(words_of(rest[k - 1]).len() == 4);
                }
            }
            if listing_names(rest, name) {
                let k = choose|k: int|
                    0 <= k < rest.len() && #[trigger] words_of(rest[k]).len() == 4
                        && words_of(rest[k])[1] == name;
                assert(words_of(lines[k + 1]).len() == 4);
            }
            if t[1] == name {
                assert(words_of(lines[0]).len() == 4);
            }
        }
    }
}

/// Law: reading a listing keeps every word that the dictionary had and adds
/// every word that the listing names; no other word appears.
pub proof fn lemma_listing_names(lines: Seq<Seq<char>>, ws: Seq<WordView>, name: Seq<char>)
    requires
        names_distinct(ws),
        listing_ok(lines),
    ensures
        names_distinct(listing_result(lines, ws)),
        has_name(listing_result(lines, ws), name) <==> (has_name(ws, name) || listing_names(
            lines,
            name,
        )),
{
    let r = read_listing(lines, None, ws);
    lemma_read_listing_names(lines, None, ws, name);
    lemma_annotated_keeps_labels(r, 0);
    let a = annotated(r);
    if has_name(a, name) {
        let i = choose|i: int| 0 <= i < a.len() && a[i].name == name;
        assert(r[i].name == name);
    }
    if has_name(r, name) {
        let i = choose|i: int| 0 <= i < r.len() && r[i].name == name;
        assert(a[i].name == name);
    }
    assert forall|i: int, j: int|
        0 <= i < a.len() && 0 <= j < a.len() && i != j implies a[i].name != a[j].name by {
        assert(a[i].name == r[i].name);
        assert(a[j].name == r[j].name);
    }
}

/// Whether two words agree in everything but the annotations of their cells.
pub open spec fn same_but_annotations(a: WordView, b: WordView) -> bool {
    &&& a.name == b.name
    &&& a.address == b.address
    &&& a.address_string == b.address_string
    &&& a.is_primitive == b.is_primitive
    &&& a.is_immediate == b.is_immediate
    &&& a.impl_address == b.impl_address
    &&& a.data.len() == b.data.len()
    &&& forall|j: int|
        #![trigger a.data[j]]
        0 <= j < a.data.len() ==> {
            &&& a.data[j].address == b.data[j].address
            &&& a.data[j].data == b.data[j].data
            &&& a.data[j].address_str == b.data[j].address_str
            &&& a.data[j].data_str == b.data[j].data_str
        }
}

/// Reading listing lines keeps, whole, a word whose name they do not name.
proof fn lemma_read_listing_keeps(
    lines: Seq<Seq<char>>,
    cur: Option<WordView>,
    ws: Seq<WordView>,
    name: Seq<char>,
)
    requires
        names_distinct(ws),
        listing_ok_from(lines, cur is Some),
        cur matches Some(w) ==> w.name != name,
        !listing_names(lines, name),
        index_of_name(ws, name) is Some,
    ensures
        index_of_name(read_listing(lines, cur, ws), name) matches Some(k) && read_listing(
            lines,
            cur,
            ws,
        )[k] == ws[index_of_name(ws, name)->0],
    decreases lines.len(),
{
    let k = index_of_name(ws, name)->0;
    if let Some(w) = cur {
        lemma_insert_finds_word(ws, w, name);
        lemma_finish_word_names(ws, cur, name);
    }
    let ws1 = finish_word(ws, cur);
    assert(index_of_name(ws1, name) matches Some(k1) && ws1[k1] == ws[k]);
    assert(names_distinct(ws1)) by {
        lemma_finish_word_names(ws, cur, name);
    }
    if lines.len() > 0 {
        let t = words_of(lines[0]);
        let rest = lines.drop_first();
        if listing_names(rest, name) {
            let j = choose|j: int|
                0 <= j < rest.len() && #[trigger] words_of(rest[j]).len() == 4
                    && words_of(rest[j])[1] == name;
            assert(words_of(lines[j + 1]).len() == 4);
        }
        if t.len() == 2 {
            let c = with_cell(cur->0, data_word_of(t));
            lemma_read_listing_keeps(rest, Some(c), ws, name);
        } else {
            if t[1] == name {
                assert(words_of(lines[0]).len() == 4);
            }
            lemma_read_listing_keeps(rest, Some(word_of_header(t)), ws1, name);
        }
    }
}

/// Law: reading a listing keeps every word that the listing does not name,
/// in everything but the annotations of its cells.
pub proof fn lemma_listing_keeps_other_words(lines: Seq<Seq<char>>, ws: Seq<WordView>, name: Seq<char>)
    requires
        names_distinct(ws),
        listing_ok(lines),
        !listing_names(lines, name),
        index_of_name(ws, name) is Some,
    ensures
        index_of_name(listing_result(lines, ws), name) matches Some(j) && same_but_annotations(
            listing_result(lines, ws)[j],
            ws[index_of_name(ws, name)->0],
        ),
{
    let r = read_listing(lines, None, ws);
    lemma_read_listing_keeps(lines, None, ws, name);
    lemma_read_listing_names(lines, None, ws, name);
    lemma_listing_names(lines, ws, name);
    lemma_annotated_keeps_labels(r, 0);
    let k = index_of_name(r, name)->0;
    let a = annotated(r);
    assert(a[k].name == name);
    assert(exists|i: int| 0 <= i < a.len() && a[i].name == name);
    let j = index_of_name(a, name)->0;
    assert(j == k);
}

} // verus!
