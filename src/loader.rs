//! Building the store from the instrument list and the files found beside
//! it. The list holds one instrument name per line; blank lines and lines
//! whose first word starts with `#` are skipped. An instrument is kept when
//! a file of its name exists; its locator is that file's path.
use crate::catalog::Catalog;
use crate::store::{ConfigError, Store, StoreModel};
use crate::text::{skip_spaces, words, lemma_skip_spaces_bounds, char_is_space};
use vstd::prelude::*;
use vstd::string::*;

verus! {

/// Index of the first line feed at or after `i`, or the end.
pub open spec fn line_end(s: Seq<char>, i: int) -> int
    decreases s.len() - i,
{
    if i < 0 || i >= s.len() || s[i] == '\n' {
        i
    } else {
        line_end(s, i + 1)
    }
}

/// `s[i..k]` without a carriage return that ends a line before its line
/// feed.
pub open spec fn line_text(s: Seq<char>, i: int, k: int) -> Seq<char> {
    if k < s.len() && i < k && s[k - 1] == '\r' {
        s.subrange(i, k - 1)
    } else {
        s.subrange(i, k)
    }
}

/// The lines of `s` from index `i` on; a final line feed ends the last
/// line rather than starting an empty one.
pub open spec fn lines_from(s: Seq<char>, i: int) -> Seq<Seq<char>>
    decreases s.len() - i,
{
    let k = line_end(s, i);
    if i < 0 || i >= s.len() || k < i || k > s.len() {
        Seq::empty()
    } else if k == s.len() {
        seq![line_text(s, i, k)]
    } else {
        seq![line_text(s, i, k)] + lines_from(s, k + 1)
    }
}

pub open spec fn lines(s: Seq<char>) -> Seq<Seq<char>> {
    lines_from(s, 0)
}

/// Whether a line of the list names an instrument.
pub open spec fn names_instrument(line: Seq<char>) -> bool {
    words(line).len() > 0 && words(line)[0][0] != '#'
}

/// The instrument names of a list, in order.
pub open spec fn listed(list: Seq<char>) -> Seq<Seq<char>> {
    lines(list).filter(|l: Seq<char>| names_instrument(l))
}

proof fn lemma_line_end_bounds(s: Seq<char>, i: int)
    requires
        0 <= i <= s.len(),
    ensures
        i <= line_end(s, i) <= s.len(),
        line_end(s, i) < s.len() ==> s[line_end(s, i)] == '\n',
    decreases s.len() - i,
{
    if i < s.len() && s[i] != '\n' {
        lemma_line_end_bounds(s, i + 1);
    }
}

/// Whether `line` names an instrument.
fn line_names_instrument(line: &str) -> (r: bool)
    ensures
        r == names_instrument(line@),
{
    let n = line.unicode_len();
    let mut j: usize = 0;
    while j < n && char_is_space(line.get_char(j))
        invariant
            n == line@.len(),
            j <= n,
            skip_spaces(line@, 0) == skip_spaces(line@, j as int),
        decreases n - j,
    {
        j = j + 1;
    }
    proof {
        lemma_skip_spaces_bounds(line@, 0);
        crate::text::lemma_word_end_bounds(line@, j as int);
        let w = words(line@);
        if j < n {
            crate::text::lemma_word_end_bounds(line@, j + 1);
            assert(crate::text::word_end(line@, j as int) == crate::text::word_end(line@, j + 1));
            assert(w =~= seq![line@.subrange(j as int, crate::text::word_end(line@, j as int))]
                + crate::text::words_from(line@, crate::text::word_end(line@, j as int)));
            assert(w[0][0] == line@[j as int]);
        } else {
            assert(w =~= Seq::<Seq<char>>::empty());
        }
    }
    j < n && line.get_char(j) != '#'
}

/// The instrument names of a list, in order.
pub fn listed_names(list: &str) -> (r: Vec<String>)
    ensures
        r.deep_view() == listed(list@),
{
    let n = list.unicode_len();
    let mut out: Vec<String> = Vec::new();
    let mut i: usize = 0;
    let ghost s = list@;
    while i < n
        invariant
            n == s.len(),
            s == list@,
            i <= n,
            out.deep_view() + lines_from(s, i as int).filter(|l: Seq<char>| names_instrument(l))
                == listed(s),
        decreases n - i,
    {
        let mut k: usize = i;
        while k < n && list.get_char(k) != '\n'
            invariant
                n == s.len(),
                s == list@,
                i <= k <= n,
                line_end(s, i as int) == line_end(s, k as int),
            decreases n - k,
        {
            k = k + 1;
        }
        proof {
            lemma_line_end_bounds(s, i as int);
        }
        let stop = if k < n && i < k && list.get_char(k - 1) == '\r' {
            k - 1
        } else {
            k
        };
        let line = list.substring_char(i, stop);
        assert(line@ == line_text(s, i as int, k as int));
        let ghost rest = if k < n {
            lines_from(s, k + 1)
        } else {
            Seq::<Seq<char>>::empty()
        };
        let ghost f = |l: Seq<char>| names_instrument(l);
        proof {
            assert(lines_from(s, i as int) =~= seq![line@] + rest);
            Seq::filter_distributes_over_add(seq![line@], rest, f);
            reveal(Seq::filter);
            assert(seq![line@].drop_last() =~= Seq::<Seq<char>>::empty());
        }
        if line_names_instrument(line) {
            let ghost before = out.deep_view();
            out.push(String::from_str(line));
            proof {
                assert(f(line@));
                assert(Seq::<Seq<char>>::empty().filter(f) =~= Seq::<Seq<char>>::empty());
                assert(out.deep_view() =~= before.push(line@));
                assert(seq![line@].filter(f) =~= seq![line@]);
                assert(before + lines_from(s, i as int).filter(f) =~= out.deep_view() + rest.filter(f));
            }
        } else {
            proof {
                assert(!f(line@));
                assert(Seq::<Seq<char>>::empty().filter(f) =~= Seq::<Seq<char>>::empty());
                assert(seq![line@].filter(f) =~= Seq::<Seq<char>>::empty());
                assert(lines_from(s, i as int).filter(f) =~= rest.filter(f));
            }
        }
        if k < n {
            i = k + 1;
        } else {
            proof {
                assert(Seq::<Seq<char>>::empty().filter(f) =~= Seq::<Seq<char>>::empty());
                assert(out.deep_view() + Seq::<Seq<char>>::empty() =~= out.deep_view());
            }
            i = n;
        }
    }
    proof {
        assert(lines_from(s, i as int) =~= Seq::<Seq<char>>::empty());
        assert(Seq::<Seq<char>>::empty().filter(|l: Seq<char>| names_instrument(l)) =~= Seq::<Seq<char>>::empty());
        assert(out.deep_view() + Seq::<Seq<char>>::empty() =~= out.deep_view());
    }
    out
}

/// A file found beside the list: its name without directory, and the path
/// to hand to the control program.
#[derive(Debug)]
pub struct SongFile {
    pub name: String,
    pub path: String,
}

/// The files whose name is listed, in directory order.
pub open spec fn kept_files(names: Seq<Seq<char>>, files: Seq<SongFile>) -> Seq<SongFile> {
    files.filter(|f: SongFile| names.contains(f.name@))
}

/// The catalog that adding `files` in order makes: name to path.
pub open spec fn entries_map(files: Seq<SongFile>) -> Map<Seq<char>, Seq<char>>
    decreases files.len(),
{
    if files.len() == 0 {
        Map::empty()
    } else {
        entries_map(files.drop_last()).insert(files.last().name@, files.last().path@)
    }
}

/// The order of names that adding `files` in order makes.
pub open spec fn entries_order(files: Seq<SongFile>) -> Seq<Seq<char>>
    decreases files.len(),
{
    if files.len() == 0 {
        Seq::empty()
    } else {
        let o = entries_order(files.drop_last());
        if o.contains(files.last().name@) {
            o
        } else {
            o.push(files.last().name@)
        }
    }
}

/// The first of `names` that `m` holds, or the empty name.
pub open spec fn first_listed(names: Seq<Seq<char>>, m: Map<Seq<char>, Seq<char>>) -> Seq<char>
    decreases names.len(),
{
    if names.len() == 0 {
        Seq::empty()
    } else if m.contains_key(names[0]) {
        names[0]
    } else {
        first_listed(names.drop_first(), m)
    }
}

proof fn lemma_first_listed_valid(names: Seq<Seq<char>>, m: Map<Seq<char>, Seq<char>>)
    ensures
        first_listed(names, m).len() == 0 || m.contains_key(first_listed(names, m)),
    decreases names.len(),
{
    if names.len() > 0 && !m.contains_key(names[0]) {
        lemma_first_listed_valid(names.drop_first(), m);
    }
}

fn is_listed(names: &Vec<String>, name: &str) -> (r: bool)
    ensures
        r == names.deep_view().contains(name@),
{
    let mut i: usize = 0;
    while i < names.len()
        invariant
            i <= names.len(),
            forall|j: int| 0 <= j < i ==> #[trigger] names.deep_view()[j] != name@,
        decreases names.len() - i,
    {
        assert(names.deep_view()[i as int] == names@[i as int]@);
        if crate::text::same_text(names[i].as_str(), name) {
            return true;
        }
        i = i + 1;
    }
    false
}

fn catalog_of_files(names: &Vec<String>, files: &Vec<SongFile>) -> (r: Catalog)
    ensures
        r.wf(),
        r.view() == entries_map(kept_files(names.deep_view(), files@)),
        r.order() == entries_order(kept_files(names.deep_view(), files@)),
{
    let mut catalog = Catalog::new();
    let ghost f = |x: SongFile| names.deep_view().contains(x.name@);
    let mut i: usize = 0;
    proof {
        reveal(Seq::filter);
        assert(files@.subrange(0, 0).filter(f) =~= Seq::<SongFile>::empty());
    }
    while i < files.len()
        invariant
            i <= files.len(),
            f == (|x: SongFile| names.deep_view().contains(x.name@)),
            catalog.wf(),
            catalog.view() == entries_map(files@.subrange(0, i as int).filter(f)),
            catalog.order() == entries_order(files@.subrange(0, i as int).filter(f)),
        decreases files.len() - i,
    {
        let file = &files[i];
        let ghost done = files@.subrange(0, i as int);
        proof {
            assert(files@.subrange(0, i + 1) =~= done + seq![*file]);
            Seq::filter_distributes_over_add(done, seq![*file], f);
            reveal(Seq::filter);
            assert(seq![*file].drop_last() =~= Seq::<SongFile>::empty());
            assert(Seq::<SongFile>::empty().filter(f) =~= Seq::<SongFile>::empty());
        }
        if is_listed(names, file.name.as_str()) {
            proof {
                assert(f(*file));
                assert(seq![*file].filter(f) =~= seq![*file]);
                let k = done.filter(f).push(*file);
                assert(files@.subrange(0, i + 1).filter(f) =~= k);
                assert(k.drop_last() =~= done.filter(f));
            }
            catalog.insert(file.name.clone(), file.path.clone());
        } else {
            proof {
                assert(!f(*file));
                assert(seq![*file].filter(f) =~= Seq::<SongFile>::empty());
                assert(files@.subrange(0, i + 1).filter(f) =~= done.filter(f));
            }
        }
        i = i + 1;
    }
    assert(files@.subrange(0, files@.len() as int) =~= files@);
    catalog
}

fn first_listed_of(names: &Vec<String>, catalog: &Catalog) -> (r: String)
    requires
        catalog.wf(),
    ensures
        r@ == first_listed(names.deep_view(), catalog.view()),
{
    let ghost all = names.deep_view();
    let mut i: usize = 0;
    assert(all.subrange(0, all.len() as int) =~= all);
    while i < names.len()
        invariant
            catalog.wf(),
            all == names.deep_view(),
            i <= names.len(),
            first_listed(all, catalog.view()) == first_listed(all.subrange(i as int, all.len() as int), catalog.view()),
        decreases names.len() - i,
    {
        let ghost rest = all.subrange(i as int, all.len() as int);
        assert(rest[0] == names@[i as int]@);
        assert(rest.drop_first() =~= all.subrange(i + 1, all.len() as int));
        if catalog.contains(names[i].as_str()) {
            return names[i].clone();
        }
        i = i + 1;
    }
    assert(all.subrange(i as int, all.len() as int) =~= Seq::<Seq<char>>::empty());
    String::new()
}

/// The store that the instrument list `list` and the files beside it
/// describe. The selection is the first listed instrument that has a file.
/// Fails when no listed instrument has a file.
pub fn load_store(list: &str, files: &Vec<SongFile>) -> (r: Result<Store, ConfigError>)
    ensures
        r is Err <==> entries_map(kept_files(listed(list@), files@)).dom().len() == 0,
        r matches Err(e) ==> e == ConfigError::EmptyCatalog,
        r matches Ok(s) ==> s.wf() && s.view() == (StoreModel {
            selected: first_listed(
                listed(list@),
                entries_map(kept_files(listed(list@), files@)),
            ),
            instruments: entries_map(kept_files(listed(list@), files@)),
            order: entries_order(kept_files(listed(list@), files@)),
        }),
{
    let names = listed_names(list);
    let catalog = catalog_of_files(&names, files);
    let selected = first_listed_of(&names, &catalog);
    proof {
        lemma_first_listed_valid(names.deep_view(), catalog.view());
    }
    Store::new(selected, catalog)
}

} // verus!
