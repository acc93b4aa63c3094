//! The catalog of instruments: each name maps to an opaque locator handed
//! to the control program. Names keep the order in which they were added.
use crate::text::same_text;
use vstd::prelude::*;
use vstd::string::*;
use vstd::utf8::encode_utf8;

verus! {

/// The map that parallel sequences of names and locators describe; a
/// later entry for a name wins over an earlier one.
pub open spec fn map_of(names: Seq<Seq<char>>, locators: Seq<Seq<char>>) -> Map<
    Seq<char>,
    Seq<char>,
>
    decreases names.len(),
{
    if names.len() == 0 || locators.len() == 0 {
        Map::empty()
    } else {
        map_of(names.drop_last(), locators.drop_last()).insert(names.last(), locators.last())
    }
}

proof fn lemma_map_of_push(
    names: Seq<Seq<char>>,
    locators: Seq<Seq<char>>,
    name: Seq<char>,
    locator: Seq<char>,
)
    ensures
        map_of(names.push(name), locators.push(locator)) == map_of(names, locators).insert(
            name,
            locator,
        ),
{
    assert(names.push(name).drop_last() =~= names);
    assert(locators.push(locator).drop_last() =~= locators);
}

proof fn lemma_map_of_entries(names: Seq<Seq<char>>, locators: Seq<Seq<char>>)
    requires
        names.len() == locators.len(),
        names.no_duplicates(),
    ensures
        map_of(names, locators).dom() == names.to_set(),
        forall|i: int|
            0 <= i < names.len() ==> #[trigger] map_of(names, locators)[names[i]] == locators[i],
    decreases names.len(),
{
    if names.len() > 0 {
        let n = names.drop_last();
        let l = locators.drop_last();
        assert(n.no_duplicates()) by {
            assert forall|a: int, b: int| 0 <= a < n.len() && 0 <= b < n.len() && a != b implies n[a]
                != n[b] by {
                assert(n[a] == names[a] && n[b] == names[b]);
            }
        }
        lemma_map_of_entries(n, l);
        assert(names =~= n.push(names.last()));
        assert(map_of(names, locators).dom() =~= names.to_set()) by {
            assert forall|k: Seq<char>| #[trigger] names.to_set().contains(k) <==> map_of(
                names,
                locators,
            ).dom().contains(k) by {
                if names.to_set().contains(k) {
                    let i = choose|i: int| 0 <= i < names.len() && names[i] == k;
                    if i < n.len() {
                        assert(n[i] == k);
                        assert(n.to_set().contains(k));
                    }
                }
                if n.to_set().contains(k) {
                    let i = choose|i: int| 0 <= i < n.len() && n[i] == k;
                    assert(names[i] == k);
                }
            }
        }
        assert forall|i: int| 0 <= i < names.len() implies #[trigger] map_of(names, locators)[names[i]]
            == locators[i] by {
            if i < n.len() {
                assert(n[i] == names[i]);
                assert(names[i] != names.last());
            }
        }
    }
}

proof fn lemma_map_of_update(names: Seq<Seq<char>>, locators: Seq<Seq<char>>, i: int, locator: Seq<char>)
    requires
        names.len() == locators.len(),
        names.no_duplicates(),
        0 <= i < names.len(),
    ensures
        map_of(names, locators.update(i, locator)) == map_of(names, locators).insert(
            names[i],
            locator,
        ),
{
    let l2 = locators.update(i, locator);
    lemma_map_of_entries(names, locators);
    lemma_map_of_entries(names, l2);
    let m1 = map_of(names, l2);
    let m2 = map_of(names, locators).insert(names[i], locator);
    assert(m1.dom() =~= m2.dom()) by {
        assert(names.to_set().contains(names[i]));
    }
    assert forall|k: Seq<char>| #[trigger] m1.dom().contains(k) implies m1[k] == m2[k] by {
        let j = choose|j: int| 0 <= j < names.len() && names[j] == k;
        assert(m1[names[j]] == l2[j]);
    }
    assert(m1 =~= m2);
}

/// Instrument names and their locators.
pub struct Catalog {
    names: Vec<String>,
    locators: Vec<String>,
}

impl Catalog {
    /// Names in the order in which they were first added.
    pub closed spec fn order(&self) -> Seq<Seq<char>> {
        self.names.deep_view()
    }

    /// Name to locator.
    pub closed spec fn view(&self) -> Map<Seq<char>, Seq<char>> {
        map_of(self.names.deep_view(), self.locators.deep_view())
    }

    /// The catalog holds each name once, and its map holds exactly the names
    /// of its order.
    pub closed spec fn wf(&self) -> bool {
        &&& self.names.len() == self.locators.len()
        &&& self.names.deep_view().no_duplicates()
    }

    pub proof fn lemma_wf_order(&self)
        requires
            self.wf(),
        ensures
            self.view().dom() == self.order().to_set(),
            self.order().no_duplicates(),
    {
        lemma_map_of_entries(self.names.deep_view(), self.locators.deep_view());
    }

    /// An empty catalog.
    pub fn new() -> (r: Catalog)
        ensures
            r.wf(),
            r.view() == Map::<Seq<char>, Seq<char>>::empty(),
            r.order() == Seq::<Seq<char>>::empty(),
    {
        let r = Catalog { names: Vec::new(), locators: Vec::new() };
        assert(r.names.deep_view() =~= Seq::<Seq<char>>::empty());
        assert(r.locators.deep_view() =~= Seq::<Seq<char>>::empty());
        r
    }

    /// Number of instruments.
    pub fn len(&self) -> (r: usize)
        requires
            self.wf(),
        ensures
            r == self.order().len(),
            r == self.view().dom().len(),
    {
        proof {
            self.lemma_wf_order();
            self.order().unique_seq_to_set();
        }
        self.names.len()
    }

    /// Position of `name` in the order, if present.
    fn position(&self, name: &str) -> (r: Option<usize>)
        requires
            self.wf(),
        ensures
            r is None ==> !self.order().contains(name@),
            r matches Some(i) ==> i < self.order().len() && self.order()[i as int] == name@,
    {
        let mut i: usize = 0;
        while i < self.names.len()
            invariant
                self.wf(),
                i <= self.names.len(),
                forall|j: int| 0 <= j < i ==> #[trigger] self.order()[j] != name@,
            decreases self.names.len() - i,
        {
            if same_text(self.names[i].as_str(), name) {
                assert(self.order()[i as int] == self.names@[i as int]@);
                return Some(i);
            }
            assert(self.order()[i as int] == self.names@[i as int]@);
            i = i + 1;
        }
        None
    }

    /// Whether `name` is in the catalog.
    pub fn contains(&self, name: &str) -> (r: bool)
        requires
            self.wf(),
        ensures
            r == self.view().contains_key(name@),
    {
        proof {
            self.lemma_wf_order();
        }
        self.position(name).is_some()
    }

    /// The locator of `name`, if it is in the catalog.
    pub fn locator_of(&self, name: &str) -> (r: Option<String>)
        requires
            self.wf(),
        ensures
            r is None <==> !self.view().contains_key(name@),
            r matches Some(l) ==> self.view().contains_key(name@) && l@ == self.view()[name@],
    {
        proof {
            self.lemma_wf_order();
            lemma_map_of_entries(self.names.deep_view(), self.locators.deep_view());
        }
        match self.position(name) {
            None => None,
            Some(i) => {
                assert(self.locators.deep_view()[i as int] == self.locators@[i as int]@);
                Some(self.locators[i].clone())
            },
        }
    }

    /// The name at `index` in the order.
    pub fn name_at(&self, index: usize) -> (r: &String)
        requires
            self.wf(),
            index < self.order().len(),
        ensures
            r@ == self.order()[index as int],
    {
        &self.names[index]
    }

    /// Adds `name`, or gives it a new locator when it is already there.
    pub fn insert(&mut self, name: String, locator: String)
        requires
            old(self).wf(),
        ensures
            final(self).wf(),
            final(self).view() == old(self).view().insert(name@, locator@),
            old(self).order().contains(name@) ==> final(self).order() == old(self).order(),
            !old(self).order().contains(name@) ==> final(self).order() == old(self).order().push(
                name@,
            ),
    {
        match self.position(name.as_str()) {
            Some(i) => {
                let ghost names = self.names.deep_view();
                let ghost before = self.locators.deep_view();
                self.locators.set(i, locator);
                proof {
                    assert(self.locators.deep_view() =~= before.update(i as int, locator@));
                    lemma_map_of_update(names, before, i as int, locator@);
                }
            },
            None => {
                let ghost names = self.names.deep_view();
                let ghost locs = self.locators.deep_view();
                self.names.push(name);
                self.locators.push(locator);
                proof {
                    assert(self.names.deep_view() =~= names.push(name@));
                    assert(self.locators.deep_view() =~= locs.push(locator@));
                    lemma_map_of_push(names, locs, name@, locator@);
                    assert forall|a: int, b: int|
                        0 <= a < self.names.deep_view().len() && 0 <= b
                            < self.names.deep_view().len() && a != b implies self.names.deep_view()[a]
                        != self.names.deep_view()[b] by {
                        if a == names.len() {
                            assert(names[b] == self.names.deep_view()[b]);
                        } else if b == names.len() {
                            assert(names[a] == self.names.deep_view()[a]);
                        } else {
                            assert(names[a] == self.names.deep_view()[a]);
                            assert(names[b] == self.names.deep_view()[b]);
                        }
                    }
                }
            },
        }
    }
}

/// Each name followed by a line feed.
pub open spec fn song_listing(order: Seq<Seq<char>>) -> Seq<char>
    decreases order.len(),
{
    if order.len() == 0 {
        Seq::empty()
    } else {
        song_listing(order.drop_last()) + order.last() + "\n"@
    }
}

/// The instrument names, one per line, as UTF-8 bytes.
pub fn list_songs(catalog: &Catalog) -> (r: Vec<u8>)
    requires
        catalog.wf(),
    ensures
        r@ == encode_utf8(song_listing(catalog.order())),
{
    let mut out = String::new();
    let n = catalog.len();
    let mut i: usize = 0;
    while i < n
        invariant
            catalog.wf(),
            n == catalog.order().len(),
            i <= n,
            out@ == song_listing(catalog.order().subrange(0, i as int)),
        decreases n - i,
    {
        out.append(catalog.name_at(i).as_str());
        out.append("\n");
        proof {
            let o = catalog.order();
            assert(o.subrange(0, i + 1).drop_last() =~= o.subrange(0, i as int));
        }
        i = i + 1;
    }
    assert(catalog.order().subrange(0, n as int) =~= catalog.order());
    out.as_str().as_bytes_vec()
}

} // verus!
