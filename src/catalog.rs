//! The catalog store: loading, selection that avoids a set of ids, and lookup.
use vstd::prelude::*;
use crate::json::{EntryView, FieldView, JsonField, RawEntry, entries_of, entries_view, read_entries};
use crate::recipe::{Recipe, RecipeView};

verus! {

/// A field of a catalog entry.
#[derive(Debug, Clone, Copy, PartialEq, Eq, Structural)]
pub enum CatalogField {
    Name,
    Start,
    End,
    HasPicture,
}

/// Why a catalog could not be loaded.
#[derive(Debug, Clone, Copy, PartialEq, Eq, Structural)]
pub enum LoadError {
    /// A required field is absent from an entry.
    MissingField(CatalogField),
    /// A field is present but does not hold the expected kind of value.
    WrongType(CatalogField),
    /// The source could not be read.
    SourceUnreadable,
    /// The source is not JSON, or not a JSON array.
    MalformedSource,
    /// The source holds more entries than integer ids can number.
    TooManyEntries,
}

/// The value of a required text field.
pub open spec fn text_field(f: FieldView, which: CatalogField) -> Result<Seq<char>, LoadError> {
    match f {
        FieldView::Missing => Err(LoadError::MissingField(which)),
        FieldView::Text(s) => Ok(s),
        _ => Err(LoadError::WrongType(which)),
    }
}

/// The value of a required page field: an integer that fits in `i32`.
pub open spec fn page_field(f: FieldView, which: CatalogField) -> Result<i32, LoadError> {
    match f {
        FieldView::Missing => Err(LoadError::MissingField(which)),
        FieldView::Number(Some(n)) => if i32::MIN <= n <= i32::MAX {
            Ok(n as i32)
        } else {
            Err(LoadError::WrongType(which))
        },
        _ => Err(LoadError::WrongType(which)),
    }
}

/// The value of the optional picture flag, true where absent.
pub open spec fn picture_field(f: FieldView) -> Result<bool, LoadError> {
    match f {
        FieldView::Missing => Ok(true),
        FieldView::Flag(b) => Ok(b),
        _ => Err(LoadError::WrongType(CatalogField::HasPicture)),
    }
}

/// The record that `e` describes, numbered `id`; fields are checked in the
/// order name, start, end, picture flag.
pub open spec fn entry_record(e: EntryView, id: i32) -> Result<RecipeView, LoadError> {
    match text_field(e.name, CatalogField::Name) {
        Err(x) => Err(x),
        Ok(name) => match page_field(e.start, CatalogField::Start) {
            Err(x) => Err(x),
            Ok(start) => match page_field(e.end, CatalogField::End) {
                Err(x) => Err(x),
                Ok(end) => match picture_field(e.has_picture) {
                    Err(x) => Err(x),
                    Ok(pic) => Ok(
                        RecipeView {
                            id: Some(id),
                            name,
                            page_start: start,
                            page_end: end,
                            has_picture: pic,
                        },
                    ),
                },
            },
        },
    }
}

/// The records that a sequence of source elements gives (`None` stands for
/// an element that is not an object, which is skipped), numbered from 1 in
/// order; or the error of the first faulty entry.
pub open spec fn catalog_of(items: Seq<Option<EntryView>>) -> Result<Seq<RecipeView>, LoadError>
    decreases items.len(),
{
    if items.len() == 0 {
        Ok(Seq::empty())
    } else {
        match catalog_of(items.drop_last()) {
            Err(x) => Err(x),
            Ok(rs) => match items.last() {
                None => Ok(rs),
                Some(e) => match entry_record(e, (rs.len() + 1) as i32) {
                    Err(x) => Err(x),
                    Ok(r) => Ok(rs.push(r)),
                },
            },
        }
    }
}

/// Whether `r` has an id listed in `excluded`.
pub open spec fn is_excluded(r: RecipeView, excluded: Seq<i32>) -> bool {
    match r.id {
        Some(i) => excluded.contains(i),
        None => false,
    }
}

/// The records of `s` whose id is not in `excluded`, in catalog order.
pub open spec fn unseen(s: Seq<RecipeView>, excluded: Seq<i32>) -> Seq<RecipeView>
    decreases s.len(),
{
    if s.len() == 0 {
        Seq::empty()
    } else {
        let rest = unseen(s.drop_last(), excluded);
        if is_excluded(s.last(), excluded) {
            rest
        } else {
            rest.push(s.last())
        }
    }
}

/// The selection that the draw `draw` makes among the records not excluded.
pub open spec fn pick_of(s: Seq<RecipeView>, excluded: Seq<i32>, draw: u64) -> Option<RecipeView> {
    let c = unseen(s, excluded);
    if c.len() == 0 {
        None
    } else {
        Some(c[(draw as int) % (c.len() as int)])
    }
}

/// The loaded, read-only store of recipes.
#[derive(Debug)]
pub struct Catalog {
    records: Vec<Recipe>,
}

impl Catalog {
    /// Every catalog numbers its records 1, 2, ... in order.
    #[verifier::type_invariant]
    pub open spec fn well_formed(self) -> bool {
        ids_sequential(self@)
    }
}

impl View for Catalog {
    type V = Seq<RecipeView>;

    closed spec fn view(&self) -> Seq<RecipeView> {
        self.records@.map_values(|r: Recipe| r@)
    }
}

/// `r` is the catalog, or the error, that `o` describes.
pub open spec fn outcome_is(r: Result<Catalog, LoadError>, o: Result<Seq<RecipeView>, LoadError>) -> bool {
    match (r, o) {
        (Ok(c), Ok(rs)) => c@ == rs,
        (Err(x), Err(y)) => x == y,
        _ => false,
    }
}

/// Ids run 1, 2, ... in catalog order and fit in `i32`.
pub open spec fn ids_sequential(s: Seq<RecipeView>) -> bool {
    &&& s.len() < i32::MAX
    &&& forall|i: int| 0 <= i < s.len() ==> #[trigger] s[i].id == Some((i + 1) as i32)
}

proof fn lemma_catalog_ids(items: Seq<Option<EntryView>>)
    requires
        items.len() < i32::MAX,
    ensures
        catalog_of(items) is Ok ==> ids_sequential(catalog_of(items)->Ok_0)
            && catalog_of(items)->Ok_0.len() <= items.len(),
    decreases items.len(),
{
    if items.len() > 0 {
        lemma_catalog_ids(items.drop_last());
    }
}

/// Builds the records that `items` describe (see `catalog_of`).
pub fn build_catalog(items: Vec<Option<RawEntry>>) -> (r: Result<Catalog, LoadError>)
    requires
        items@.len() < i32::MAX,
    ensures
        outcome_is(r, catalog_of(entries_view(items@))),
        r is Ok ==> ids_sequential(r->Ok_0@),
{
    proof {
        lemma_catalog_ids(entries_view(items@));
    }
    let mut records: Vec<Recipe> = Vec::new();
    let n = items.len();
    let ghost all = entries_view(items@);
    let mut i: usize = 0;
    proof {
        assert(all.subrange(0, 0) =~= Seq::<Option<EntryView>>::empty());
        assert(records@.map_values(|r: Recipe| r@) =~= Seq::<RecipeView>::empty());
    }
    while i < n
        invariant
            n == all.len(),
            all == entries_view(items@),
            n < i32::MAX,
            i <= n,
            catalog_of(all.subrange(0, i as int)) == Ok::<Seq<RecipeView>, LoadError>(
                records@.map_values(|r: Recipe| r@),
            ),
            records@.len() <= i,
        decreases n - i,
    {
        let ghost pre = all.subrange(0, i as int);
        proof {
            assert(all.subrange(0, i as int + 1).drop_last() =~= pre);
        }
        let ghost rs = records@.map_values(|r: Recipe| r@);
        match &items[i] {
            None => {},
            Some(e) => {
                let id: i32 = (records.len() + 1) as i32;
                match record_from_entry(e, id) {
                    Ok(rec) => {
                        records.push(rec);
                        proof {
                            assert(records@.map_values(|r: Recipe| r@) =~= rs.push(rec@));
                        }
                    },
                    Err(err) => {
                        proof {
                            lemma_error_persists(all, i as int + 1);
                            assert(all.subrange(0, i as int + 1)[i as int] == all[i as int]);
                        }
                        return Err(err);
                    },
                }
            },
        }
        i = i + 1;
    }
    proof {
        assert(all.subrange(0, n as int) =~= all);
    }
    let c = Catalog { records };
    assert(c@ == records@.map_values(|r: Recipe| r@));
    Ok(c)
}

proof fn lemma_error_persists(items: Seq<Option<EntryView>>, k: int)
    requires
        0 <= k <= items.len(),
        catalog_of(items.subrange(0, k)) is Err,
    ensures
        catalog_of(items) == catalog_of(items.subrange(0, k)),
    decreases items.len() - k,
{
    if k < items.len() {
        let next = items.subrange(0, k + 1);
        assert(next.drop_last() =~= items.subrange(0, k));
        lemma_error_persists(items, k + 1);
    } else {
        assert(items.subrange(0, k) =~= items);
    }
}

/// Loads a catalog from JSON text: an array whose object elements are
/// entries, numbered from 1 in order; other elements are skipped.
pub fn fill_db(text: &str) -> (r: Result<Catalog, LoadError>)
    ensures
        entries_of(text@) is None ==> r == Err::<Catalog, LoadError>(LoadError::MalformedSource),
        entries_of(text@) is Some && entries_of(text@)->Some_0.len() >= i32::MAX ==> r == Err::<
            Catalog,
            LoadError,
        >(LoadError::TooManyEntries),
        entries_of(text@) is Some && entries_of(text@)->Some_0.len() < i32::MAX ==> outcome_is(
            r,
            catalog_of(entries_of(text@)->Some_0),
        ),
        r is Ok ==> ids_sequential(r->Ok_0@),
{
    let items = match read_entries(text) {
        Some(v) => v,
        None => { return Err(LoadError::MalformedSource); },
    };
    if items.len() >= i32::MAX as usize {
        return Err(LoadError::TooManyEntries);
    }
    build_catalog(items)
}

impl Catalog {
    /// Number of records.
    pub fn len(&self) -> (r: usize)
        ensures
            r == self@.len(),
    {
        self.records.len()
    }

    /// The record with the given id, if any.
    pub fn fetch_recipe_from_id(&self, id: i32) -> (r: Option<Recipe>)
        ensures
            ids_sequential(self@),
            r is Some <==> 1 <= id <= self@.len(),
            r is Some ==> r->Some_0@ == self@[id - 1],
    {
        proof {
            use_type_invariant(self);
        }
        if 1 <= id && (id as usize) <= self.records.len() {
            let k: usize = (id - 1) as usize;
            Some(self.records[k].copied())
        } else {
            None
        }
    }

    /// A record whose id is not in `excluded`, the one that `draw` selects
    /// among them (see `pick_of`); `None` when every record is excluded.
    pub fn fetch_random_recipe(&self, excluded: &Vec<i32>, draw: u64) -> (r: Option<Recipe>)
        ensures
            match (r, pick_of(self@, excluded@, draw)) {
                (Some(x), Some(y)) => x@ == y,
                (None, None) => true,
                _ => false,
            },
            r is Some ==> r->Some_0.id is Some && !excluded@.contains(r->Some_0.id->Some_0),
            (forall|id: i32| 1 <= id <= self@.len() ==> excluded@.contains(id)) ==> r is None,
    {
        proof {
            use_type_invariant(self);
            lemma_pick_avoids_excluded(self@, excluded@, draw);
        }
        let n = self.records.len();
        let ghost s = self@;
        let mut picks: Vec<usize> = Vec::new();
        let mut i: usize = 0;
        proof {
            assert(s.subrange(0, 0) =~= Seq::<RecipeView>::empty());
        }
        while i < n
            invariant
                n == s.len(),
                s == self@,
                i <= n,
                picks@.len() == unseen(s.subrange(0, i as int), excluded@).len(),
                forall|j: int| 0 <= j < picks@.len() ==> #[trigger] picks@[j] < n
                    && s[picks@[j] as int] == unseen(s.subrange(0, i as int), excluded@)[j],
            decreases n - i,
        {
            let ghost pre = s.subrange(0, i as int);
            proof {
                assert(s.subrange(0, i as int + 1).drop_last() =~= pre);
                assert(s.subrange(0, i as int + 1).last() == s[i as int]);
                assert(s[i as int] == self.records@[i as int]@);
            }
            let hit = match self.records[i].id {
                Some(id) => contains_id(excluded, id),
                None => false,
            };
            if !hit {
                picks.push(i);
            }
            i = i + 1;
        }
        proof {
            assert(s.subrange(0, n as int) =~= s);
        }
        if picks.len() == 0 {
            None
        } else {
            let k = picks[(draw % (picks.len() as u64)) as usize];
            proof {
                assert(s[k as int] == self.records@[k as int]@);
            }
            Some(self.records[k].copied())
        }
    }
}

fn contains_id(v: &Vec<i32>, id: i32) -> (r: bool)
    ensures
        r == v@.contains(id),
{
    let mut i: usize = 0;
    while i < v.len()
        invariant
            i <= v@.len(),
            forall|j: int| 0 <= j < i ==> v@[j] != id,
        decreases v@.len() - i,
    {
        if v[i] == id {
            return true;
        }
        i = i + 1;
    }
    false
}

/// The record that one entry describes, numbered `id`.
pub fn record_from_entry(e: &RawEntry, id: i32) -> (r: Result<Recipe, LoadError>)
    ensures
        match (r, entry_record(e@, id)) {
            (Ok(x), Ok(y)) => x@ == y,
            (Err(x), Err(y)) => x == y,
            _ => false,
        },
{
    let name = match &e.name {
        JsonField::Missing => { return Err(LoadError::MissingField(CatalogField::Name)); },
        JsonField::Text(s) => s.clone(),
        _ => { return Err(LoadError::WrongType(CatalogField::Name)); },
    };
    let page_start = match page_value(&e.start, CatalogField::Start) {
        Ok(v) => v,
        Err(x) => { return Err(x); },
    };
    let page_end = match page_value(&e.end, CatalogField::End) {
        Ok(v) => v,
        Err(x) => { return Err(x); },
    };
    let has_picture = match &e.has_picture {
        JsonField::Missing => true,
        JsonField::Flag(b) => *b,
        _ => { return Err(LoadError::WrongType(CatalogField::HasPicture)); },
    };
    Ok(Recipe { id: Some(id), name, page_start, page_end, has_picture })
}

fn page_value(f: &JsonField, which: CatalogField) -> (r: Result<i32, LoadError>)
    ensures
        r == page_field(f@, which),
{
    match f {
        JsonField::Missing => Err(LoadError::MissingField(which)),
        JsonField::Number(Some(n)) => {
            if i32::MIN as i64 <= *n && *n <= i32::MAX as i64 {
                Ok(*n as i32)
            } else {
                Err(LoadError::WrongType(which))
            }
        },
        _ => Err(LoadError::WrongType(which)),
    }
}

proof fn lemma_unseen_members(s: Seq<RecipeView>, excluded: Seq<i32>)
    ensures
        forall|j: int| 0 <= j < unseen(s, excluded).len() ==> !is_excluded(
            #[trigger] unseen(s, excluded)[j],
            excluded,
        ) && s.contains(unseen(s, excluded)[j]),
    decreases s.len(),
{
    if s.len() > 0 {
        let t = s.drop_last();
        lemma_unseen_members(t, excluded);
        assert forall|j: int| 0 <= j < unseen(s, excluded).len() implies !is_excluded(
            #[trigger] unseen(s, excluded)[j],
            excluded,
        ) && s.contains(unseen(s, excluded)[j]) by {
            if j < unseen(t, excluded).len() {
                let k = choose|k: int| 0 <= k < t.len() && t[k] == unseen(t, excluded)[j];
                assert(s[k] == t[k]);
            } else {
                assert(s[s.len() - 1] == s.last());
            }
        }
    }
}

proof fn lemma_unseen_empty(s: Seq<RecipeView>, excluded: Seq<i32>)
    requires
        forall|i: int| 0 <= i < s.len() ==> is_excluded(#[trigger] s[i], excluded),
    ensures
        unseen(s, excluded).len() == 0,
    decreases s.len(),
{
    if s.len() > 0 {
        let t = s.drop_last();
        assert forall|i: int| 0 <= i < t.len() implies is_excluded(#[trigger] t[i], excluded) by {
            assert(t[i] == s[i]);
        }
        lemma_unseen_empty(t, excluded);
        assert(s[s.len() - 1] == s.last());
    }
}

proof fn lemma_unseen_nonempty(s: Seq<RecipeView>, excluded: Seq<i32>, i: int)
    requires
        0 <= i < s.len(),
        !is_excluded(s[i], excluded),
    ensures
        unseen(s, excluded).len() > 0,
    decreases s.len(),
{
    let t = s.drop_last();
    if i < s.len() - 1 {
        assert(t[i] == s[i]);
        lemma_unseen_nonempty(t, excluded, i);
    } else {
        assert(s[s.len() - 1] == s.last());
    }
}

/// Selection never returns a record whose id is excluded, and returns
/// nothing once every id of the catalog is excluded.
pub proof fn lemma_pick_avoids_excluded(s: Seq<RecipeView>, excluded: Seq<i32>, draw: u64)
    requires
        ids_sequential(s),
    ensures
        pick_of(s, excluded, draw) is Some ==> {
            let r = pick_of(s, excluded, draw)->Some_0;
            &&& s.contains(r)
            &&& r.id is Some
            &&& 1 <= r.id->Some_0 <= s.len()
            &&& !excluded.contains(r.id->Some_0)
        },
        (exists|id: i32| 1 <= id <= s.len() && !excluded.contains(id)) ==> pick_of(
            s,
            excluded,
            draw,
        ) is Some,
        (forall|id: i32| 1 <= id <= s.len() ==> excluded.contains(id)) ==> pick_of(
            s,
            excluded,
            draw,
        ) is None,
{
    lemma_unseen_members(s, excluded);
    let c = unseen(s, excluded);
    if c.len() > 0 {
        let j = (draw as int) % (c.len() as int);
        assert(!is_excluded(c[j], excluded) && s.contains(c[j]));
        let k = choose|k: int| 0 <= k < s.len() && s[k] == c[j];
        assert(s[k].id == Some((k + 1) as i32));
    }
    if exists|id: i32| 1 <= id <= s.len() && !excluded.contains(id) {
        let id = choose|id: i32| 1 <= id <= s.len() && !excluded.contains(id);
        assert(s[id - 1].id == Some(id));
        lemma_unseen_nonempty(s, excluded, id - 1);
    }
    if forall|id: i32| 1 <= id <= s.len() ==> excluded.contains(id) {
        assert forall|i: int| 0 <= i < s.len() implies is_excluded(#[trigger] s[i], excluded) by {
            assert(s[i].id == Some((i + 1) as i32));
            assert(excluded.contains((i + 1) as i32));
        }
        lemma_unseen_empty(s, excluded);
    }
}

} // verus!
