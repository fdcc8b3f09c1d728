//! The catalog of listed items and the queries the protocol answers from it.
use crate::text::{contains, contains_text, lower_of, same_text, to_lower};
use vstd::prelude::*;
use vstd::string::StringExecFns;

verus! {

/// One listed item. `price` is display text and is never read as a number.
pub struct Item {
    pub id: String,
    pub name: String,
    pub category: String,
    pub description: String,
    pub price: String,
    pub seller: String,
}

/// The attributes of an item as character sequences.
pub struct ItemView {
    pub id: Seq<char>,
    pub name: Seq<char>,
    pub category: Seq<char>,
    pub description: Seq<char>,
    pub price: Seq<char>,
    pub seller: Seq<char>,
}

impl View for Item {
    type V = ItemView;

    open spec fn view(&self) -> ItemView {
        ItemView {
            id: self.id@,
            name: self.name@,
            category: self.category@,
            description: self.description@,
            price: self.price@,
            seller: self.seller@,
        }
    }
}

impl Item {
    pub fn new(
        id: &str,
        name: &str,
        category: &str,
        description: &str,
        price: &str,
        seller: &str,
    ) -> (r: Item)
        ensures
            r@ == (ItemView {
                id: id@,
                name: name@,
                category: category@,
                description: description@,
                price: price@,
                seller: seller@,
            }),
    {
        Item {
            id: id.to_owned(),
            name: name.to_owned(),
            category: category.to_owned(),
            description: description.to_owned(),
            price: price.to_owned(),
            seller: seller.to_owned(),
        }
    }
}

/// No two items share an id.
pub open spec fn unique_ids(s: Seq<ItemView>) -> bool {
    forall|i: int, j: int| 0 <= i < s.len() && 0 <= j < s.len() && i != j ==> s[i].id != s[j].id
}

/// Index of the first item at or after `i` whose id is `id` (the length if none).
pub open spec fn find_from(s: Seq<ItemView>, id: Seq<char>, i: int) -> int
    decreases s.len() - i,
{
    if 0 <= i < s.len() && s[i].id != id {
        find_from(s, id, i + 1)
    } else {
        i
    }
}

/// Index of the item whose id is `id` (the length if none).
pub open spec fn find_id(s: Seq<ItemView>, id: Seq<char>) -> int {
    find_from(s, id, 0)
}

/// The catalog after inserting `it`: an item with the same id is replaced in
/// place, otherwise `it` is appended.
pub open spec fn inserted(s: Seq<ItemView>, it: ItemView) -> Seq<ItemView> {
    let k = find_id(s, it.id);
    if k < s.len() {
        s.update(k, it)
    } else {
        s.push(it)
    }
}

/// The characters of an optional text.
pub open spec fn opt_chars(f: Option<&str>) -> Option<Seq<char>> {
    match f {
        Some(x) => Some(x@),
        None => None,
    }
}

/// The items of `s` that satisfy `p`, in catalog order.
pub open spec fn pick(s: Seq<ItemView>, p: spec_fn(ItemView) -> bool) -> Seq<ItemView>
    decreases s.len(),
{
    if s.len() == 0 {
        Seq::empty()
    } else {
        let r = pick(s.drop_last(), p);
        if p(s.last()) {
            r.push(s.last())
        } else {
            r
        }
    }
}

/// `<id>. <name> - <price>` and a newline.
pub open spec fn line_of(it: ItemView) -> Seq<char> {
    it.id + ". "@ + it.name + " - "@ + it.price + "\n"@
}

/// One listing line per item, in order.
pub open spec fn lines_of(s: Seq<ItemView>) -> Seq<char>
    decreases s.len(),
{
    if s.len() == 0 {
        Seq::empty()
    } else {
        lines_of(s.drop_last()) + line_of(s.last())
    }
}

/// The item's category equals `f` up to case.
pub open spec fn category_matches(it: ItemView, f: Seq<char>) -> bool {
    lower_of(it.category) == lower_of(f)
}

/// The filter of a listing: everything, or one category up to case.
pub open spec fn list_pred(f: Option<Seq<char>>) -> spec_fn(ItemView) -> bool {
    |it: ItemView|
        match f {
            Some(c) => category_matches(it, c),
            None => true,
        }
}

/// The term occurs, up to case, in the name, the description or the category.
pub open spec fn term_matches(it: ItemView, t: Seq<char>) -> bool {
    let lt = lower_of(t);
    contains(lower_of(it.name), lt) || contains(lower_of(it.description), lt) || contains(
        lower_of(it.category),
        lt,
    )
}

pub open spec fn search_pred(t: Seq<char>) -> spec_fn(ItemView) -> bool {
    |it: ItemView| term_matches(it, t)
}

/// Response to a listing with an optional category filter.
pub open spec fn list_text(s: Seq<ItemView>, f: Option<Seq<char>>) -> Seq<char> {
    let sel = pick(s, list_pred(f));
    if sel.len() == 0 {
        "No items found\n"@
    } else {
        lines_of(sel)
    }
}

/// Response to a search.
pub open spec fn search_text(s: Seq<ItemView>, t: Seq<char>) -> Seq<char> {
    let sel = pick(s, search_pred(t));
    if sel.len() == 0 {
        "No items found matching your search\n"@
    } else {
        lines_of(sel)
    }
}

/// The detail record of one item.
pub open spec fn record_of(it: ItemView) -> Seq<char> {
    "ID: "@ + it.id + "\nName: "@ + it.name + "\nCategory: "@ + it.category + "\nPrice: "@
        + it.price + "\nSeller: "@ + it.seller + "\n\n"@ + it.description + "\n"@
}

/// Response to a lookup by id.
pub open spec fn get_text(s: Seq<ItemView>, id: Seq<char>) -> Seq<char> {
    let k = find_id(s, id);
    if k < s.len() {
        record_of(s[k])
    } else {
        "Item with ID "@ + id + " not found\n"@
    }
}

/// The categories of `s`, each once, in order of first appearance.
pub open spec fn distinct_categories(s: Seq<ItemView>) -> Seq<Seq<char>>
    decreases s.len(),
{
    if s.len() == 0 {
        Seq::empty()
    } else {
        let d = distinct_categories(s.drop_last());
        if d.contains(s.last().category) {
            d
        } else {
            d.push(s.last().category)
        }
    }
}

/// `- <category>` and a newline, per category.
pub open spec fn category_lines(d: Seq<Seq<char>>) -> Seq<char>
    decreases d.len(),
{
    if d.len() == 0 {
        Seq::empty()
    } else {
        category_lines(d.drop_last()) + "- "@ + d.last() + "\n"@
    }
}

/// Response to a request for the categories.
pub open spec fn categories_text(s: Seq<ItemView>) -> Seq<char> {
    "Available categories:\n"@ + category_lines(distinct_categories(s))
}

/// The in-memory collection of items, keyed by id.
pub struct Catalog {
    items: Vec<Item>,
}

impl View for Catalog {
    type V = Seq<ItemView>;

    closed spec fn view(&self) -> Seq<ItemView> {
        self.items@.map_values(|it: Item| it@)
    }
}

fn append_line(out: &mut String, it: &Item)
    ensures
        final(out)@ == old(out)@ + line_of(it@),
{
    out.append(it.id.as_str());
    out.append(". ");
    out.append(it.name.as_str());
    out.append(" - ");
    out.append(it.price.as_str());
    out.append("\n");
}

impl Catalog {
    /// Ids are unique.
    pub open spec fn wf(&self) -> bool {
        unique_ids(self@)
    }

    pub fn new() -> (r: Catalog)
        ensures
            r@ == Seq::<ItemView>::empty(),
            r.wf(),
    {
        let r = Catalog { items: Vec::new() };
        assert(r@ =~= Seq::<ItemView>::empty());
        r
    }

    pub fn len(&self) -> (r: usize)
        ensures
            r == self@.len(),
    {
        self.items.len()
    }

    fn index_of(&self, id: &str) -> (r: usize)
        ensures
            r as int == find_id(self@, id@),
            r <= self@.len(),
    {
        let n = self.items.len();
        let mut i: usize = 0;
        while i < n && !same_text(self.items[i].id.as_str(), id)
            invariant
                n == self@.len(),
                i <= n,
                find_id(self@, id@) == find_from(self@, id@, i as int),
            decreases n - i,
        {
            i = i + 1;
        }
        i
    }

    /// Adds `item`, replacing the item with the same id if there is one.
    pub fn insert(&mut self, item: Item)
        requires
            old(self).wf(),
        ensures
            final(self)@ == inserted(old(self)@, item@),
            final(self).wf(),
    {
        let k = self.index_of(item.id.as_str());
        proof {
            lemma_find_from_hit(self@, item@.id, 0);
        }
        if k < self.items.len() {
            self.items.set(k, item);
            assert(self@ =~= inserted(old(self)@, item@));
        } else {
            self.items.push(item);
            assert(self@ =~= inserted(old(self)@, item@));
        }
    }

    /// The detail record of the item with this id, or a not-found message.
    pub fn get_record(&self, id: &str) -> (r: String)
        ensures
            r@ == get_text(self@, id@),
    {
        let k = self.index_of(id);
        if k < self.items.len() {
            let it = &self.items[k];
            let mut out = String::from_str("ID: ");
            out.append(it.id.as_str());
            out.append("\nName: ");
            out.append(it.name.as_str());
            out.append("\nCategory: ");
            out.append(it.category.as_str());
            out.append("\nPrice: ");
            out.append(it.price.as_str());
            out.append("\nSeller: ");
            out.append(it.seller.as_str());
            out.append("\n\n");
            out.append(it.description.as_str());
            out.append("\n");
            out
        } else {
            let mut out = String::from_str("Item with ID ");
            out.append(id);
            out.append(" not found\n");
            out
        }
    }
}

impl Catalog {
    /// One line per item whose category equals `filter` up to case (every
    /// item when there is no filter), or a no-items message.
    pub fn list(&self, filter: Option<&str>) -> (r: String)
        ensures
            r@ == list_text(self@, opt_chars(filter)),
    {
        let ghost p = list_pred(opt_chars(filter));
        let lf: Option<String> = match filter {
            Some(f) => Some(to_lower(f)),
            None => None,
        };
        let n = self.items.len();
        let mut out = String::new();
        let mut any = false;
        let mut i: usize = 0;
        while i < n
            invariant
                n == self@.len(),
                i <= n,
                p == list_pred(opt_chars(filter)),
                filter is Some ==> lf is Some && lf->Some_0@ == lower_of(filter->Some_0@),
                filter is None ==> lf is None,
                out@ == lines_of(pick(self@.take(i as int), p)),
                any == (pick(self@.take(i as int), p).len() > 0),
            decreases n - i,
        {
            let it = &self.items[i];
            let hit = match &lf {
                Some(c) => {
                    let lc = to_lower(it.category.as_str());
                    lc == *c
                },
                None => true,
            };
            proof {
                assert(self@.take(i + 1).drop_last() =~= self@.take(i as int));
                assert(self@[i as int] == it@);
                assert(hit == p(it@));
            }
            if hit {
                proof {
                    let r = pick(self@.take(i as int), p);
                    assert(r.push(it@).drop_last() =~= r);
                }
                append_line(&mut out, it);
                any = true;
            }
            i = i + 1;
        }
        assert(self@.take(n as int) =~= self@);
        if !any {
            String::from_str("No items found\n")
        } else {
            out
        }
    }

    /// One line per item whose name, description or category holds `term`
    /// up to case, or a no-match message.
    pub fn search(&self, term: &str) -> (r: String)
        ensures
            r@ == search_text(self@, term@),
    {
        let ghost p = search_pred(term@);
        let lt = to_lower(term);
        let n = self.items.len();
        let mut out = String::new();
        let mut any = false;
        let mut i: usize = 0;
        while i < n
            invariant
                n == self@.len(),
                i <= n,
                p == search_pred(term@),
                lt@ == lower_of(term@),
                out@ == lines_of(pick(self@.take(i as int), p)),
                any == (pick(self@.take(i as int), p).len() > 0),
            decreases n - i,
        {
            let it = &self.items[i];
            let hit = contains_text(to_lower(it.name.as_str()).as_str(), lt.as_str())
                || contains_text(to_lower(it.description.as_str()).as_str(), lt.as_str())
                || contains_text(to_lower(it.category.as_str()).as_str(), lt.as_str());
            proof {
                assert(self@.take(i + 1).drop_last() =~= self@.take(i as int));
                assert(self@[i as int] == it@);
                assert(hit == p(it@));
            }
            if hit {
                proof {
                    let r = pick(self@.take(i as int), p);
                    assert(r.push(it@).drop_last() =~= r);
                }
                append_line(&mut out, it);
                any = true;
            }
            i = i + 1;
        }
        assert(self@.take(n as int) =~= self@);
        if !any {
            String::from_str("No items found matching your search\n")
        } else {
            out
        }
    }

    /// A header line, then one line per distinct category.
    pub fn categories(&self) -> (r: String)
        ensures
            r@ == categories_text(self@),
    {
        let n = self.items.len();
        let mut out = String::from_str("Available categories:\n");
        let mut seen: Vec<String> = Vec::new();
        let mut i: usize = 0;
        while i < n
            invariant
                n == self@.len(),
                i <= n,
                seen@.len() == distinct_categories(self@.take(i as int)).len(),
                forall|j: int|
                    0 <= j < seen@.len() ==> #[trigger] seen@[j]@ == distinct_categories(
                        self@.take(i as int),
                    )[j],
                out@ == "Available categories:\n"@ + category_lines(
                    distinct_categories(self@.take(i as int)),
                ),
            decreases n - i,
        {
            let it = &self.items[i];
            let ghost d = distinct_categories(self@.take(i as int));
            let mut found = false;
            let mut j: usize = 0;
            while j < seen.len() && !found
                invariant
                    seen@.len() == d.len(),
                    forall|t: int| 0 <= t < seen@.len() ==> #[trigger] seen@[t]@ == d[t],
                    j <= seen@.len(),
                    found ==> d.contains(it@.category),
                    !found ==> forall|t: int| 0 <= t < j ==> d[t] != it@.category,
                decreases seen@.len() - j + (if found { 0int } else { 1int }),
            {
                if seen[j] == it.category {
                    found = true;
                    assert(d[j as int] == it@.category);
                } else {
                    j = j + 1;
                }
            }
            proof {
                assert(self@.take(i + 1).drop_last() =~= self@.take(i as int));
                assert(self@[i as int] == it@);
                assert(found == d.contains(it@.category));
            }
            if !found {
                out.append("- ");
                out.append(it.category.as_str());
                out.append("\n");
                seen.push(it.category.clone());
                proof {
                    let d2 = distinct_categories(self@.take(i + 1));
                    assert(d2 == d.push(it@.category));
                    assert(d2.drop_last() =~= d);
                    assert(out@ =~= "Available categories:\n"@ + category_lines(d2));
                }
            }
            i = i + 1;
        }
        assert(self@.take(n as int) =~= self@);
        out
    }
}

/// A run placed between two others occurs in the whole.
pub proof fn lemma_contains_middle(p: Seq<char>, x: Seq<char>, q: Seq<char>)
    ensures
        contains(p + x + q, x),
{
    assert((p + x + q).subrange(p.len() as int, (p.len() + x.len()) as int) =~= x);
}

/// With unique ids, looking up the id of the item at `i` finds position `i`.
pub proof fn lemma_find_own_id(s: Seq<ItemView>, i: int)
    requires
        unique_ids(s),
        0 <= i < s.len(),
    ensures
        find_id(s, s[i].id) == i,
{
    lemma_find_from_hit(s, s[i].id, 0);
    let k = find_id(s, s[i].id);
    if k < i {
        assert(s[k].id == s[i].id);
    }
}

/// What a selection holds: items of the catalog, each satisfying the
/// predicate, in at most as many entries as the catalog has and strictly fewer
/// when some item fails the predicate.
pub proof fn lemma_pick_sound(s: Seq<ItemView>, p: spec_fn(ItemView) -> bool)
    ensures
        pick(s, p).len() <= s.len(),
        forall|k: int| 0 <= k < pick(s, p).len() ==> s.contains(#[trigger] pick(s, p)[k]),
        forall|k: int| 0 <= k < pick(s, p).len() ==> p(#[trigger] pick(s, p)[k]),
        (exists|j: int| 0 <= j < s.len() && !p(#[trigger] s[j])) ==> pick(s, p).len() < s.len(),
    decreases s.len(),
{
    if s.len() > 0 {
        let t = s.drop_last();
        lemma_pick_sound(t, p);
        assert forall|k: int| 0 <= k < pick(s, p).len() implies s.contains(
            #[trigger] pick(s, p)[k],
        ) by {
            if k < pick(t, p).len() {
                let j = choose|j: int| 0 <= j < t.len() && t[j] == pick(t, p)[k];
                assert(s[j] == pick(s, p)[k]);
            } else {
                assert(s[s.len() - 1] == pick(s, p)[k]);
            }
        }
        if exists|j: int| 0 <= j < s.len() && !p(#[trigger] s[j]) {
            let j = choose|j: int| 0 <= j < s.len() && !p(#[trigger] s[j]);
            if j < s.len() - 1 {
                assert(!p(t[j]));
            }
        }
    }
}

/// Selecting with a predicate that holds everywhere keeps the whole catalog.
pub proof fn lemma_pick_all(s: Seq<ItemView>)
    ensures
        pick(s, list_pred(None)) == s,
    decreases s.len(),
{
    if s.len() > 0 {
        lemma_pick_all(s.drop_last());
        assert(s.drop_last().push(s.last()) =~= s);
    }
}

/// The distinct categories hold no duplicate, and a category is among them
/// exactly when some item has it.
pub proof fn lemma_distinct_categories(s: Seq<ItemView>)
    ensures
        distinct_categories(s).no_duplicates(),
        forall|c: Seq<char>|
            #[trigger] distinct_categories(s).contains(c) <==> exists|i: int|
                0 <= i < s.len() && s[i].category == c,
    decreases s.len(),
{
    if s.len() > 0 {
        let t = s.drop_last();
        lemma_distinct_categories(t);
        let d = distinct_categories(t);
        let x = s.last().category;
        assert forall|c: Seq<char>|
            #[trigger] distinct_categories(s).contains(c) <==> exists|i: int|
                0 <= i < s.len() && s[i].category == c by {
            if distinct_categories(s).contains(c) {
                if d.contains(c) {
                    let i = choose|i: int| 0 <= i < t.len() && t[i].category == c;
                    assert(s[i].category == c);
                } else {
                    assert(c == x);
                    assert(s[s.len() - 1].category == c);
                }
            }
            if exists|i: int| 0 <= i < s.len() && s[i].category == c {
                let i = choose|i: int| 0 <= i < s.len() && s[i].category == c;
                if i < s.len() - 1 {
                    assert(t[i].category == c);
                    assert(d.contains(c));
                    if !d.contains(x) {
                        assert(d.push(x)[d.index_of(c)] == c);
                    }
                } else {
                    if !d.contains(x) {
                        assert(d.push(x)[d.len() as int] == c);
                    }
                }
            }
        }
    }
}

/// Where the scan from `i` stops, the id matches or the end is reached.
proof fn lemma_find_from_hit(s: Seq<ItemView>, id: Seq<char>, i: int)
    requires
        0 <= i <= s.len(),
    ensures
        i <= find_from(s, id, i) <= s.len(),
        find_from(s, id, i) < s.len() ==> s[find_from(s, id, i)].id == id,
        forall|j: int| i <= j < find_from(s, id, i) ==> s[j].id != id,
    decreases s.len() - i,
{
    if i < s.len() && s[i].id != id {
        lemma_find_from_hit(s, id, i + 1);
    }
}

} // verus!
