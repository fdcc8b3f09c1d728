//! The marketplace server: a catalog and the dispatcher that answers commands.
use crate::catalog::{
    categories_text, category_lines, category_matches, distinct_categories, find_from,
    get_text, lemma_contains_middle, lemma_distinct_categories, lemma_find_own_id,
    lemma_pick_all, lemma_pick_sound, lines_of, list_pred, list_text, pick, record_of,
    search_pred, search_text, term_matches, unique_ids, Catalog, Item, ItemView,
};
use crate::command::{is_keyword, parse, parse_spec, Command, CommandView};
use crate::text::{contains, has_token, same_text, token, trim, trimmed, upper_of};
use vstd::prelude::*;
use vstd::string::StringExecFns;

verus! {

/// Reply to `HEAD`.
pub open spec fn ack_text() -> Seq<char> {
    "OK\n"@
}

/// A reply text acknowledges when, trimmed of whitespace, it is `OK`.
pub open spec fn acknowledges(reply: Seq<char>) -> bool {
    trim(reply) == "OK"@
}

/// Whether a reply text is the acknowledgment.
pub fn is_ack(reply: &str) -> (r: bool)
    ensures
        r == acknowledges(reply@),
{
    same_text(trimmed(reply), "OK")
}

/// Reply to anything that is not a command.
pub open spec fn help_text() -> Seq<char> {
    "Invalid command. Available commands:\nHEAD\nLIST [category]\nGET <id>\nSEARCH <term>\nCATEGORIES\n"@
}

/// The reply to a command over a catalog.
pub open spec fn respond(items: Seq<ItemView>, c: CommandView) -> Seq<char> {
    match c {
        CommandView::Head => ack_text(),
        CommandView::List(f) => list_text(items, f),
        CommandView::Get(id) => get_text(items, id),
        CommandView::Search(t) => search_text(items, t),
        CommandView::Categories => categories_text(items),
        CommandView::Invalid(_) => help_text(),
    }
}

/// Looking up the id of any catalog item yields that item's record, and the
/// record holds each of its attributes verbatim.
pub proof fn lemma_get_shows_item(items: Seq<ItemView>, i: int)
    requires
        unique_ids(items),
        0 <= i < items.len(),
    ensures
        respond(items, CommandView::Get(items[i].id)) == record_of(items[i]),
        contains(record_of(items[i]), items[i].id),
        contains(record_of(items[i]), items[i].name),
        contains(record_of(items[i]), items[i].category),
        contains(record_of(items[i]), items[i].price),
        contains(record_of(items[i]), items[i].seller),
        contains(record_of(items[i]), items[i].description),
{
    lemma_find_own_id(items, i);
    let it = items[i];
    let r = record_of(it);
    let a = "ID: "@;
    let b = "\nName: "@;
    let c = "\nCategory: "@;
    let d = "\nPrice: "@;
    let e = "\nSeller: "@;
    let f = "\n\n"@;
    let g = "\n"@;
    lemma_contains_middle(a, it.id, b + it.name + c + it.category + d + it.price + e + it.seller + f
        + it.description + g);
    assert(r =~= a + it.id + (b + it.name + c + it.category + d + it.price + e + it.seller + f
        + it.description + g));
    lemma_contains_middle(a + it.id + b, it.name, c + it.category + d + it.price + e + it.seller
        + f + it.description + g);
    assert(r =~= a + it.id + b + it.name + (c + it.category + d + it.price + e + it.seller + f
        + it.description + g));
    lemma_contains_middle(a + it.id + b + it.name + c, it.category, d + it.price + e + it.seller
        + f + it.description + g);
    assert(r =~= a + it.id + b + it.name + c + it.category + (d + it.price + e + it.seller + f
        + it.description + g));
    lemma_contains_middle(a + it.id + b + it.name + c + it.category + d, it.price, e + it.seller
        + f + it.description + g);
    assert(r =~= a + it.id + b + it.name + c + it.category + d + it.price + (e + it.seller + f
        + it.description + g));
    lemma_contains_middle(a + it.id + b + it.name + c + it.category + d + it.price + e, it.seller,
        f + it.description + g);
    assert(r =~= a + it.id + b + it.name + c + it.category + d + it.price + e + it.seller + (f
        + it.description + g));
    lemma_contains_middle(a + it.id + b + it.name + c + it.category + d + it.price + e + it.seller
        + f, it.description, g);
}

/// An unfiltered listing of a non-empty catalog is one line per item, in
/// catalog order; a filtered listing selects only items of the catalog whose
/// category matches up to case, and fewer than all of them when some item's
/// category does not match.
pub proof fn lemma_listing(items: Seq<ItemView>, cat: Seq<char>)
    ensures
        items.len() > 0 ==> respond(items, CommandView::List(None)) == lines_of(items),
        respond(items, CommandView::List(Some(cat))) == list_text(items, Some(cat)),
        ({
            let sel = pick(items, list_pred(Some(cat)));
            &&& sel.len() <= items.len()
            &&& forall|k: int|
                0 <= k < sel.len() ==> items.contains(#[trigger] sel[k]) && category_matches(
                    sel[k],
                    cat,
                )
            &&& (exists|j: int| 0 <= j < items.len() && !category_matches(#[trigger] items[j], cat))
                ==> sel.len() < items.len()
        }),
{
    lemma_pick_all(items);
    let p = list_pred(Some(cat));
    lemma_pick_sound(items, p);
    let sel = pick(items, p);
    assert forall|k: int| 0 <= k < sel.len() implies items.contains(#[trigger] sel[k])
        && category_matches(sel[k], cat) by {
        assert(p(sel[k]));
    }
    if exists|j: int| 0 <= j < items.len() && !category_matches(#[trigger] items[j], cat) {
        let j = choose|j: int| 0 <= j < items.len() && !category_matches(#[trigger] items[j], cat);
        assert(!p(items[j]));
    }
}

/// Every item a search returns is an item of the unfiltered listing and holds
/// the term, up to case, in its name, description or category.
pub proof fn lemma_search_within_listing(items: Seq<ItemView>, term: Seq<char>)
    ensures
        ({
            let sel = pick(items, search_pred(term));
            let all = pick(items, list_pred(None));
            &&& sel.len() <= all.len()
            &&& forall|k: int|
                0 <= k < sel.len() ==> all.contains(#[trigger] sel[k]) && term_matches(sel[k], term)
        }),
        respond(items, CommandView::Search(term)) == search_text(items, term),
{
    lemma_pick_all(items);
    let p = search_pred(term);
    lemma_pick_sound(items, p);
    let sel = pick(items, p);
    assert forall|k: int| 0 <= k < sel.len() implies pick(items, list_pred(None)).contains(
        #[trigger] sel[k],
    ) && term_matches(sel[k], term) by {
        assert(p(sel[k]));
    }
}

/// The categories reply lists each category that some item has, once.
pub proof fn lemma_categories_once(items: Seq<ItemView>)
    ensures
        respond(items, CommandView::Categories) == "Available categories:\n"@ + category_lines(
            distinct_categories(items),
        ),
        distinct_categories(items).no_duplicates(),
        forall|c: Seq<char>|
            #[trigger] distinct_categories(items).contains(c) <==> exists|i: int|
                0 <= i < items.len() && items[i].category == c,
{
    lemma_distinct_categories(items);
}

/// `HEAD` is answered with the acknowledgment whatever the catalog holds.
pub proof fn lemma_head_constant(a: Seq<ItemView>, b: Seq<ItemView>)
    ensures
        respond(a, CommandView::Head) == ack_text(),
        respond(a, CommandView::Head) == respond(b, CommandView::Head),
{
}

/// A line whose first token is not a command word gets the help text.
pub proof fn lemma_unknown_gets_help(items: Seq<ItemView>, line: Seq<char>)
    requires
        !(has_token(line, 0) && is_keyword(upper_of(token(line, 0)))),
    ensures
        parse_spec(line) == CommandView::Invalid(line),
        respond(items, parse_spec(line)) == help_text(),
{
}

/// The items a server starts with.
pub open spec fn bootstrap_items() -> Seq<ItemView> {
    seq![
        ItemView {
            id: "1"@,
            name: "Nintendo NES"@,
            category: "gaming"@,
            description: "Original Nintendo Entertainment System from 1985. Good condition with controllers."@,
            price: "$150"@,
            seller: "RetroGamer"@,
        },
        ItemView {
            id: "2"@,
            name: "Yamaha DX7"@,
            category: "synthesizer"@,
            description: "Classic FM synthesizer from 1983. The quintessential 80s synth sound."@,
            price: "$800"@,
            seller: "SynthWave"@,
        },
    ]
}

/// Answers protocol commands from its catalog. The catalog is only read.
pub struct BazaarServer {
    catalog: Catalog,
}

impl View for BazaarServer {
    type V = Seq<ItemView>;

    closed spec fn view(&self) -> Seq<ItemView> {
        self.catalog@
    }
}

impl BazaarServer {
    /// Ids of the catalog are unique.
    pub closed spec fn wf(&self) -> bool {
        self.catalog.wf()
    }

    /// A server over the bootstrap items.
    pub fn new() -> (r: BazaarServer)
        ensures
            r.wf(),
            r@ == bootstrap_items(),
    {
        let mut items = Catalog::new();
        let ghost b = bootstrap_items();
        items.insert(
            Item::new(
                "1",
                "Nintendo NES",
                "gaming",
                "Original Nintendo Entertainment System from 1985. Good condition with controllers.",
                "$150",
                "RetroGamer",
            ),
        );
        assert(items@ =~= seq![b[0]]);
        proof {
            reveal_strlit("1");
            reveal_strlit("2");
            assert("1"@[0] != "2"@[0]);
            assert(b[0].id != b[1].id);
            assert(find_from(items@, b[1].id, 1) == 1);
        }
        items.insert(
            Item::new(
                "2",
                "Yamaha DX7",
                "synthesizer",
                "Classic FM synthesizer from 1983. The quintessential 80s synth sound.",
                "$800",
                "SynthWave",
            ),
        );
        assert(items@ =~= bootstrap_items());
        BazaarServer { catalog: items }
    }

    /// A server over a given catalog.
    pub fn with_catalog(catalog: Catalog) -> (r: BazaarServer)
        requires
            catalog.wf(),
        ensures
            r.wf(),
            r@ == catalog@,
    {
        BazaarServer { catalog }
    }

    /// Executes a parsed command.
    pub fn execute(&self, c: &Command) -> (r: String)
        requires
            self.wf(),
        ensures
            r@ == respond(self@, c@),
    {
        match c {
            Command::Head => String::from_str("OK\n"),
            Command::List(f) => match f {
                Some(cat) => self.catalog.list(Some(cat.as_str())),
                None => self.catalog.list(None),
            },
            Command::Get(id) => self.catalog.get_record(id.as_str()),
            Command::Search(t) => self.catalog.search(t.as_str()),
            Command::Categories => self.catalog.categories(),
            Command::Invalid(_) => String::from_str(
                "Invalid command. Available commands:\nHEAD\nLIST [category]\nGET <id>\nSEARCH <term>\nCATEGORIES\n",
            ),
        }
    }

    /// Parses one request line and answers it. Total: every line gets a reply.
    pub fn handle_command(&self, command: &str) -> (r: String)
        requires
            self.wf(),
        ensures
            r@ == respond(self@, parse_spec(command@)),
    {
        let c = parse(command);
        self.execute(&c)
    }
}

} // verus!
