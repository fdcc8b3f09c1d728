use nym_bazaar::catalog::{Catalog, Item};
use nym_bazaar::command::{parse, Command};
use nym_bazaar::server::{is_ack, BazaarServer};

const HELP: &str = "Invalid command. Available commands:\nHEAD\nLIST [category]\nGET <id>\nSEARCH <term>\nCATEGORIES\n";

fn shop() -> BazaarServer {
    let mut c = Catalog::new();
    c.insert(Item::new("a", "Atari 2600", "Gaming", "Wood grain console", "$90", "Ann"));
    c.insert(Item::new("b", "Moog Minimoog", "synthesizer", "Monophonic analog synth", "$3000", "Bob"));
    c.insert(Item::new("c", "Sega Genesis", "gaming", "16-bit console", "$70", "Cid"));
    BazaarServer::with_catalog(c)
}

#[test]
fn list_all_bootstrap() {
    let s = BazaarServer::new();
    assert_eq!(s.handle_command("LIST\n"), "1. Nintendo NES - $150\n2. Yamaha DX7 - $800\n");
}

#[test]
fn list_one_category() {
    let s = BazaarServer::new();
    assert_eq!(s.handle_command("LIST synthesizer\n"), "2. Yamaha DX7 - $800\n");
}

#[test]
fn list_category_ignores_case() {
    let s = BazaarServer::new();
    assert_eq!(s.handle_command("list GAMING\n"), "1. Nintendo NES - $150\n");
}

#[test]
fn list_unknown_category() {
    let s = BazaarServer::new();
    assert_eq!(s.handle_command("LIST furniture\n"), "No items found\n");
}

#[test]
fn list_empty_catalog() {
    let s = BazaarServer::with_catalog(Catalog::new());
    assert_eq!(s.handle_command("LIST\n"), "No items found\n");
}

#[test]
fn list_one_line_per_item() {
    let s = shop();
    let r = s.handle_command("LIST");
    assert_eq!(r, "a. Atari 2600 - $90\nb. Moog Minimoog - $3000\nc. Sega Genesis - $70\n");
    assert_eq!(r.lines().count(), 3);
}

#[test]
fn list_filter_is_subset() {
    let s = shop();
    assert_eq!(s.handle_command("LIST gaming"), "a. Atari 2600 - $90\nc. Sega Genesis - $70\n");
}

#[test]
fn get_missing_item() {
    let s = BazaarServer::new();
    assert_eq!(s.handle_command("GET 3\n"), "Item with ID 3 not found\n");
}

#[test]
fn get_shows_record() {
    let s = BazaarServer::new();
    assert_eq!(
        s.handle_command("GET 2\n"),
        "ID: 2\nName: Yamaha DX7\nCategory: synthesizer\nPrice: $800\nSeller: SynthWave\n\nClassic FM synthesizer from 1983. The quintessential 80s synth sound.\n"
    );
}

#[test]
fn get_every_item_has_its_attributes() {
    let s = shop();
    for (id, name, cat, desc, price, seller) in [
        ("a", "Atari 2600", "Gaming", "Wood grain console", "$90", "Ann"),
        ("b", "Moog Minimoog", "synthesizer", "Monophonic analog synth", "$3000", "Bob"),
        ("c", "Sega Genesis", "gaming", "16-bit console", "$70", "Cid"),
    ] {
        let r = s.handle_command(&format!("GET {}\n", id));
        for part in [id, name, cat, desc, price, seller] {
            assert!(r.contains(part));
        }
    }
}

#[test]
fn get_uses_first_argument_only() {
    let s = BazaarServer::new();
    assert!(s.handle_command("GET 1 2\n").starts_with("ID: 1\nName: Nintendo NES\n"));
}

#[test]
fn search_matches_description() {
    let s = BazaarServer::new();
    assert_eq!(s.handle_command("SEARCH fm\n"), "2. Yamaha DX7 - $800\n");
}

#[test]
fn search_matches_name_ignoring_case() {
    let s = BazaarServer::new();
    assert_eq!(s.handle_command("search NINTENDO\n"), "1. Nintendo NES - $150\n");
}

#[test]
fn search_matches_category() {
    let s = shop();
    assert_eq!(s.handle_command("SEARCH synth"), "b. Moog Minimoog - $3000\n");
    assert_eq!(s.handle_command("SEARCH GAM"), "a. Atari 2600 - $90\nc. Sega Genesis - $70\n");
}

#[test]
fn search_without_match() {
    let s = BazaarServer::new();
    assert_eq!(s.handle_command("SEARCH guitar\n"), "No items found matching your search\n");
}

#[test]
fn categories_bootstrap() {
    let s = BazaarServer::new();
    assert_eq!(s.handle_command("CATEGORIES\n"), "Available categories:\n- gaming\n- synthesizer\n");
}

#[test]
fn categories_each_once() {
    let mut c = Catalog::new();
    c.insert(Item::new("1", "A", "toys", "x", "$1", "s"));
    c.insert(Item::new("2", "B", "toys", "y", "$2", "s"));
    c.insert(Item::new("3", "C", "books", "z", "$3", "s"));
    c.insert(Item::new("4", "D", "toys", "w", "$4", "s"));
    let s = BazaarServer::with_catalog(c);
    assert_eq!(s.handle_command("categories"), "Available categories:\n- toys\n- books\n");
}

#[test]
fn categories_keep_case_variants_apart() {
    let s = shop();
    assert_eq!(
        s.handle_command("CATEGORIES"),
        "Available categories:\n- Gaming\n- synthesizer\n- gaming\n"
    );
}

#[test]
fn categories_of_empty_catalog() {
    let s = BazaarServer::with_catalog(Catalog::new());
    assert_eq!(s.handle_command("CATEGORIES"), "Available categories:\n");
}

#[test]
fn head_acknowledges() {
    assert_eq!(BazaarServer::new().handle_command("HEAD\n"), "OK\n");
    assert_eq!(BazaarServer::new().handle_command("head"), "OK\n");
    assert_eq!(shop().handle_command("HEAD extra words"), "OK\n");
    assert_eq!(BazaarServer::with_catalog(Catalog::new()).handle_command("HEAD"), "OK\n");
}

#[test]
fn unknown_word_gets_help() {
    let s = BazaarServer::new();
    assert_eq!(s.handle_command("BUY 1\n"), HELP);
    assert_eq!(s.handle_command(""), HELP);
    assert_eq!(s.handle_command("   \n"), HELP);
    assert_eq!(s.handle_command("HEADS\n"), HELP);
}

#[test]
fn missing_argument_gets_help() {
    let s = BazaarServer::new();
    assert_eq!(s.handle_command("GET\n"), HELP);
    assert_eq!(s.handle_command("SEARCH   \n"), HELP);
}

#[test]
fn insert_replaces_same_id() {
    let mut c = Catalog::new();
    c.insert(Item::new("1", "Old", "x", "d", "$1", "s"));
    c.insert(Item::new("2", "Other", "x", "d", "$2", "s"));
    c.insert(Item::new("1", "New", "x", "d", "$3", "s"));
    assert_eq!(c.len(), 2);
    let s = BazaarServer::with_catalog(c);
    assert_eq!(s.handle_command("LIST"), "1. New - $3\n2. Other - $2\n");
}

#[test]
fn parse_kinds() {
    assert!(matches!(parse("  hEaD \n"), Command::Head));
    assert!(matches!(parse("LIST"), Command::List(None)));
    match parse("list  Gaming extra\n") {
        Command::List(Some(c)) => assert_eq!(c, "Gaming"),
        _ => panic!("expected a filtered listing"),
    }
    match parse("GET 42") {
        Command::Get(id) => assert_eq!(id, "42"),
        _ => panic!("expected a lookup"),
    }
    match parse("\tsearch\tfm\n") {
        Command::Search(t) => assert_eq!(t, "fm"),
        _ => panic!("expected a search"),
    }
    assert!(matches!(parse("Categories"), Command::Categories));
    match parse("DELETE 1\n") {
        Command::Invalid(s) => assert_eq!(s, "DELETE 1\n"),
        _ => panic!("expected an invalid command"),
    }
    assert!(matches!(parse("GET"), Command::Invalid(_)));
}

#[test]
fn acknowledgment_test() {
    assert!(is_ack("OK\n"));
    assert!(is_ack("  OK  "));
    assert!(!is_ack("ok"));
    assert!(!is_ack("OK!"));
    assert!(!is_ack(""));
}
