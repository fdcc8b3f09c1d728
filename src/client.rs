//! The decisions of the interactive client: which menu entry a line of input
//! selects, and the request line each entry sends.
use crate::text::{same_text, trim, trimmed};
use vstd::prelude::*;
use vstd::string::StringExecFns;

verus! {

/// An entry of the client's menu.
#[derive(PartialEq, Eq, Structural, Clone, Copy, Debug)]
pub enum MenuChoice {
    ListAll,
    ListCategory,
    Search,
    Details,
    Categories,
    Exit,
    /// Input that names no entry.
    Unknown,
}

/// The entry that a line of input selects: its trimmed text is the entry's
/// number, 1 to 6.
pub open spec fn menu_choice_spec(input: Seq<char>) -> MenuChoice {
    let t = trim(input);
    if t == "1"@ {
        MenuChoice::ListAll
    } else if t == "2"@ {
        MenuChoice::ListCategory
    } else if t == "3"@ {
        MenuChoice::Search
    } else if t == "4"@ {
        MenuChoice::Details
    } else if t == "5"@ {
        MenuChoice::Categories
    } else if t == "6"@ {
        MenuChoice::Exit
    } else {
        MenuChoice::Unknown
    }
}

pub fn menu_choice(input: &str) -> (r: MenuChoice)
    ensures
        r == menu_choice_spec(input@),
{
    let t = trimmed(input);
    if same_text(t, "1") {
        MenuChoice::ListAll
    } else if same_text(t, "2") {
        MenuChoice::ListCategory
    } else if same_text(t, "3") {
        MenuChoice::Search
    } else if same_text(t, "4") {
        MenuChoice::Details
    } else if same_text(t, "5") {
        MenuChoice::Categories
    } else if same_text(t, "6") {
        MenuChoice::Exit
    } else {
        MenuChoice::Unknown
    }
}

/// `<word> <trimmed argument>` and a newline.
fn request_with(word: &str, arg: &str) -> (r: String)
    ensures
        r@ == word@ + " "@ + trim(arg@) + "\n"@,
{
    let mut r = String::from_str(word);
    r.append(" ");
    r.append(trimmed(arg));
    r.append("\n");
    r
}

/// The request for the items of one category, as typed by the user.
pub fn list_request(category: &str) -> (r: String)
    ensures
        r@ == "LIST "@ + trim(category@) + "\n"@,
{
    let r = request_with("LIST", category);
    proof {
        reveal_strlit("LIST");
        reveal_strlit(" ");
        reveal_strlit("LIST ");
        assert("LIST"@ + " "@ =~= "LIST "@);
    }
    r
}

/// The request for a search, as typed by the user.
pub fn search_request(term: &str) -> (r: String)
    ensures
        r@ == "SEARCH "@ + trim(term@) + "\n"@,
{
    let r = request_with("SEARCH", term);
    proof {
        reveal_strlit("SEARCH");
        reveal_strlit(" ");
        reveal_strlit("SEARCH ");
        assert("SEARCH"@ + " "@ =~= "SEARCH "@);
    }
    r
}

/// The request for one item's details, as typed by the user.
pub fn get_request(id: &str) -> (r: String)
    ensures
        r@ == "GET "@ + trim(id@) + "\n"@,
{
    let r = request_with("GET", id);
    proof {
        reveal_strlit("GET");
        reveal_strlit(" ");
        reveal_strlit("GET ");
        assert("GET"@ + " "@ =~= "GET "@);
    }
    r
}

} // verus!
