//! The command language: one line of text becomes one typed command.
use crate::text::{has_token, next_token, same_text, to_upper, token, upper_of};
use vstd::prelude::*;
use vstd::string::StrSliceExecFns;

verus! {

/// A parsed request line.
pub enum Command {
    Head,
    /// A listing, optionally restricted to one category.
    List(Option<String>),
    Get(String),
    Search(String),
    Categories,
    /// Anything else, with the line as it came.
    Invalid(String),
}

/// A command with its texts as character sequences.
pub enum CommandView {
    Head,
    List(Option<Seq<char>>),
    Get(Seq<char>),
    Search(Seq<char>),
    Categories,
    Invalid(Seq<char>),
}

impl View for Command {
    type V = CommandView;

    open spec fn view(&self) -> CommandView {
        match self {
            Command::Head => CommandView::Head,
            Command::List(None) => CommandView::List(None),
            Command::List(Some(c)) => CommandView::List(Some(c@)),
            Command::Get(id) => CommandView::Get(id@),
            Command::Search(t) => CommandView::Search(t@),
            Command::Categories => CommandView::Categories,
            Command::Invalid(s) => CommandView::Invalid(s@),
        }
    }
}

/// The first token, upper-cased, is one of the five command words.
pub open spec fn is_keyword(k: Seq<char>) -> bool {
    k == "HEAD"@ || k == "LIST"@ || k == "GET"@ || k == "SEARCH"@ || k == "CATEGORIES"@
}

/// The command that a line denotes. The first whitespace-delimited token,
/// compared after upper-casing, selects the kind; the second token, if any, is
/// the argument. `GET` and `SEARCH` need an argument; tokens past the second
/// are ignored.
pub open spec fn parse_spec(s: Seq<char>) -> CommandView {
    if !has_token(s, 0) {
        CommandView::Invalid(s)
    } else {
        let k = upper_of(token(s, 0));
        let arg = if has_token(s, 1) {
            Some(token(s, 1))
        } else {
            None
        };
        if k == "HEAD"@ {
            CommandView::Head
        } else if k == "LIST"@ {
            CommandView::List(arg)
        } else if k == "GET"@ && arg is Some {
            CommandView::Get(arg->Some_0)
        } else if k == "SEARCH"@ && arg is Some {
            CommandView::Search(arg->Some_0)
        } else if k == "CATEGORIES"@ {
            CommandView::Categories
        } else {
            CommandView::Invalid(s)
        }
    }
}

/// Parses one request line. Never fails: what is not a command is `Invalid`.
pub fn parse(line: &str) -> (r: Command)
    ensures
        r@ == parse_spec(line@),
{
    let len = line.unicode_len();
    let (a0, b0) = next_token(line, len, 0);
    if a0 >= len {
        return Command::Invalid(line.to_owned());
    }
    let k = to_upper(line.substring_char(a0, b0));
    let (a1, b1) = next_token(line, len, b0);
    let arg: Option<&str> = if a1 < len {
        Some(line.substring_char(a1, b1))
    } else {
        None
    };
    proof {
        assert(k@ == upper_of(token(line@, 0)));
        assert(arg is Some <==> has_token(line@, 1));
        assert(arg is Some ==> arg->Some_0@ == token(line@, 1));
    }
    if same_text(k.as_str(), "HEAD") {
        Command::Head
    } else if same_text(k.as_str(), "LIST") {
        match arg {
            Some(c) => Command::List(Some(c.to_owned())),
            None => Command::List(None),
        }
    } else if same_text(k.as_str(), "GET") && arg.is_some() {
        Command::Get(arg.unwrap().to_owned())
    } else if same_text(k.as_str(), "SEARCH") && arg.is_some() {
        Command::Search(arg.unwrap().to_owned())
    } else if same_text(k.as_str(), "CATEGORIES") {
        Command::Categories
    } else {
        Command::Invalid(line.to_owned())
    }
}

} // verus!
