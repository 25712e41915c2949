//! Gift orders carried in the metadata of a package manifest.

use vstd::prelude::*;
use vstd::string::StringExecFns;
use crate::text::{decimal_text, joined_lines, push_decimal};

verus! {

/// Notation in which a manifest is written.
#[derive(Clone, Copy, Debug, PartialEq, Eq, Structural)]
pub enum Format {
    Json,
    Toml,
    Yaml,
}

/// The notation that a content type announces, if it is one of the three
/// that are read.
pub open spec fn format_named(content_type: Option<Seq<char>>) -> Option<Format> {
    match content_type {
        None => None,
        Some(name) => if name == "application/json"@ {
            Some(Format::Json)
        } else if name == "application/toml"@ {
            Some(Format::Toml)
        } else if name == "application/yaml"@ {
            Some(Format::Yaml)
        } else {
            None
        },
    }
}

/// Tells whether two texts are the same.
fn same_text(a: &str, b: &str) -> (same: bool)
    ensures
        same == (a@ == b@),
{
    String::from_str(a) == String::from_str(b)
}

/// Picks the notation for a request by its content type. A request without
/// one, or with any other, is not read.
pub fn format_of(content_type: Option<&str>) -> (format: Option<Format>)
    ensures
        format == format_named(
            match content_type {
                Some(name) => Some(name@),
                None => None,
            },
        ),
{
    match content_type {
        None => None,
        Some(name) => {
            if same_text(name, "application/json") {
                Some(Format::Json)
            } else if same_text(name, "application/toml") {
                Some(Format::Toml)
            } else if same_text(name, "application/yaml") {
                Some(Format::Yaml)
            } else {
                None
            }
        },
    }
}

/// One entry of the list of orders, as far as it could be read.
pub struct Order {
    pub item: Option<String>,
    pub quantity: Option<u32>,
}

/// The package section of a manifest, as far as the orders need it.
pub struct Package {
    /// The keywords, where the package states its own.
    pub keywords: Option<Vec<String>>,
    /// The entries of the list `orders` in the metadata, where there is such
    /// a list; an entry that is no order stands as `None`.
    pub orders: Option<Vec<Option<Order>>>,
}

/// A manifest, as far as the orders need it.
pub struct Manifest {
    pub package: Option<Package>,
}

/// What a manifest is answered with.
#[derive(Debug, PartialEq, Eq)]
pub enum Reply {
    /// The manifest holds no order.
    NoContent,
    /// The package does not carry the keyword that is asked for.
    KeywordMissing,
    /// The orders, one to a line.
    Orders(String),
}

/// The keyword that a package must carry.
pub open spec fn magic_keyword() -> Seq<char> {
    "Christmas 2024"@
}

/// An entry counts as an order when it names both an item and a quantity.
pub open spec fn is_order(entry: Option<Order>) -> bool {
    entry matches Some(order) && order.item is Some && order.quantity is Some
}

/// The line for an order: the item, a colon, the quantity.
pub open spec fn order_line(order: Order) -> Seq<char> {
    order.item.unwrap()@ + ": "@ + decimal_text(order.quantity.unwrap() as nat)
}

/// The lines for the orders among the first `n` entries, in their order.
pub open spec fn order_lines(entries: Seq<Option<Order>>, n: int) -> Seq<Seq<char>>
    decreases n,
{
    if n <= 0 {
        Seq::empty()
    } else if is_order(entries[n - 1]) {
        order_lines(entries, n - 1).push(order_line(entries[n - 1].unwrap()))
    } else {
        order_lines(entries, n - 1)
    }
}

/// One of the keywords is the one asked for.
pub open spec fn has_magic_keyword(keywords: Seq<String>) -> bool {
    exists|i: int| 0 <= i < keywords.len() && (#[trigger] keywords[i])@ == magic_keyword()
}

/// The answer to a manifest, by what it holds.
pub enum Answer {
    NoContent,
    KeywordMissing,
    Orders(Seq<char>),
}

/// The answer that a manifest calls for. A manifest without a package has
/// nothing to say; a package must carry the keyword; and then its orders
/// are listed, if it has any.
pub open spec fn answer(manifest: Manifest) -> Answer {
    match manifest.package {
        None => Answer::NoContent,
        Some(package) => match package.keywords {
            None => Answer::KeywordMissing,
            Some(keywords) => if !has_magic_keyword(keywords@) {
                Answer::KeywordMissing
            } else {
                match package.orders {
                    None => Answer::NoContent,
                    Some(entries) => {
                        let lines = order_lines(entries@, entries@.len() as int);
                        if lines.len() == 0 {
                            Answer::NoContent
                        } else {
                            Answer::Orders(joined_lines(lines))
                        }
                    },
                }
            },
        },
    }
}

/// What a reply stands for.
pub open spec fn reply_answer(reply: Reply) -> Answer {
    match reply {
        Reply::NoContent => Answer::NoContent,
        Reply::KeywordMissing => Answer::KeywordMissing,
        Reply::Orders(text) => Answer::Orders(text@),
    }
}

/// Looks for the keyword that is asked for.
fn carries_magic_keyword(keywords: &Vec<String>) -> (found: bool)
    ensures
        found == has_magic_keyword(keywords@),
{
    let magic = String::from_str("Christmas 2024");
    let mut i: usize = 0;
    while i < keywords.len()
        invariant
            i <= keywords@.len(),
            magic@ == magic_keyword(),
            forall|k: int| 0 <= k < i ==> (#[trigger] keywords@[k])@ != magic_keyword(),
        decreases keywords@.len() - i,
    {
        if keywords[i] == magic {
            return true;
        }
        i += 1;
    }
    false
}

/// Answers a manifest with the orders that its package carries.
pub fn task_1(manifest: &Manifest) -> (reply: Reply)
    ensures
        reply_answer(reply) == answer(*manifest),
{
    let package = match &manifest.package {
        None => {
            return Reply::NoContent;
        },
        Some(package) => package,
    };
    let found = match &package.keywords {
        None => false,
        Some(keywords) => carries_magic_keyword(keywords),
    };
    if !found {
        return Reply::KeywordMissing;
    }
    let entries = match &package.orders {
        None => {
            return Reply::NoContent;
        },
        Some(entries) => entries,
    };
    let mut output = String::new();
    let mut first = true;
    let ghost mut lines: Seq<Seq<char>> = Seq::empty();
    let mut i: usize = 0;
    while i < entries.len()
        invariant
            i <= entries@.len(),
            lines == order_lines(entries@, i as int),
            output@ == joined_lines(lines),
            first == (lines.len() == 0),
        decreases entries@.len() - i,
    {
        match &entries[i] {
            Some(order) => {
                match (&order.item, &order.quantity) {
                    (Some(item), Some(quantity)) => {
                        if first {
                            first = false;
                        } else {
                            output.append("\n");
                        }
                        let ghost before = output@;
                        output.append(item.as_str());
                        output.append(": ");
                        push_decimal(&mut output, *quantity);
                        proof {
                            let line = order_line(*order);
                            assert(output@ =~= before + line);
                            assert(lines.push(line).drop_last() =~= lines);
                            lines = lines.push(line);
                        }
                    },
                    _ => {},
                }
            },
            None => {},
        }
        i += 1;
    }
    if first {
        Reply::NoContent
    } else {
        Reply::Orders(output)
    }
}

} // verus!
