//! The lines that show what a search of the package index has found.

use vstd::prelude::*;
use vstd::string::*;
use vstd::utf8::encode_utf8;
use crate::text::{split, split_on, texts};

verus! {

/// The number of spaces before each line of a description.
pub const TAB_SIZE: usize = 4;

/// A package of the index, as far as a search shows it. The popularity comes
/// as the text to show.
#[derive(Debug)]
pub struct Package {
    pub maintainer: Option<String>,
    pub name: String,
    pub version: Option<String>,
    pub popularity: String,
    pub description: Option<String>,
}

/// A package as sequences of characters.
pub ghost struct PackageView {
    pub maintainer: Option<Seq<char>>,
    pub name: Seq<char>,
    pub version: Option<Seq<char>>,
    pub popularity: Seq<char>,
    pub description: Option<Seq<char>>,
}

/// The text of an optional string.
pub open spec fn optional_text(s: Option<String>) -> Option<Seq<char>> {
    match s {
        Some(s) => Some(s@),
        None => None,
    }
}

impl View for Package {
    type V = PackageView;

    open spec fn view(&self) -> PackageView {
        PackageView {
            maintainer: optional_text(self.maintainer),
            name: self.name@,
            version: optional_text(self.version),
            popularity: self.popularity@,
            description: optional_text(self.description),
        }
    }
}

/// The spaces before each line of a description.
pub open spec fn indent() -> Seq<char> {
    "    "@
}

/// The number of bytes that a text takes.
pub open spec fn byte_len(s: Seq<char>) -> nat {
    encode_utf8(s).len()
}

/// A description on a line of its own, indented; nothing where there is none.
pub open spec fn described(description: Option<Seq<char>>) -> Seq<char> {
    match description {
        Some(text) => "\n"@ + indent() + text,
        None => Seq::empty(),
    }
}

/// The words put together so that lines stay near `cols` bytes, and the number
/// of line breaks made. The text starts with the indent. Each word follows
/// after one space, or after a line break and the indent once the bytes of the
/// whole text so far, the word and a space, divided by `cols`, exceed the
/// number of breaks made so far.
pub open spec fn wrapped(words: Seq<Seq<char>>, cols: int) -> (Seq<char>, nat)
    decreases words.len(),
{
    if words.len() == 0 {
        (indent(), 0)
    } else {
        let (text, line) = wrapped(words.drop_last(), cols);
        let word = words.last();
        if (byte_len(text) + byte_len(word) + 1) as int / cols > line {
            (text + "\n"@ + indent() + word, line + 1)
        } else {
            (text + " "@ + word, line)
        }
    }
}

/// The description as a search shows it: as it is where the width is not
/// known, and otherwise split at each space and wrapped to the width.
pub open spec fn shown_description(description: Option<Seq<char>>, cols: Option<usize>) -> Seq<
    char,
> {
    match cols {
        Some(cols) => wrapped(split(described(description), ' '), cols as int).0,
        None => described(description),
    }
}

/// The entry of a package: the maintainer and a slash where there is one, the
/// name, a space and the version where there is one, the popularity in square
/// brackets, and the description.
pub open spec fn search_entry(package: PackageView, cols: Option<usize>) -> Seq<char> {
    (match package.maintainer {
        Some(maintainer) => maintainer + "/"@,
        None => Seq::empty(),
    }) + package.name + (match package.version {
        Some(version) => " "@ + version,
        None => Seq::empty(),
    }) + " ["@ + package.popularity + "]"@ + shown_description(package.description, cols)
}

/// The number of bytes of `s`.
fn count_bytes(s: &str) -> (n: usize)
    ensures
        n == byte_len(s@),
{
    s.as_bytes().len()
}

/// The words put together so that lines stay near `cols` bytes.
fn wrap(words: &Vec<String>, cols: usize) -> (text: String)
    requires
        cols > 0,
    ensures
        text@ == wrapped(texts(words@), cols as int).0,
{
    let ghost all = texts(words@);
    let mut text = "    ".to_owned();
    let mut line: usize = 0;
    let mut i: usize = 0;
    proof {
        assert(all.subrange(0, 0) =~= Seq::<Seq<char>>::empty());
    }
    while i < words.len()
        invariant
            cols > 0,
            all == texts(words@),
            0 <= i <= words.len(),
            line <= i,
            (text@, line as nat) == wrapped(all.subrange(0, i as int), cols as int),
        decreases words.len() - i,
    {
        let word = words[i].as_str();
        proof {
            let next = all.subrange(0, i + 1);
            assert(next.drop_last() =~= all.subrange(0, i as int));
            assert(next.last() == word@);
        }
        let total: u128 = count_bytes(text.as_str()) as u128 + count_bytes(word) as u128 + 1;
        if total / (cols as u128) > line as u128 {
            line = line + 1;
            text.append("\n");
            text.append("    ");
        } else {
            text.append(" ");
        }
        text.append(word);
        i = i + 1;
    }
    proof {
        assert(all.subrange(0, words.len() as int) =~= all);
    }
    text
}

impl Package {
    /// The entry that shows this package, wrapped to `cols` bytes where the
    /// width of the terminal is known.
    pub fn into_search_entry(self, cols: Option<usize>) -> (entry: String)
        requires
            cols != Some(0usize),
        ensures
            entry@ == search_entry(self@, cols),
    {
        let mut description = match &self.description {
            Some(text) => {
                let mut d = "\n".to_owned();
                d.append("    ");
                d.append(text.as_str());
                d
            },
            None => String::new(),
        };
        assert(description@ =~= described(self@.description));
        if let Some(cols) = cols {
            let words = split_on(description.as_str(), ' ');
            description = wrap(&words, cols);
        }
        let mut entry = String::new();
        match &self.maintainer {
            Some(maintainer) => {
                entry.append(maintainer.as_str());
                entry.append("/");
            },
            None => {},
        }
        entry.append(self.name.as_str());
        match &self.version {
            Some(version) => {
                entry.append(" ");
                entry.append(version.as_str());
            },
            None => {},
        }
        entry.append(" [");
        entry.append(self.popularity.as_str());
        entry.append("]");
        entry.append(description.as_str());
        assert(entry@ =~= search_entry(self@, cols));
        entry
    }
}

} // verus!
