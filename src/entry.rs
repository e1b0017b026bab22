use crate::clock::Timestamp;
use crate::paths::{file_stem, file_stem_of};
use vstd::prelude::*;

verus! {

/// What an entry is: its id, when it was last opened, and its note's path.
pub ghost struct EntryView {
    pub id: int,
    pub last_opened: Timestamp,
    pub path: Seq<char>,
}

/// One catalog record: a note file with its stable id and last access time.
#[derive(Clone, Debug, PartialEq, Eq)]
pub struct IndexEntry {
    pub id: usize,
    pub last_opened: Timestamp,
    pub path: String,
}

impl View for IndexEntry {
    type V = EntryView;

    open spec fn view(&self) -> EntryView {
        EntryView { id: self.id as int, last_opened: self.last_opened, path: self.path@ }
    }
}

/// `s` without the `#` characters that lead it.
pub open spec fn drop_hashes(s: Seq<char>) -> Seq<char>
    decreases s.len(),
{
    if s.len() > 0 && s[0] == '#' {
        drop_hashes(s.drop_first())
    } else {
        s
    }
}

/// Whether `c` has the Unicode `White_Space` property.
pub open spec fn is_white_space(c: char) -> bool {
    ||| '\u{9}' <= c <= '\u{d}'
    ||| c == ' '
    ||| c == '\u{85}'
    ||| c == '\u{a0}'
    ||| c == '\u{1680}'
    ||| '\u{2000}' <= c <= '\u{200a}'
    ||| c == '\u{2028}'
    ||| c == '\u{2029}'
    ||| c == '\u{202f}'
    ||| c == '\u{205f}'
    ||| c == '\u{3000}'
}

/// `s` without the white space that leads it.
pub open spec fn trim_leading(s: Seq<char>) -> Seq<char>
    decreases s.len(),
{
    if s.len() > 0 && is_white_space(s[0]) {
        trim_leading(s.drop_first())
    } else {
        s
    }
}

/// `s` without the white space that ends it.
pub open spec fn trim_trailing(s: Seq<char>) -> Seq<char>
    decreases s.len(),
{
    if s.len() > 0 && is_white_space(s.last()) {
        trim_trailing(s.drop_last())
    } else {
        s
    }
}

/// `s` with leading and trailing white space removed.
pub open spec fn trimmed(s: Seq<char>) -> Seq<char> {
    trim_trailing(trim_leading(s))
}

/// Relies on str::trim_start_matches with the pattern `'#'`: every leading `#` removed.
#[verifier::external_body]
fn strip_hashes(s: &str) -> (r: &str)
    ensures
        r@ == drop_hashes(s@),
{
    s.trim_start_matches('#')
}

/// Relies on str::trim: the text with leading and trailing characters of the
/// Unicode `White_Space` property removed.
#[verifier::external_body]
fn trim(s: &str) -> (r: &str)
    ensures
        r@ == trimmed(s@),
{
    s.trim()
}

/// Title shown for a note whose path has no file stem.
pub open spec fn placeholder_title() -> Seq<char> {
    seq!['i', 'n', 'v', 'a', 'l', 'i', 'd', '_', 's', 't', 'e', 'm']
}

/// The title of a note: its first line without leading `#` marks and surrounding
/// white space; with no line to read, the file stem of its path; with no stem either,
/// the placeholder.
pub open spec fn title_of(path: Seq<char>, first_line: Option<Seq<char>>) -> Seq<char> {
    match first_line {
        Some(l) => trimmed(drop_hashes(l)),
        None => match file_stem_of(path) {
            Some(s) => s,
            None => placeholder_title(),
        },
    }
}

impl IndexEntry {
    /// A copy of this entry.
    pub fn duplicate(&self) -> (r: IndexEntry)
        ensures
            r@ == self@,
    {
        IndexEntry { id: self.id, last_opened: self.last_opened, path: self.path.clone() }
    }

    /// The display title of this entry, given the first line of its note file, or
    /// `None` where that file could not be opened or read.
    pub fn summary_from(&self, first_line: Option<&str>) -> (r: String)
        ensures
            r@ == title_of(self.path@, match first_line {
                Some(l) => Some(l@),
                None => None,
            }),
    {
        match first_line {
            Some(l) => trim(strip_hashes(l)).to_owned(),
            None => self.stem().to_owned(),
        }
    }

    /// The file stem of this entry's path, or the placeholder title.
    fn stem(&self) -> (r: &str)
        ensures
            r@ == match file_stem_of(self.path@) {
                Some(s) => s,
                None => placeholder_title(),
            },
    {
        match file_stem(self.path.as_str()) {
            Some(s) => s,
            None => {
                let p = "invalid_stem";
                proof {
                    reveal_strlit("invalid_stem");
                }
                p
            },
        }
    }
}

} // verus!
