//! What is captured of a page in a browser state: screenshots, console
//! levels, navigation history, call frames and coverage.
use vstd::prelude::*;

use url::Url;

use crate::location::{text_of, url_text};

verus! {

/// The index of a control-flow edge in the coverage map.
pub type EdgeIndex = u32;

/// The bucket of the number of times an edge was taken.
pub type EdgeBucket = u8;

/// The edges that were taken for the first time in the last transition.
#[derive(Clone, Debug)]
pub struct Coverage {
    pub edges_new: Vec<(EdgeIndex, EdgeBucket)>,
}

/// One entry of the browser's navigation history.
#[derive(Clone, Debug)]
pub struct NavigationEntry {
    pub id: u32,
    pub title: String,
    pub url: Url,
}

/// The navigation history around the current entry.
#[derive(Clone, Debug)]
pub struct NavigationHistory {
    pub back: Vec<NavigationEntry>,
    pub current: NavigationEntry,
    pub forward: Vec<NavigationEntry>,
}

/// An entry that is a page of its own, not the blank page that a tab starts
/// on.
pub open spec fn real_entry(entry: NavigationEntry) -> bool {
    url_text(entry.url) != "about:blank"@
}

/// The real entries of `entries`, in their order.
pub open spec fn real_entries(entries: Seq<NavigationEntry>) -> Seq<NavigationEntry>
    decreases entries.len(),
{
    if entries.len() == 0 {
        Seq::empty()
    } else {
        let rest = real_entries(entries.drop_last());
        if real_entry(entries.last()) {
            rest.push(entries.last())
        } else {
            rest
        }
    }
}

fn is_real_entry(entry: &NavigationEntry) -> (r: bool)
    ensures
        r == real_entry(*entry),
{
    !(String::from_str(text_of(&entry.url)) == String::from_str("about:blank"))
}

impl NavigationHistory {
    /// The history around the entry at `current_index` of the browser's
    /// list of entries: the real entries before it, that entry, and the real
    /// entries after it.
    pub fn from_entries(entries: Vec<NavigationEntry>, current_index: usize) -> (r: Self)
        requires
            current_index < entries@.len(),
        ensures
            r.back@ == real_entries(entries@.take(current_index as int)),
            r.current == entries@[current_index as int],
            r.forward@ == real_entries(entries@.skip(current_index + 1)),
    {
        let ghost all = entries@;
        let mut back: Vec<NavigationEntry> = Vec::new();
        let mut current: Option<NavigationEntry> = None;
        let mut forward: Vec<NavigationEntry> = Vec::new();
        let mut i: usize = 0;
        let n = entries.len();
        assert(all.take(0) =~= Seq::<NavigationEntry>::empty());
        for entry in it: entries.into_iter()
            invariant
                it.seq() == all,
                all.len() == n,
                current_index < all.len(),
                i == it.index(),
                i <= current_index ==> back@ == real_entries(all.take(i as int)) && current is None && forward@.len() == 0,
                i > current_index ==> {
                    &&& back@ == real_entries(all.take(current_index as int))
                    &&& current == Some(all[current_index as int])
                    &&& forward@ == real_entries(all.subrange(current_index + 1, i as int))
                },
        {
            let ghost j = i as int;
            if i < current_index {
                proof {
                    assert(all.take(j + 1).drop_last() =~= all.take(j));
                    assert(all.take(j + 1).last() == entry);
                }
                if is_real_entry(&entry) {
                    back.push(entry);
                }
            } else if i == current_index {
                current = Some(entry);
                assert(all.subrange(j + 1, j + 1) =~= Seq::<NavigationEntry>::empty());
            } else {
                proof {
                    assert(all.subrange(current_index + 1, j + 1).drop_last() =~= all.subrange(current_index + 1, j));
                    assert(all.subrange(current_index + 1, j + 1).last() == entry);
                }
                if is_real_entry(&entry) {
                    forward.push(entry);
                }
            }
            i = i + 1;
        }
        assert(all.subrange(current_index + 1, all.len() as int) =~= all.skip(current_index + 1));
        NavigationHistory { back, current: current.unwrap(), forward }
    }
}

/// The index of the history entry that going back leads to: the one before
/// the current entry, and none from the first entry.
pub fn back_entry_index(current_index: i64, entries_len: usize) -> (r: Option<usize>)
    requires
        0 <= current_index <= entries_len,
    ensures
        r == if current_index == 0 {
            None
        } else {
            Some((current_index - 1) as usize)
        },
{
    if current_index == 0 {
        None
    } else {
        Some((current_index - 1) as usize)
    }
}

/// The index of the history entry that going forward leads to: the one after
/// the current entry, and none from the last entry.
pub fn forward_entry_index(current_index: i64, entries_len: usize) -> (r: Option<usize>)
    requires
        current_index < i64::MAX,
    ensures
        r == if 0 <= current_index + 1 < entries_len {
            Some((current_index + 1) as usize)
        } else {
            None
        },
{
    let next = current_index + 1;
    if next < 0 || (next as u64) >= (entries_len as u64) {
        None
    } else {
        Some(next as usize)
    }
}

/// One frame of a stack trace.
#[derive(Clone, Debug, PartialEq, Eq)]
pub struct CallFrame {
    pub name: String,
    pub line: u32,
    pub column: u32,
    pub url: String,
}

/// The level of a console entry that is recorded.
#[derive(Clone, Copy, Debug, PartialEq, Eq, Structural)]
pub enum ConsoleEntryLevel {
    Warning,
    Error,
}

/// The image format of a screenshot.
#[derive(Clone, Copy, Debug, PartialEq, Eq, Structural)]
pub enum ScreenshotFormat {
    Webp,
    Png,
    Jpeg,
}

/// The file extension of a screenshot format, as a spec string.
pub open spec fn format_extension(format: ScreenshotFormat) -> Seq<char> {
    match format {
        ScreenshotFormat::Webp => "webp"@,
        ScreenshotFormat::Png => "png"@,
        ScreenshotFormat::Jpeg => "jpeg"@,
    }
}

impl ScreenshotFormat {
    /// The file extension of the format.
    pub fn extension(&self) -> (r: &'static str)
        ensures
            r@ == format_extension(*self),
    {
        match self {
            ScreenshotFormat::Webp => "webp",
            ScreenshotFormat::Png => "png",
            ScreenshotFormat::Jpeg => "jpeg",
        }
    }
}

/// An image of the page.
#[derive(Clone, Debug)]
pub struct Screenshot {
    pub format: ScreenshotFormat,
    pub data: Vec<u8>,
}

} // verus!
