//! The catalog: the known releases, in a fixed order.
//!
//! The order matters. Where several releases answer a query, the one that
//! comes first in the catalog is the answer.

use vstd::prelude::*;
use crate::release::{tag_view, Release, ReleaseView};
use crate::text::same_text;

verus! {

/// An ordered list of releases. Releases can be appended; nothing is ever
/// removed or changed.
pub struct Catalog {
    entries: Vec<Release>,
}

impl View for Catalog {
    type V = Seq<ReleaseView>;

    closed spec fn view(&self) -> Seq<ReleaseView> {
        self.entries@.map_values(|r: Release| r@)
    }
}

/// Whether a release is shown when the listing is narrowed to `tag`: with no
/// tag asked for every release is shown, otherwise those whose tag is
/// exactly the one asked for.
pub open spec fn listed(entry: ReleaseView, tag: Option<Seq<char>>) -> bool {
    match tag {
        None => true,
        Some(t) => entry.lts_tag == Some(t),
    }
}

/// The version names that a listing narrowed to `tag` shows, in catalog
/// order.
pub open spec fn listing(entries: Seq<ReleaseView>, tag: Option<Seq<char>>) -> Seq<Seq<char>> {
    entries.filter(|e: ReleaseView| listed(e, tag)).map_values(|e: ReleaseView| e.version)
}

/// The characters of each string of a list.
pub open spec fn texts(lines: Seq<String>) -> Seq<Seq<char>> {
    lines.map_values(|s: String| s@)
}

impl Catalog {
    /// A catalog without releases.
    pub fn new() -> (c: Catalog)
        ensures
            c@ == Seq::<ReleaseView>::empty(),
    {
        let c = Catalog { entries: Vec::new() };
        assert(c@ =~= Seq::<ReleaseView>::empty());
        c
    }

    /// A catalog of the given releases, in the given order.
    pub fn from_releases(releases: Vec<Release>) -> (c: Catalog)
        ensures
            c@ == releases@.map_values(|r: Release| r@),
    {
        Catalog { entries: releases }
    }

    /// Appends a release.
    pub fn push(&mut self, release: Release)
        ensures
            final(self)@ == old(self)@.push(release@),
    {
        self.entries.push(release);
        assert(self@ =~= old(self)@.push(release@));
    }

    /// The number of releases.
    pub fn len(&self) -> (n: usize)
        ensures
            n == self@.len(),
    {
        self.entries.len()
    }

    /// Whether the catalog holds no release.
    pub fn is_empty(&self) -> (r: bool)
        ensures
            r == (self@.len() == 0),
    {
        self.entries.len() == 0
    }

    /// The release at position `index`, if there is one.
    pub fn get(&self, index: usize) -> (r: Option<&Release>)
        ensures
            r is Some <==> index < self@.len(),
            r matches Some(release) ==> release@ == self@[index as int],
    {
        if index < self.entries.len() {
            Some(&self.entries[index])
        } else {
            None
        }
    }

    /// All releases, in catalog order.
    pub fn releases(&self) -> (all: &Vec<Release>)
        ensures
            all@.map_values(|r: Release| r@) == self@,
    {
        &self.entries
    }

    /// The release that position `index` holds, as the value itself.
    pub closed spec fn entry(&self, index: int) -> Release {
        self.entries@[index]
    }

    /// The value at a position is the release that the catalog shows there.
    pub proof fn lemma_entry_view(&self, index: int)
        requires
            0 <= index < self@.len(),
        ensures
            self.entry(index)@ == self@[index],
    {
    }

    /// The first release, in catalog order, that `accepts` says yes to:
    /// `accepts` said yes to it, and no to every release before it.
    pub fn find<F: Fn(&Release) -> bool>(&self, accepts: F) -> (r: Option<&Release>)
        requires
            forall|i: int| 0 <= i < self@.len() ==> call_requires(accepts, (&self.entry(i),)),
        ensures
            match r {
                Some(release) => exists|i: int|
                    0 <= i < self@.len() && *release == self.entry(i) && call_ensures(
                        accepts,
                        (&self.entry(i),),
                        true,
                    ) && forall|j: int|
                        0 <= j < i ==> call_ensures(accepts, (&self.entry(j),), false),
                None => forall|j: int|
                    0 <= j < self@.len() ==> call_ensures(accepts, (&self.entry(j),), false),
            },
    {
        let mut i: usize = 0;
        while i < self.entries.len()
            invariant
                i <= self.entries.len(),
                self@.len() == self.entries@.len(),
                forall|k: int|
                    0 <= k < self@.len() ==> call_requires(accepts, (&self.entry(k),)),
                forall|j: int| 0 <= j < i ==> call_ensures(accepts, (&self.entry(j),), false),
            decreases self.entries.len() - i,
        {
            let candidate: &Release = &self.entries[i];
            assert(*candidate == self.entry(i as int));
            if accepts(candidate) {
                return Some(candidate);
            }
            i = i + 1;
        }
        None
    }

    /// The version names to show for a listing, one per line and in catalog
    /// order: all of them, or those of the releases tagged exactly `tag`.
    pub fn list_versions(&self, tag: Option<&str>) -> (lines: Vec<String>)
        ensures
            texts(lines@) == listing(self@, tag_view(tag)),
    {
        let ghost tag_chars = tag_view(tag);
        let ghost keep = |e: ReleaseView| listed(e, tag_chars);
        let mut lines: Vec<String> = Vec::new();
        let mut i: usize = 0;
        assert(self@.take(0).filter(keep) =~= Seq::<ReleaseView>::empty()) by {
            reveal(Seq::filter);
        }
        assert(texts(lines@) =~= listing(self@.take(0), tag_chars));
        while i < self.entries.len()
            invariant
                i <= self.entries.len(),
                self@.len() == self.entries@.len(),
                tag_chars == tag_view(tag),
                keep == (|e: ReleaseView| listed(e, tag_chars)),
                texts(lines@) == listing(self@.take(i as int), tag_chars),
            decreases self.entries.len() - i,
        {
            let release: &Release = &self.entries[i];
            assert(release@ == self@[i as int]);
            let shown: bool = match tag {
                None => true,
                Some(wanted) => match release.lts_tag() {
                    Some(own) => same_text(own, wanted),
                    None => false,
                },
            };
            assert(shown == listed(release@, tag_chars));
            let ghost before = lines@;
            if shown {
                lines.push(String::from_str(release.version()));
            }
            proof {
                let prev = self@.take(i as int);
                let next = self@.take(i + 1);
                assert(next.drop_last() =~= prev);
                assert(next.last() == release@);
                reveal(Seq::filter);
                assert(next.filter(keep) == if keep(release@) {
                    prev.filter(keep).push(release@)
                } else {
                    prev.filter(keep)
                });
                if shown {
                    assert(texts(lines@) =~= texts(before).push(release@.version));
                    assert(listing(next, tag_chars) =~= listing(prev, tag_chars).push(
                        release@.version,
                    ));
                }
            }
            i = i + 1;
        }
        assert(self@.take(i as int) =~= self@);
        lines
    }
}

} // verus!
