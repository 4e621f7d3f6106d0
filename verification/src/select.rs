//! The selector engine: from what the user typed to at most one release.
//!
//! A selector is one of the reserved words `lts` and `latest`, or any other
//! string, which is then matched against the end of the version names.
//!
//! * `lts` picks the highest version among the releases of a
//!   long-term-support line.
//! * `latest` picks the highest version of the whole catalog.
//! * Anything else picks the first release, in catalog order, whose version
//!   name ends with the selector.
//!
//! Where several releases share the highest version, the one that comes
//! first in the catalog is picked.

use vstd::prelude::*;
use crate::catalog::Catalog;
use crate::error::ResolutionError;
use crate::key::VersionKey;
use crate::release::{Release, ReleaseView};
use crate::text::{chars_end_with, chars_of, same_text};
use crate::version::{
    lemma_equivalent_not_precedes, lemma_not_above_stays_below, lemma_precedes_transitive,
    precedes, version_numbers,
};

verus! {

/// The numbers that a release's version name stands for.
pub open spec fn key_of(entry: ReleaseView) -> Seq<nat> {
    version_numbers(entry.version)
}

/// Whether a release takes part in a search for the highest version.
pub open spec fn eligible(entry: ReleaseView, lts_only: bool) -> bool {
    !lts_only || entry.is_lts()
}

/// Whether position `i` holds the highest eligible version among the first
/// `n` releases, and is the first position to do so.
pub open spec fn is_highest_within(
    entries: Seq<ReleaseView>,
    lts_only: bool,
    i: int,
    n: int,
) -> bool {
    &&& 0 <= i < n <= entries.len()
    &&& eligible(entries[i], lts_only)
    &&& forall|j: int|
        0 <= j < n && eligible(#[trigger] entries[j], lts_only) ==> !precedes(
            key_of(entries[i]),
            key_of(entries[j]),
        )
    &&& forall|j: int|
        0 <= j < i && eligible(#[trigger] entries[j], lts_only) ==> precedes(
            key_of(entries[j]),
            key_of(entries[i]),
        )
}

/// Whether position `i` holds the highest eligible version of the catalog,
/// and is the first position to do so.
pub open spec fn is_highest(entries: Seq<ReleaseView>, lts_only: bool, i: int) -> bool {
    is_highest_within(entries, lts_only, i, entries.len() as int)
}

/// Whether position `i` holds the first release whose version name ends with
/// `token`.
pub open spec fn is_first_match(entries: Seq<ReleaseView>, token: Seq<char>, i: int) -> bool {
    &&& 0 <= i < entries.len()
    &&& token.is_suffix_of(entries[i].version)
    &&& forall|j: int| 0 <= j < i ==> !token.is_suffix_of((#[trigger] entries[j]).version)
}

/// Whether position `i` is what the selector `token` picks.
pub open spec fn is_selected(token: Seq<char>, entries: Seq<ReleaseView>, i: int) -> bool {
    if token == "lts"@ {
        is_highest(entries, true, i)
    } else if token == "latest"@ {
        is_highest(entries, false, i)
    } else {
        is_first_match(entries, token, i)
    }
}

/// Whether the catalog holds anything that the selector `token` could pick.
pub open spec fn has_candidate(token: Seq<char>, entries: Seq<ReleaseView>) -> bool {
    if token == "lts"@ {
        exists|j: int| 0 <= j < entries.len() && (#[trigger] entries[j]).is_lts()
    } else if token == "latest"@ {
        entries.len() > 0
    } else {
        exists|j: int| 0 <= j < entries.len() && token.is_suffix_of((#[trigger] entries[j]).version)
    }
}

/// The release that the selector `token` picks from `entries`, if any.
pub open spec fn selection(token: Seq<char>, entries: Seq<ReleaseView>) -> Option<ReleaseView> {
    if exists|i: int| is_selected(token, entries, i) {
        Some(entries[choose|i: int| is_selected(token, entries, i)])
    } else {
        None
    }
}

/// At most one position holds the highest version.
pub proof fn lemma_highest_unique(entries: Seq<ReleaseView>, lts_only: bool, i: int, j: int)
    requires
        is_highest(entries, lts_only, i),
        is_highest(entries, lts_only, j),
    ensures
        i == j,
{
    if i < j {
        assert(eligible(entries[i], lts_only));
        assert(precedes(key_of(entries[i]), key_of(entries[j])));
        assert(!precedes(key_of(entries[i]), key_of(entries[j])));
    } else if j < i {
        assert(eligible(entries[j], lts_only));
        assert(precedes(key_of(entries[j]), key_of(entries[i])));
        assert(!precedes(key_of(entries[j]), key_of(entries[i])));
    }
}

/// A selector picks at most one position: selection is a function of the
/// selector and the catalog.
pub proof fn lemma_selected_unique(token: Seq<char>, entries: Seq<ReleaseView>, i: int, j: int)
    requires
        is_selected(token, entries, i),
        is_selected(token, entries, j),
    ensures
        i == j,
{
    if token == "lts"@ {
        lemma_highest_unique(entries, true, i, j);
    } else if token == "latest"@ {
        lemma_highest_unique(entries, false, i, j);
    } else {
        if i < j {
            assert(!token.is_suffix_of(entries[i].version));
        } else if j < i {
            assert(!token.is_suffix_of(entries[j].version));
        }
    }
}

impl Catalog {
    /// The position of the highest version: among the long-term-support
    /// releases if `lts_only` is set, among all releases otherwise. Of
    /// several releases with the highest version, the first.
    pub fn highest(&self, lts_only: bool) -> (r: Option<usize>)
        ensures
            match r {
                Some(i) => is_highest(self@, lts_only, i as int),
                None => forall|j: int|
                    0 <= j < self@.len() ==> !eligible(#[trigger] self@[j], lts_only),
            },
    {
        let n: usize = self.len();
        let mut best: usize = 0;
        let mut best_key: Option<VersionKey> = None;
        let mut i: usize = 0;
        while i < n
            invariant
                n == self@.len(),
                i <= n,
                match best_key {
                    Some(key) => key@ == key_of(self@[best as int]) && is_highest_within(
                        self@,
                        lts_only,
                        best as int,
                        i as int,
                    ),
                    None => forall|j: int|
                        0 <= j < i ==> !eligible(#[trigger] self@[j], lts_only),
                },
            decreases n - i,
        {
            let release: &Release = self.get(i).unwrap();
            if !lts_only || release.is_lts() {
                let key: VersionKey = VersionKey::parse(release.version());
                let ghost here = key_of(self@[i as int]);
                let higher: bool = match &best_key {
                    Some(current) => current.is_below(&key),
                    None => true,
                };
                if higher {
                    proof {
                        lemma_equivalent_not_precedes(here, here);
                        if best_key is Some {
                            let top = key_of(self@[best as int]);
                            assert forall|j: int|
                                0 <= j < i + 1 && eligible(
                                    #[trigger] self@[j],
                                    lts_only,
                                ) implies !precedes(here, key_of(self@[j])) by {
                                if j < i && precedes(here, key_of(self@[j])) {
                                    lemma_precedes_transitive(top, here, key_of(self@[j]));
                                }
                            }
                            assert forall|j: int|
                                0 <= j < i && eligible(
                                    #[trigger] self@[j],
                                    lts_only,
                                ) implies precedes(key_of(self@[j]), here) by {
                                lemma_not_above_stays_below(key_of(self@[j]), top, here);
                            }
                        }
                    }
                    best = i;
                    best_key = Some(key);
                }
            }
            i = i + 1;
        }
        match best_key {
            Some(_) => Some(best),
            None => None,
        }
    }

    /// The position of the first release whose version name ends with
    /// `token`.
    pub fn first_ending_with(&self, token: &str) -> (r: Option<usize>)
        ensures
            match r {
                Some(i) => is_first_match(self@, token@, i as int),
                None => forall|j: int|
                    0 <= j < self@.len() ==> !token@.is_suffix_of((#[trigger] self@[j]).version),
            },
    {
        let wanted: Vec<char> = chars_of(token);
        let n: usize = self.len();
        let mut i: usize = 0;
        while i < n
            invariant
                n == self@.len(),
                i <= n,
                wanted@ == token@,
                forall|j: int| 0 <= j < i ==> !token@.is_suffix_of((#[trigger] self@[j]).version),
            decreases n - i,
        {
            let release: &Release = self.get(i).unwrap();
            let name: Vec<char> = chars_of(release.version());
            if chars_end_with(&name, &wanted) {
                return Some(i);
            }
            i = i + 1;
        }
        None
    }
}

/// The position that the selector `token` picks in the catalog, if any.
pub fn select_index(token: &str, catalog: &Catalog) -> (r: Option<usize>)
    ensures
        match r {
            Some(i) => is_selected(token@, catalog@, i as int),
            None => forall|i: int| !is_selected(token@, catalog@, i),
        },
        r is Some <==> has_candidate(token@, catalog@),
{
    if same_text(token, "lts") {
        let r = catalog.highest(true);
        proof {
            match r {
                Some(i) => {
                    assert(catalog@[i as int].is_lts());
                },
                None => {
                    assert forall|j: int| 0 <= j < catalog@.len() implies !(
                    #[trigger] catalog@[j]).is_lts() by {
                        assert(!eligible(catalog@[j], true));
                    }
                },
            }
        }
        r
    } else if same_text(token, "latest") {
        let r = catalog.highest(false);
        proof {
            if r is None && catalog@.len() > 0 {
                assert(eligible(catalog@[0], false));
            }
        }
        r
    } else {
        let r = catalog.first_ending_with(token);
        proof {
            if let Some(i) = r {
                assert(token@.is_suffix_of(catalog@[i as int].version));
            }
        }
        r
    }
}

/// The release that the selector `token` picks from the catalog, if any.
pub fn select<'a>(token: &str, catalog: &'a Catalog) -> (r: Option<&'a Release>)
    ensures
        match r {
            Some(release) => exists|i: int|
                is_selected(token@, catalog@, i) && release@ == catalog@[i],
            None => forall|i: int| !is_selected(token@, catalog@, i),
        },
        r is Some <==> has_candidate(token@, catalog@),
        selection(token@, catalog@) == match r {
            Some(release) => Some(release@),
            None => None,
        },
{
    match select_index(token, catalog) {
        Some(i) => {
            proof {
                let picked = choose|k: int| is_selected(token@, catalog@, k);
                lemma_selected_unique(token@, catalog@, i as int, picked);
            }
            catalog.get(i)
        },
        None => None,
    }
}

/// Resolves a selector for a request that needs a release: the release that
/// `token` picks, or an error that names `token` when it picks none.
pub fn resolve<'a>(token: &str, catalog: &'a Catalog) -> (r: Result<&'a Release, ResolutionError>)
    ensures
        match r {
            Ok(release) => selection(token@, catalog@) == Some(release@),
            Err(e) => selection(token@, catalog@) is None && e.token@ == token@,
        },
        r is Ok <==> has_candidate(token@, catalog@),
{
    match select(token, catalog) {
        Some(release) => Ok(release),
        None => Err(ResolutionError { token: String::from_str(token) }),
    }
}

} // verus!
