//! One installable release: a version name and, for long-term-support lines,
//! the name of the line.

use vstd::prelude::*;

verus! {

/// What a release is, as plain values.
pub struct ReleaseView {
    /// The version name, for example `v18.16.0`.
    pub version: Seq<char>,
    /// The long-term-support tag, if the release carries one.
    pub lts_tag: Option<Seq<char>>,
}

impl ReleaseView {
    /// Whether the release belongs to a long-term-support line: it carries a
    /// tag, and the tag is not empty.
    pub open spec fn is_lts(self) -> bool {
        self.lts_tag is Some && self.lts_tag->0.len() > 0
    }
}

/// A release of the runtime. Its version name is never empty.
#[derive(Debug)]
pub struct Release {
    version: String,
    lts_tag: Option<String>,
}

impl View for Release {
    type V = ReleaseView;

    closed spec fn view(&self) -> ReleaseView {
        ReleaseView {
            version: self.version@,
            lts_tag: match self.lts_tag {
                Some(tag) => Some(tag@),
                None => None,
            },
        }
    }
}

/// The characters of an optional string slice.
pub open spec fn tag_view(tag: Option<&str>) -> Option<Seq<char>> {
    match tag {
        Some(t) => Some(t@),
        None => None,
    }
}

impl Release {
    #[verifier::type_invariant]
    spec fn named(&self) -> bool {
        self.version@.len() > 0
    }

    /// Makes a release from its version name and optional tag. An empty
    /// version names no release.
    pub fn new(version: &str, lts_tag: Option<&str>) -> (r: Option<Release>)
        ensures
            r is None <==> version@.len() == 0,
            r matches Some(release) ==> release@ == (ReleaseView {
                version: version@,
                lts_tag: tag_view(lts_tag),
            }),
    {
        if version.is_empty() {
            return None;
        }
        let tag: Option<String> = match lts_tag {
            Some(t) => Some(String::from_str(t)),
            None => None,
        };
        Some(Release { version: String::from_str(version), lts_tag: tag })
    }

    /// Makes a release that carries no long-term-support tag.
    pub fn ver_only(version: &str) -> (r: Option<Release>)
        ensures
            r is None <==> version@.len() == 0,
            r matches Some(release) ==> release@ == (ReleaseView {
                version: version@,
                lts_tag: None,
            }),
    {
        Release::new(version, None)
    }

    /// The version name.
    pub fn version(&self) -> (v: &str)
        ensures
            v@ == self@.version,
            v@.len() > 0,
    {
        proof {
            use_type_invariant(self);
        }
        self.version.as_str()
    }

    /// The long-term-support tag, if there is one.
    pub fn lts_tag(&self) -> (t: Option<&str>)
        ensures
            tag_view(t) == self@.lts_tag,
    {
        match &self.lts_tag {
            Some(tag) => Some(tag.as_str()),
            None => None,
        }
    }

    /// Whether the release belongs to a long-term-support line.
    pub fn is_lts(&self) -> (r: bool)
        ensures
            r == self@.is_lts(),
    {
        match &self.lts_tag {
            Some(tag) => !tag.as_str().is_empty(),
            None => false,
        }
    }
}

/// Releases are told apart by their version name alone.
impl PartialEq for Release {
    fn eq(&self, other: &Release) -> (r: bool) {
        self.version == other.version
    }
}

impl vstd::std_specs::cmp::PartialEqSpecImpl for Release {
    open spec fn obeys_eq_spec() -> bool {
        true
    }

    open spec fn eq_spec(&self, other: &Release) -> bool {
        self@.version == other@.version
    }
}

impl Clone for Release {
    fn clone(&self) -> (r: Release)
        ensures
            r@ == self@,
    {
        proof {
            use_type_invariant(self);
        }
        let tag: Option<String> = match &self.lts_tag {
            Some(t) => Some(t.clone()),
            None => None,
        };
        Release { version: self.version.clone(), lts_tag: tag }
    }
}

} // verus!
