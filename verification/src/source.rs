use vstd::prelude::*;

verus! {

/// Where a data layer came from.
#[derive(Clone, Copy, PartialEq, Eq, Debug, Structural)]
pub enum Source {
    Live,
    Cache,
    Snapshot,
    Synthetic,
}

/// The HUD tag shown for each provenance.
pub open spec fn source_tag(s: Source) -> Seq<char> {
    match s {
        Source::Live => "LIVE"@,
        Source::Cache => "CACHE"@,
        Source::Snapshot => "SNAPSHOT"@,
        Source::Synthetic => "SYNTHETIC"@,
    }
}

impl Source {
    pub fn tag(self) -> (r: &'static str)
        ensures
            r@ == source_tag(self),
    {
        match self {
            Source::Live => "LIVE",
            Source::Cache => "CACHE",
            Source::Snapshot => "SNAPSHOT",
            Source::Synthetic => "SYNTHETIC",
        }
    }
}

/// Law: the HUD can tell every provenance apart by its tag.
pub proof fn source_tags_distinct(a: Source, b: Source)
    requires
        a != b,
    ensures
        source_tag(a) != source_tag(b),
{
    reveal_strlit("LIVE");
    reveal_strlit("CACHE");
    reveal_strlit("SNAPSHOT");
    reveal_strlit("SYNTHETIC");
    assert("LIVE"@.len() == 4);
    assert("CACHE"@.len() == 5);
    assert("SNAPSHOT"@.len() == 8);
    assert("SYNTHETIC"@.len() == 9);
}

} // verus!
