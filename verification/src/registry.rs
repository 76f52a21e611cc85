//! The registry service's decisions that the engine shares: the error
//! body it answers with, and which published entry feeds the search index.

use vstd::prelude::*;
use crate::index::{IndexFile, IndexFileEntry};
use crate::version::{VersionId, version_lt, lemma_version_lt_trans, lemma_version_lt_irrefl};

verus! {

/// The body of an error answer.
pub struct ErrorResponse {
    /// The message shown to the caller.
    pub error: String,
}

/// The entry the search index describes for one package: a highest
/// published version (by precedence, over all targets).
pub fn latest_entry<'a>(file: &'a IndexFile) -> (r: Option<&'a (VersionId, IndexFileEntry)>)
    ensures
        r is Some <==> file.entries@.len() > 0,
        r matches Some(e) ==> exists|i: int| 0 <= i < file.entries@.len()
            && e == &file.entries@[i],
        r matches Some(e) ==> forall|i: int| 0 <= i < file.entries@.len()
            ==> !version_lt(e.0.version, (#[trigger] file.entries@[i]).0.version),
{
    if file.entries.len() == 0 {
        return None;
    }
    let mut best: usize = 0;
    let mut i: usize = 1;
    proof {
        lemma_version_lt_irrefl(file.entries@[0].0.version);
    }
    while i < file.entries.len()
        invariant
            file.entries@.len() > 0,
            best < i,
            i <= file.entries@.len(),
            forall|j: int| 0 <= j < i ==> !version_lt(file.entries@[best as int].0.version,
                (#[trigger] file.entries@[j]).0.version),
        decreases file.entries@.len() - i,
    {
        proof {
            lemma_version_lt_irrefl(file.entries@[i as int].0.version);
        }
        if file.entries[best].0.version.lt(&file.entries[i].0.version) {
            proof {
                let bv = file.entries@[best as int].0.version;
                let cv = file.entries@[i as int].0.version;
                assert forall|j: int| 0 <= j < i
                    implies !version_lt(cv, (#[trigger] file.entries@[j]).0.version) by {
                    if version_lt(cv, file.entries@[j].0.version) {
                        lemma_version_lt_trans(bv, cv, file.entries@[j].0.version);
                    }
                }
            }
            best = i;
        }
        i += 1;
    }
    proof {
        assert(file.entries@[best as int] == file.entries@[best as int]);
    }
    Some(&file.entries[best])
}

/// The search-document fields of one package: its rendered name as the
/// identity, the two name segments, the latest entry's description (empty
/// when none) and its publish time.
pub fn search_doc_fields(
    name: &crate::names::PackageNames,
    entry: &IndexFileEntry,
) -> (r: (String, String, String, String, u64))
    ensures
        r.0@ == name.spec_render(),
        r.1@ == name.view_v().0,
        r.2@ == name.view_v().1,
        r.3@ == (match entry.description {
            Some(d) => d@,
            None => Seq::<char>::empty(),
        }),
        r.4 == entry.published_at,
{
    let id = name.render();
    let (scope, nm) = name.as_str();
    let description = match &entry.description {
        Some(d) => d.clone(),
        None => String::new(),
    };
    (id, String::from_str(scope), String::from_str(nm), description, entry.published_at)
}

} // verus!
