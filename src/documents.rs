use std::sync::Arc;
use vstd::prelude::*;
use crate::cache::share;
use crate::lang::Language;

verus! {

/// A downloadable document.
pub struct Document {
    pub name: String,
    pub description: String,
    pub filename: String,
}

/// Why a document index was refused.
#[derive(Debug, Clone, Copy, PartialEq, Eq, Structural)]
pub enum DocumentsError {
    /// A language is listed twice.
    DuplicateLanguage,
}

/// The document lists, one per language.
pub struct Documents {
    documents: Vec<(Language, Arc<Vec<Document>>)>,
}

pub open spec fn languages_distinct(entries: Seq<(Language, Vec<Document>)>) -> bool {
    forall|i: int, j: int| 0 <= i < j < entries.len() ==> entries[i].0 != entries[j].0
}

impl Documents {
    pub closed spec fn lists_spec(&self) -> Seq<(Language, Vec<Document>)> {
        self.documents@.map_values(|e: (Language, Arc<Vec<Document>>)| (e.0, *e.1))
    }

    pub open spec fn well_formed(&self) -> bool {
        languages_distinct(self.lists_spec())
    }

    /// The lists, each language at most once.
    pub fn new(entries: Vec<(Language, Vec<Document>)>) -> (r: Result<Documents, DocumentsError>)
        ensures
            r is Ok <==> languages_distinct(entries@),
            r is Ok ==> r->Ok_0.lists_spec() == entries@ && r->Ok_0.well_formed(),
    {
        let ghost all = entries@;
        let mut rest = entries;
        let mut out: Vec<(Language, Arc<Vec<Document>>)> = Vec::new();
        let ghost mut i: int = 0;
        assert(all.skip(0) =~= all);
        while rest.len() > 0
            invariant
                0 <= i <= all.len(),
                all == entries@,
                rest@ == all.skip(i),
                out@.len() == i,
                out@.map_values(|e: (Language, Arc<Vec<Document>>)| (e.0, *e.1)) == all.take(i),
                languages_distinct(all.take(i)),
            decreases rest.len(),
        {
            let (lang, docs) = rest.remove(0);
            assert(all.skip(i)[0] == (lang, docs));
            assert(all[i] == (lang, docs));
            assert(rest@ =~= all.skip(i + 1));
            let mut j: usize = 0;
            while j < out.len()
                invariant
                    j <= out@.len(),
                    0 <= i < all.len(),
                    all == entries@,
                    out@.len() == i,
                    all[i] == (lang, docs),
                    out@.map_values(|e: (Language, Arc<Vec<Document>>)| (e.0, *e.1)) == all.take(i),
                    forall|k: int| 0 <= k < j ==> all[k].0 != lang,
                decreases out.len() - j,
            {
                assert(out@.map_values(|e: (Language, Arc<Vec<Document>>)| (e.0, *e.1))[j as int].0
                    == out@[j as int].0);
                assert(all.take(i)[j as int] == all[j as int]);
                if out[j].0 == lang {
                    assert(all[j as int].0 == all[i].0);
                    assert(!languages_distinct(all));
                    return Err(DocumentsError::DuplicateLanguage);
                }
                j = j + 1;
            }
            let ghost before = out@.map_values(|e: (Language, Arc<Vec<Document>>)| (e.0, *e.1));
            out.push((lang, Arc::new(docs)));
            assert(out@.map_values(|e: (Language, Arc<Vec<Document>>)| (e.0, *e.1)) =~= before.push((lang, docs)));
            assert(all.take(i + 1) =~= all.take(i).push(all[i]));
            proof {
                i = i + 1;
            }
        }
        assert(all.take(i) =~= all);
        Ok(Documents { documents: out })
    }

    /// The documents of `lang`, if any are listed.
    pub fn documents(&self, lang: Language) -> (r: Option<Arc<Vec<Document>>>)
        ensures
            r is None <==> forall|i: int| 0 <= i < self.lists_spec().len() ==> (#[trigger] self.lists_spec()[i]).0 != lang,
            r is Some ==> exists|i: int|
                0 <= i < self.lists_spec().len() && (#[trigger] self.lists_spec()[i]).0 == lang && *r->0
                    == self.lists_spec()[i].1,
    {
        let mut i: usize = 0;
        while i < self.documents.len()
            invariant
                i <= self.documents@.len(),
                forall|k: int| 0 <= k < i ==> (#[trigger] self.lists_spec()[k]).0 != lang,
            decreases self.documents.len() - i,
        {
            if self.documents[i].0 == lang {
                assert(self.lists_spec()[i as int].0 == lang);
                return Some(share(&self.documents[i].1));
            }
            i = i + 1;
        }
        None
    }
}

} // verus!
