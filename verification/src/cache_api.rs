//! The administrative operations on the store: dump it as documents,
//! restore it from documents, clear it.

use crate::cache::all_valid;
use crate::cache::dumps;
use crate::cache::lemma_restore_of_dump;
use crate::cache::no_entries;
use crate::cache::pairs_map;
use crate::cache::pairs_view;
use crate::cache::valid_entry;
use crate::cache::Cache;
use crate::cache::CacheObject;
use crate::cache::CacheObjectView;
use crate::cache::PairView;
use crate::document::document_error;
use crate::document::document_of;
use crate::document::entry_of;
use crate::document::EntryDocument;
use crate::document::EntryDocumentView;
use vstd::prelude::*;

verus! {

/// The status that reports a restore as done.
pub const ACCEPTED: u16 = 202;

/// The status that reports a document as refused.
pub const BAD_REQUEST: u16 = 400;

/// The model of one document with its fingerprint.
pub type DocumentPairView = (Seq<char>, EntryDocumentView);

/// The model of a list of owned documents with their fingerprints.
pub open spec fn documents_view(documents: Seq<(String, EntryDocument)>) -> Seq<DocumentPairView> {
    documents.map_values(|d: (String, EntryDocument)| (d.0@, d.1@))
}

/// The pairs that the documents stand for, in their order.
pub open spec fn entries_of(documents: Seq<DocumentPairView>) -> Seq<PairView> {
    documents.map_values(|d: DocumentPairView| (d.0, entry_of(d.1)))
}

/// Nothing is wrong with any of the documents.
pub open spec fn acceptable(documents: Seq<DocumentPairView>) -> bool {
    forall|i: int| 0 <= i < documents.len() ==> document_error((#[trigger] documents[i]).1) is None
}

/// The store's content after a restore from the documents: the mapping of
/// their entries where all are acceptable, else the content as it was.
pub open spec fn restored(
    content: Map<Seq<char>, CacheObjectView>,
    documents: Seq<DocumentPairView>,
) -> Map<Seq<char>, CacheObjectView> {
    if acceptable(documents) {
        pairs_map(entries_of(documents))
    } else {
        content
    }
}

/// The dump of the store as documents: one for each entry held, under its
/// fingerprint, in no stated order.
///
/// Read back, the documents are a dump of the store, so that a restore
/// from them leaves the store's content as it is.
pub fn get_cache_json(cache: &Cache) -> (documents: Vec<(String, EntryDocument)>)
    ensures
        dumps(entries_of(documents_view(documents@)), cache@),
        restored(cache@, documents_view(documents@)) == cache@,
        forall|i: int|
            0 <= i < documents.len() ==> (#[trigger] documents[i]).1@ == document_of(
                cache@[documents[i].0@],
            ),
        cache.wf() ==> acceptable(documents_view(documents@)),
{
    let pairs = cache.dump_all();
    let ghost all = pairs_view(pairs@);
    let mut documents: Vec<(String, EntryDocument)> = Vec::new();
    let mut i: usize = 0;
    while i < pairs.len()
        invariant
            i <= pairs.len(),
            all == pairs_view(pairs@),
            documents.len() == i,
            entries_of(documents_view(documents@)) == all.take(i as int),
            forall|j: int|
                0 <= j < i ==> (#[trigger] documents[j]).1@ == document_of(all[j].1)
                    && documents[j].0@ == all[j].0,
        decreases pairs.len() - i,
    {
        let ghost before = documents@;
        let key = pairs[i].0.clone();
        let document = pairs[i].1.to_document();
        documents.push((key, document));
        proof {
            assert(all[i as int] == (key@, pairs[i as int].1@));
            assert(entries_of(documents_view(documents@)) =~= entries_of(
                documents_view(before),
            ).push(all[i as int]));
            assert(all.take(i + 1) =~= all.take(i as int).push(all[i as int]));
            assert forall|j: int| 0 <= j < i + 1 implies (#[trigger] documents[j]).1@
                == document_of(all[j].1) && documents[j].0@ == all[j].0 by {
                if j < i {
                    assert(documents[j] == before[j]);
                }
            }
        }
        i = i + 1;
    }
    proof {
        assert(all.take(all.len() as int) =~= all);
        lemma_restore_of_dump(cache@, all);
        let views = documents_view(documents@);
        assert forall|j: int| 0 <= j < documents.len() implies (#[trigger] documents[j]).1@
            == document_of(cache@[documents[j].0@]) by {
            assert(cache@.contains_key(all[j].0) && cache@[all[j].0] == all[j].1);
        }
        if cache.wf() {
            assert forall|j: int| 0 <= j < views.len() implies document_error(
                (#[trigger] views[j]).1,
            ) is None by {
                assert(views[j] == (documents[j].0@, documents[j].1@));
                assert(cache@.contains_key(all[j].0) && cache@[all[j].0] == all[j].1);
            }
        }
    }
    documents
}

/// Restores the store from documents: what was held is dropped and each
/// document's entry is inserted, of two with one fingerprint the later.
///
/// Gives 202 where every document is acceptable. Where one is not, gives
/// 400 and leaves the store as it was.
pub fn post_cache_json(cache: &mut Cache, documents: &Vec<(String, EntryDocument)>) -> (status: u16)
    ensures
        final(cache)@ == restored(old(cache)@, documents_view(documents@)),
        status == if acceptable(documents_view(documents@)) {
            ACCEPTED
        } else {
            BAD_REQUEST
        },
        acceptable(documents_view(documents@)) ==> final(cache).wf(),
{
    let ghost all = documents_view(documents@);
    let mut pairs: Vec<(String, CacheObject)> = Vec::new();
    let mut i: usize = 0;
    while i < documents.len()
        invariant
            i <= documents.len(),
            all == documents_view(documents@),
            acceptable(all.take(i as int)),
            pairs_view(pairs@) == entries_of(all.take(i as int)),
            *cache == *old(cache),
        decreases documents.len() - i,
    {
        let ghost before = pairs@;
        match documents[i].1.to_entry() {
            Ok(entry) => {
                let key = documents[i].0.clone();
                pairs.push((key, entry));
                proof {
                    assert(all[i as int] == (key@, documents[i as int].1@));
                    assert(all.take(i + 1) =~= all.take(i as int).push(all[i as int]));
                    assert(pairs_view(pairs@) =~= pairs_view(before).push(
                        (key@, entry_of(all[i as int].1)),
                    ));
                    assert(entries_of(all.take(i + 1)) =~= entries_of(all.take(i as int)).push(
                        (key@, entry_of(all[i as int].1)),
                    ));
                    assert forall|j: int| 0 <= j < i + 1 implies document_error(
                        (#[trigger] all.take(i + 1)[j]).1,
                    ) is None by {
                        if j < i {
                            assert(all.take(i as int)[j] == all.take(i + 1)[j]);
                        }
                    }
                }
            },
            Err(_) => {
                proof {
                    assert(all[i as int].1 == documents[i as int].1@);
                    assert(document_error(all[i as int].1) is Some);
                }
                return BAD_REQUEST;
            },
        }
        i = i + 1;
    }
    proof {
        assert(all.take(all.len() as int) =~= all);
        lemma_restored_valid(entries_of(all));
        assert forall|j: int| 0 <= j < entries_of(all).len() implies valid_entry(
            (#[trigger] entries_of(all)[j]).1,
        ) by {
            assert(document_error(all[j].1) is None);
        }
    }
    cache.restore_all(&pairs);
    ACCEPTED
}

/// Drops every entry of the store.
pub fn delete_cache_json(cache: &mut Cache)
    ensures
        final(cache)@ == no_entries(),
{
    cache.clear();
}

/// Where every pair holds a valid entry, so does the mapping that is built
/// from the pairs.
pub proof fn lemma_restored_valid(pairs: Seq<PairView>)
    ensures
        (forall|i: int| 0 <= i < pairs.len() ==> valid_entry((#[trigger] pairs[i]).1))
            ==> all_valid(pairs_map(pairs)),
    decreases pairs.len(),
{
    if pairs.len() > 0 {
        let front = pairs.drop_last();
        lemma_restored_valid(front);
        if forall|i: int| 0 <= i < pairs.len() ==> valid_entry((#[trigger] pairs[i]).1) {
            assert forall|i: int| 0 <= i < front.len() implies valid_entry(
                (#[trigger] front[i]).1,
            ) by {
                assert(front[i] == pairs[i]);
            }
            assert(valid_entry(pairs[pairs.len() - 1].1));
        }
    }
}

/// A restore from a dump of the store leaves the store's content as it
/// is.
pub proof fn lemma_dump_restore(
    content: Map<Seq<char>, CacheObjectView>,
    documents: Seq<DocumentPairView>,
)
    requires
        dumps(entries_of(documents), content),
    ensures
        restored(content, documents) == content,
{
    lemma_restore_of_dump(content, entries_of(documents));
}

/// The documents of a dump of a store whose entries are valid are
/// acceptable: a restore from them is not refused.
pub proof fn lemma_dump_acceptable(
    content: Map<Seq<char>, CacheObjectView>,
    documents: Seq<DocumentPairView>,
)
    requires
        all_valid(content),
        dumps(entries_of(documents), content),
    ensures
        acceptable(documents),
{
    assert forall|i: int| 0 <= i < documents.len() implies document_error(
        (#[trigger] documents[i]).1,
    ) is None by {
        let pair = entries_of(documents)[i];
        assert(content.contains_key(pair.0) && content[pair.0] == pair.1);
    }
}

} // verus!
