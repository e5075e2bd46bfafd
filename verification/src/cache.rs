//! Cache entries and the store that holds them under their fingerprints.

use crate::fingerprint::fingerprint;
use crate::fingerprint::fingerprint_of;
use crate::fingerprint::is_lower_hex;
use crate::headers::HeaderView;
use crate::headers::Headers;
use crate::transport::headers_accepted;
use crate::transport::headers_are_accepted;
use crate::transport::is_method;
use crate::transport::is_query;
use crate::transport::method_accepted;
use crate::transport::query_accepted;
use dashmap::DashMap;
use vstd::prelude::*;
use vstd::slice::slice_to_vec;

verus! {

/// Whether `code` is a status code that an entry may hold.
pub open spec fn valid_status(code: u16) -> bool {
    100 <= code <= 599
}

/// Tells whether `code` is a status code that an entry may hold.
pub fn is_valid_status(code: u16) -> (r: bool)
    ensures
        r == valid_status(code),
{
    100 <= code && code <= 599
}

/// The model of a list of strings.
pub open spec fn strings_view(items: Seq<String>) -> Seq<Seq<char>> {
    items.map_values(|s: String| s@)
}

/// Per-entry policy: the header names that an operator wants compared in
/// addition to method, path and body. It is recorded, not enforced.
#[derive(Debug, PartialEq, Eq)]
pub struct CacheConfig {
    pub match_headers: Vec<String>,
}

impl View for CacheConfig {
    type V = Seq<Seq<char>>;

    open spec fn view(&self) -> Seq<Seq<char>> {
        strings_view(self.match_headers@)
    }
}

impl Default for CacheConfig {
    fn default() -> (r: CacheConfig)
        ensures
            r@ == Seq::<Seq<char>>::empty(),
    {
        let r = CacheConfig { match_headers: Vec::new() };
        proof {
            assert(r@ =~= Seq::<Seq<char>>::empty());
        }
        r
    }
}

impl Clone for CacheConfig {
    fn clone(&self) -> (r: CacheConfig)
        ensures
            r@ == self@,
    {
        let mut names: Vec<String> = Vec::new();
        let mut i: usize = 0;
        while i < self.match_headers.len()
            invariant
                i <= self.match_headers.len(),
                strings_view(names@) == self@.take(i as int),
            decreases self.match_headers.len() - i,
        {
            let ghost before = names@;
            let name = self.match_headers[i].clone();
            names.push(name);
            proof {
                assert(strings_view(names@) =~= strings_view(before).push(name@));
                assert(self@.take(i + 1) =~= self@.take(i as int).push(self@[i as int]));
            }
            i = i + 1;
        }
        proof {
            assert(self@.take(self@.len() as int) =~= self@);
        }
        CacheConfig { match_headers: names }
    }
}

/// The parts of an inbound request that are captured with its response.
#[derive(Debug, PartialEq, Eq)]
pub struct CacheReqParts {
    /// The method, as sent.
    pub method: String,
    pub headers: Headers,
    /// The query component, where the request had one.
    pub query: Option<String>,
    /// The path, without the query.
    pub path: String,
    /// The fully buffered body.
    pub body: Vec<u8>,
}

/// Mathematical model of a [`CacheReqParts`].
pub ghost struct CacheReqPartsView {
    pub method: Seq<char>,
    pub headers: Seq<HeaderView>,
    pub query: Option<Seq<char>>,
    pub path: Seq<char>,
    pub body: Seq<u8>,
}

impl View for CacheReqParts {
    type V = CacheReqPartsView;

    open spec fn view(&self) -> CacheReqPartsView {
        CacheReqPartsView {
            method: self.method@,
            headers: self.headers@,
            query: match self.query {
                Some(q) => Some(q@),
                None => None,
            },
            path: self.path@,
            body: self.body@,
        }
    }
}

impl CacheReqPartsView {
    /// The fingerprint of the request: the hex digest of method, path and
    /// body.
    pub open spec fn fingerprint(self) -> Seq<char> {
        fingerprint(self.method, self.path, self.body)
    }
}

impl Clone for CacheReqParts {
    fn clone(&self) -> (r: CacheReqParts)
        ensures
            r@ == self@,
    {
        let query = match &self.query {
            Some(q) => Some(q.clone()),
            None => None,
        };
        CacheReqParts {
            method: self.method.clone(),
            headers: self.headers.clone(),
            query,
            path: self.path.clone(),
            body: slice_to_vec(self.body.as_slice()),
        }
    }
}

impl CacheReqParts {
    /// The fingerprint of this request: thirty-two lower-case hex digits.
    /// Headers and query do not enter it.
    pub fn get_md5(&self) -> (key: String)
        ensures
            key@ == self@.fingerprint(),
            key@.len() == 32,
            forall|i: int| 0 <= i < key@.len() ==> is_lower_hex(#[trigger] key@[i]),
    {
        fingerprint_of(self.method.as_str(), self.path.as_str(), self.body.as_slice())
    }
}

/// One cached exchange: the captured request, the captured response and
/// the entry's policy.
#[derive(Debug, PartialEq, Eq)]
pub struct CacheObject {
    pub request: CacheReqParts,
    pub response_body: Vec<u8>,
    pub response_headers: Headers,
    pub status_code: u16,
    pub config: CacheConfig,
}

/// Mathematical model of a [`CacheObject`].
pub ghost struct CacheObjectView {
    pub request: CacheReqPartsView,
    pub response_body: Seq<u8>,
    pub response_headers: Seq<HeaderView>,
    pub status_code: u16,
    pub config: Seq<Seq<char>>,
}

impl View for CacheObject {
    type V = CacheObjectView;

    open spec fn view(&self) -> CacheObjectView {
        CacheObjectView {
            request: self.request@,
            response_body: self.response_body@,
            response_headers: self.response_headers@,
            status_code: self.status_code,
            config: self.config@,
        }
    }
}

impl Clone for CacheObject {
    fn clone(&self) -> (r: CacheObject)
        ensures
            r@ == self@,
    {
        CacheObject {
            request: self.request.clone(),
            response_body: slice_to_vec(self.response_body.as_slice()),
            response_headers: self.response_headers.clone(),
            status_code: self.status_code,
            config: self.config.clone(),
        }
    }
}

/// The model of one stored pair: fingerprint and entry.
pub type PairView = (Seq<char>, CacheObjectView);

/// The model of a list of owned pairs.
pub open spec fn pairs_view(pairs: Seq<(String, CacheObject)>) -> Seq<PairView> {
    pairs.map_values(|p: (String, CacheObject)| (p.0@, p.1@))
}

/// The mapping that results when the pairs are inserted in their order into
/// an empty store: of two pairs with one fingerprint the later stays.
pub open spec fn pairs_map(pairs: Seq<PairView>) -> Map<Seq<char>, CacheObjectView>
    decreases pairs.len(),
{
    if pairs.len() == 0 {
        Map::empty()
    } else {
        pairs_map(pairs.drop_last()).insert(pairs.last().0, pairs.last().1)
    }
}

/// The content of an empty store.
pub open spec fn no_entries() -> Map<Seq<char>, CacheObjectView> {
    Map::empty()
}

/// No fingerprint occurs twice among the pairs.
pub open spec fn distinct_keys(pairs: Seq<PairView>) -> bool {
    forall|i: int, j: int| 0 <= i < j < pairs.len() ==> pairs[i].0 != pairs[j].0
}

/// Some pair has the fingerprint `key`.
pub open spec fn has_key(pairs: Seq<PairView>, key: Seq<char>) -> bool {
    exists|i: int| 0 <= i < pairs.len() && (#[trigger] pairs[i]).0 == key
}

/// The pairs are a dump of `content`: each fingerprint held comes with its
/// entry, once, and nothing else does. The order is open.
pub open spec fn dumps(pairs: Seq<PairView>, content: Map<Seq<char>, CacheObjectView>) -> bool {
    &&& distinct_keys(pairs)
    &&& forall|i: int|
        0 <= i < pairs.len() ==> content.contains_key((#[trigger] pairs[i]).0) && content[pairs[i].0]
            == pairs[i].1
    &&& forall|key: Seq<char>| #[trigger] content.contains_key(key) ==> has_key(pairs, key)
}

/// An entry is valid where its status code is one of 100 to 599 and the
/// transport takes its method, the names and values of its headers, and
/// its query behind its path.
pub open spec fn valid_entry(entry: CacheObjectView) -> bool {
    &&& valid_status(entry.status_code)
    &&& method_accepted(entry.request.method)
    &&& headers_accepted(entry.request.headers)
    &&& headers_accepted(entry.response_headers)
    &&& query_accepted(entry.request.path, entry.request.query)
}

/// Every entry of the mapping is valid.
pub open spec fn all_valid(entries: Map<Seq<char>, CacheObjectView>) -> bool {
    forall|key: Seq<char>| #[trigger] entries.contains_key(key) ==> valid_entry(entries[key])
}

/// The concurrent map of `dashmap`, opaque to the verifier.
#[verifier::external_type_specification]
#[verifier::external_body]
#[verifier::reject_recursive_types(K)]
#[verifier::reject_recursive_types(V)]
#[verifier::reject_recursive_types(S)]
pub struct ExDashMap<K, V, S>(DashMap<K, V, S>);

/// What a map holds: for each key that is present, the model of its value.
pub uninterp spec fn stored_entries(map: DashMap<String, CacheObject>) -> Map<
    Seq<char>,
    CacheObjectView,
>;

/// Calls `DashMap::new`. Trusted: the new map holds nothing.
#[verifier::external_body]
fn map_new() -> (map: DashMap<String, CacheObject>)
    ensures
        stored_entries(map) == no_entries(),
{
    DashMap::new()
}

/// Calls `DashMap::get` and clones the value found. Trusted: the result is
/// the value held under `key`, and `None` exactly where the key is absent.
#[verifier::external_body]
fn map_get(map: &DashMap<String, CacheObject>, key: &str) -> (r: Option<CacheObject>)
    ensures
        match r {
            Some(entry) => stored_entries(*map).contains_key(key@) && stored_entries(*map)[key@]
                == entry@,
            None => !stored_entries(*map).contains_key(key@),
        },
{
    map.get(key).map(|held| held.value().clone())
}

/// Calls `DashMap::insert`. Trusted: afterwards `key` holds `value`, in
/// place of what it held before, and every other key is as it was.
#[verifier::external_body]
fn map_insert(map: &mut DashMap<String, CacheObject>, key: String, value: CacheObject)
    ensures
        stored_entries(*final(map)) == stored_entries(*old(map)).insert(key@, value@),
{
    map.insert(key, value);
}

/// Calls `DashMap::clear`. Trusted: afterwards the map holds nothing.
#[verifier::external_body]
fn map_clear(map: &mut DashMap<String, CacheObject>)
    ensures
        stored_entries(*final(map)) == no_entries(),
{
    map.clear();
}

/// Walks the map with `DashMap::iter` and clones each key and value.
/// Trusted: every pair held comes out once, in no stated order, and
/// nothing else does.
#[verifier::external_body]
fn map_pairs(map: &DashMap<String, CacheObject>) -> (pairs: Vec<(String, CacheObject)>)
    ensures
        dumps(pairs_view(pairs@), stored_entries(*map)),
{
    map.iter().map(|held| (held.key().clone(), held.value().clone())).collect()
}

/// The store: a mapping from fingerprint to entry.
pub struct Cache {
    map: DashMap<String, CacheObject>,
}

impl View for Cache {
    type V = Map<Seq<char>, CacheObjectView>;

    closed spec fn view(&self) -> Map<Seq<char>, CacheObjectView> {
        stored_entries(self.map)
    }
}

impl Default for Cache {
    fn default() -> (r: Cache)
        ensures
            r@ == no_entries(),
    {
        Cache::new()
    }
}

impl Cache {
    /// Every entry held is valid.
    pub open spec fn wf(&self) -> bool {
        all_valid(self@)
    }

    /// An empty store.
    pub fn new() -> (r: Cache)
        ensures
            r@ == no_entries(),
    {
        Cache { map: map_new() }
    }

    /// The entry held under `fingerprint`, if there is one.
    pub fn lookup(&self, fingerprint: &str) -> (r: Option<CacheObject>)
        ensures
            match r {
                Some(entry) => self@.contains_key(fingerprint@) && self@[fingerprint@] == entry@,
                None => !self@.contains_key(fingerprint@),
            },
    {
        map_get(&self.map, fingerprint)
    }

    /// Puts `entry` under `fingerprint`, in place of what was held there.
    pub fn insert(&mut self, fingerprint: String, entry: CacheObject)
        ensures
            final(self)@ == old(self)@.insert(fingerprint@, entry@),
            old(self).wf() && valid_entry(entry@) ==> final(self).wf(),
    {
        map_insert(&mut self.map, fingerprint, entry);
    }

    /// Drops every entry.
    pub fn clear(&mut self)
        ensures
            final(self)@ == no_entries(),
    {
        map_clear(&mut self.map);
    }

    /// Every pair held, once each, in no stated order.
    pub fn dump_all(&self) -> (pairs: Vec<(String, CacheObject)>)
        ensures
            dumps(pairs_view(pairs@), self@),
            pairs_map(pairs_view(pairs@)) == self@,
    {
        let pairs = map_pairs(&self.map);
        proof {
            lemma_restore_of_dump(self@, pairs_view(pairs@));
        }
        pairs
    }

    /// Replaces the whole content by the given pairs: what was held before
    /// is dropped, and of two pairs with one fingerprint the later stays.
    pub fn restore_all(&mut self, pairs: &Vec<(String, CacheObject)>)
        ensures
            final(self)@ == pairs_map(pairs_view(pairs@)),
    {
        self.clear();
        let ghost all = pairs_view(pairs@);
        let mut i: usize = 0;
        while i < pairs.len()
            invariant
                i <= pairs.len(),
                all == pairs_view(pairs@),
                self@ == pairs_map(all.take(i as int)),
            decreases pairs.len() - i,
        {
            let key = pairs[i].0.clone();
            let entry = pairs[i].1.clone();
            proof {
                assert(all.take(i + 1).drop_last() =~= all.take(i as int));
                assert(all.take(i + 1).last() == (key@, entry@));
            }
            self.insert(key, entry);
            i = i + 1;
        }
        proof {
            assert(all.take(all.len() as int) =~= all);
        }
    }
}

impl CacheObject {
    /// Tells whether this entry is valid.
    pub fn is_valid(&self) -> (ok: bool)
        ensures
            ok == valid_entry(self@),
    {
        is_valid_status(self.status_code) && is_method(self.request.method.as_str())
            && headers_are_accepted(&self.request.headers) && headers_are_accepted(
            &self.response_headers,
        ) && is_query(self.request.path.as_str(), &self.request.query)
    }

    /// Computes the fingerprint of a buffered request and looks it up.
    /// Gives back the entry found, the request and the fingerprint.
    pub fn find_by_req(cache: &Cache, req_parts: CacheReqParts) -> (r: (
        Option<CacheObject>,
        CacheReqParts,
        String,
    ))
        ensures
            r.1 == req_parts,
            r.2@ == req_parts@.fingerprint(),
            r.2@.len() == 32,
            match r.0 {
                Some(entry) => cache@.contains_key(r.2@) && cache@[r.2@] == entry@,
                None => !cache@.contains_key(r.2@),
            },
    {
        let md5 = req_parts.get_md5();
        let found = cache.lookup(md5.as_str());
        (found, req_parts, md5)
    }

    /// Stores this entry under the fingerprint `md5`.
    pub fn add_record_by_md5(self, cache: &mut Cache, md5: String)
        ensures
            final(cache)@ == old(cache)@.insert(md5@, self@),
            old(cache).wf() && valid_entry(self@) ==> final(cache).wf(),
    {
        cache.insert(md5, self);
    }
}

/// Replaces the content of `cache` by that of `new_cache`.
pub fn replace_global_cache(cache: &mut Cache, new_cache: &Cache)
    ensures
        final(cache)@ == new_cache@,
{
    let pairs = new_cache.dump_all();
    cache.restore_all(&pairs);
}

/// Requests that agree in method, path and body have one fingerprint,
/// whatever their headers and queries.
pub proof fn lemma_fingerprint_deterministic(r1: CacheReqPartsView, r2: CacheReqPartsView)
    requires
        r1.method == r2.method,
        r1.path == r2.path,
        r1.body == r2.body,
    ensures
        r1.fingerprint() == r2.fingerprint(),
{
}

/// Restoring what a store dumped gives the store's content back.
pub proof fn lemma_restore_of_dump(content: Map<Seq<char>, CacheObjectView>, dump: Seq<PairView>)
    requires
        dumps(dump, content),
    ensures
        pairs_map(dump) == content,
{
    lemma_pairs_map_holds(dump);
    assert forall|key: Seq<char>| content.contains_key(key) implies pairs_map(dump).contains_key(
        key,
    ) && pairs_map(dump)[key] == content[key] by {
        let i = choose|i: int| 0 <= i < dump.len() && (#[trigger] dump[i]).0 == key;
        assert(pairs_map(dump)[dump[i].0] == dump[i].1);
    }
    assert forall|key: Seq<char>| pairs_map(dump).contains_key(key) implies content.contains_key(
        key,
    ) by {
        assert(has_key(dump, key));
        let i = choose|i: int| 0 <= i < dump.len() && (#[trigger] dump[i]).0 == key;
        assert(content.contains_key(dump[i].0));
    }
    assert(pairs_map(dump) =~= content);
}

/// The mapping built from pairs holds the fingerprints of the pairs and no
/// others, and where no fingerprint occurs twice, each with its entry.
pub proof fn lemma_pairs_map_holds(pairs: Seq<PairView>)
    ensures
        forall|key: Seq<char>| #[trigger]
            pairs_map(pairs).contains_key(key) <==> has_key(pairs, key),
        distinct_keys(pairs) ==> forall|i: int|
            0 <= i < pairs.len() ==> pairs_map(pairs)[(#[trigger] pairs[i]).0] == pairs[i].1,
    decreases pairs.len(),
{
    if pairs.len() > 0 {
        let front = pairs.drop_last();
        let last = pairs.last();
        lemma_pairs_map_holds(front);
        assert forall|key: Seq<char>| pairs_map(pairs).contains_key(key) implies has_key(
            pairs,
            key,
        ) by {
            if key == last.0 {
                assert(pairs[pairs.len() - 1].0 == key);
            } else {
                assert(pairs_map(front).contains_key(key));
                assert(has_key(front, key));
                let i = choose|i: int| 0 <= i < front.len() && (#[trigger] front[i]).0 == key;
                assert(pairs[i].0 == key);
            }
        }
        assert forall|key: Seq<char>| has_key(pairs, key) implies pairs_map(pairs).contains_key(
            key,
        ) by {
            let i = choose|i: int| 0 <= i < pairs.len() && (#[trigger] pairs[i]).0 == key;
            if i < pairs.len() - 1 {
                assert(front[i].0 == key);
                assert(has_key(front, key));
            }
        }
        if distinct_keys(pairs) {
            assert(distinct_keys(front)) by {
                assert forall|i: int, j: int| 0 <= i < j < front.len() implies front[i].0
                    != front[j].0 by {
                    assert(pairs[i].0 != pairs[j].0);
                }
            }
            assert forall|i: int| 0 <= i < pairs.len() implies pairs_map(pairs)[(
            #[trigger] pairs[i]).0] == pairs[i].1 by {
                if i < pairs.len() - 1 {
                    assert(pairs[i].0 != pairs[pairs.len() - 1].0);
                    assert(front[i] == pairs[i]);
                    assert(pairs_map(front)[front[i].0] == front[i].1);
                }
            }
        }
    }
}

} // verus!
