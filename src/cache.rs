use vstd::prelude::*;
use crate::error::ServiceError;
use crate::response::ResponseSimulator;
use crate::text::append_str;

verus! {

/// One stored text and the second from which it no longer counts.
pub struct CacheEntry {
    pub key: String,
    pub value: String,
    pub expires_at: u64,
}

/// The first entry stored under `k`.
pub open spec fn find_entry(es: Seq<CacheEntry>, k: Seq<char>) -> Option<CacheEntry>
    decreases es.len(),
{
    if es.len() == 0 {
        None
    } else if es[0].key@ == k {
        Some(es[0])
    } else {
        find_entry(es.skip(1), k)
    }
}

/// What a store holds: under each key, its text and its expiry second.
pub open spec fn contents(es: Seq<CacheEntry>) -> Map<Seq<char>, (Seq<char>, nat)> {
    Map::new(
        |k: Seq<char>| find_entry(es, k) is Some,
        |k: Seq<char>| (find_entry(es, k)->0.value@, find_entry(es, k)->0.expires_at as nat),
    )
}

/// What a lookup of `k` at second `now` observes: the text, while it is fresh.
pub open spec fn fresh_value(m: Map<Seq<char>, (Seq<char>, nat)>, k: Seq<char>, now: nat) -> Option<Seq<char>> {
    if m.contains_key(k) && now < m[k].1 {
        Some(m[k].0)
    } else {
        None
    }
}

proof fn lemma_find_push(es: Seq<CacheEntry>, e: CacheEntry, k: Seq<char>)
    requires
        find_entry(es, e.key@) is None,
    ensures
        find_entry(es.push(e), k) == if k == e.key@ { Some(e) } else { find_entry(es, k) },
    decreases es.len(),
{
    if es.len() > 0 {
        assert(es.push(e).skip(1) =~= es.skip(1).push(e));
        if es[0].key@ != e.key@ {
            lemma_find_push(es.skip(1), e, k);
        }
    } else {
        assert(es.push(e).skip(1) =~= es);
    }
}

proof fn lemma_find_update(es: Seq<CacheEntry>, i: int, e: CacheEntry, k: Seq<char>)
    requires
        0 <= i < es.len(),
        es[i].key@ == e.key@,
        forall|j: int| 0 <= j < i ==> es[j].key@ != e.key@,
    ensures
        find_entry(es.update(i, e), k) == if k == e.key@ { Some(e) } else { find_entry(es, k) },
    decreases es.len(),
{
    if i > 0 {
        assert(es.update(i, e).skip(1) =~= es.skip(1).update(i - 1, e));
        if es[0].key@ != k {
            lemma_find_update(es.skip(1), i - 1, e, k);
        }
    } else {
        assert(es.update(i, e).skip(1) =~= es.skip(1));
    }
}

/// An in-memory cache store of texts, each written with a time to live.
pub struct ResponseCache {
    entries: Vec<CacheEntry>,
}

impl View for ResponseCache {
    type V = Map<Seq<char>, (Seq<char>, nat)>;

    closed spec fn view(&self) -> Self::V {
        contents(self.entries@)
    }
}

impl ResponseCache {
    pub fn new() -> (c: ResponseCache)
        ensures
            c@ == Map::<Seq<char>, (Seq<char>, nat)>::empty(),
    {
        let c = ResponseCache { entries: Vec::new() };
        assert(c@ =~= Map::<Seq<char>, (Seq<char>, nat)>::empty());
        c
    }

    /// The position of the first entry under `key`.
    fn position(&self, key: &String) -> (r: Option<usize>)
        ensures
            r is None ==> find_entry(self.entries@, key@) is None,
            r matches Some(i) ==> i < self.entries@.len() && self.entries@[i as int].key@ == key@
                && find_entry(self.entries@, key@) == Some(self.entries@[i as int])
                && forall|j: int| 0 <= j < i ==> self.entries@[j].key@ != key@,
    {
        let mut i: usize = 0;
        assert(self.entries@.skip(0) =~= self.entries@);
        while i < self.entries.len()
            invariant
                i <= self.entries@.len(),
                find_entry(self.entries@, key@) == find_entry(self.entries@.skip(i as int), key@),
                forall|j: int| 0 <= j < i ==> self.entries@[j].key@ != key@,
            decreases self.entries@.len() - i,
        {
            let ghost rest = self.entries@.skip(i as int);
            assert(rest[0] == self.entries@[i as int]);
            if self.entries[i].key == *key {
                return Some(i);
            }
            assert(rest.skip(1) =~= self.entries@.skip(i + 1));
            i = i + 1;
        }
        None
    }

    /// The text under `key` if it was written less than its time to live
    /// before `now`; a miss otherwise.
    pub fn get(&self, key: &String, now: u64) -> (r: Option<String>)
        ensures
            r is None <==> fresh_value(self@, key@, now as nat) is None,
            r matches Some(t) ==> fresh_value(self@, key@, now as nat) == Some(t@),
    {
        match self.position(key) {
            None => None,
            Some(i) => {
                if now < self.entries[i].expires_at {
                    Some(self.entries[i].value.clone())
                } else {
                    None
                }
            },
        }
    }

    /// Writes `value` under `key`, fresh for `ttl` seconds from `now`. The
    /// write fails, leaving the store as it was, when the expiry second does
    /// not fit in a `u64`.
    pub fn set_with_ttl(&mut self, key: &String, value: String, ttl: u64, now: u64) -> (ok: bool)
        ensures
            ok == (now + ttl <= u64::MAX),
            ok ==> final(self)@ == old(self)@.insert(key@, (value@, (now + ttl) as nat)),
            !ok ==> final(self)@ == old(self)@,
    {
        if ttl > u64::MAX - now {
            return false;
        }
        let e = CacheEntry { key: key.clone(), value, expires_at: now + ttl };
        match self.position(key) {
            None => {
                let ghost es = self.entries@;
                self.entries.push(e);
                assert forall|k: Seq<char>| #[trigger] find_entry(self.entries@, k)
                    == (if k == e.key@ { Some(e) } else { find_entry(es, k) }) by {
                    lemma_find_push(es, e, k);
                }
            },
            Some(i) => {
                let ghost es = self.entries@;
                self.entries.set(i, e);
                assert forall|k: Seq<char>| #[trigger] find_entry(self.entries@, k)
                    == (if k == e.key@ { Some(e) } else { find_entry(es, k) }) by {
                    lemma_find_update(es, i as int, e, k);
                }
            },
        }
        assert(self@ =~= old(self)@.insert(key@, (value@, (now + ttl) as nat)));
        true
    }

    /// Ends a miss: hands back what the content source gave, unchanged, and
    /// writes its encoding under `key` when the fetch gave a non-empty set.
    /// A failed write, or a set that could not be encoded, is not the
    /// caller's concern.
    pub fn complete_fetch(
        &mut self,
        key: &String,
        now: u64,
        ttl: u64,
        fetched: Result<Vec<ResponseSimulator>, ServiceError>,
        encoded: Option<String>,
    ) -> (r: Result<Vec<ResponseSimulator>, ServiceError>)
        ensures
            r == fetched,
            (fetched matches Ok(v) && v@.len() > 0 && encoded is Some && now + ttl <= u64::MAX)
                ==> final(self)@ == old(self)@.insert(key@, (encoded->0@, (now + ttl) as nat)),
            !(fetched matches Ok(v) && v@.len() > 0 && encoded is Some && now + ttl <= u64::MAX)
                ==> final(self)@ == old(self)@,
    {
        let store = match &fetched {
            Ok(v) => v.len() > 0,
            Err(_) => false,
        };
        if store {
            if let Some(text) = encoded {
                let _written = self.set_with_ttl(key, text, ttl, now);
            }
        }
        fetched
    }
}

/// The key a logical name is cached under: the configured prefix, then the name.
pub fn cache_key(prefix: &str, name: &str) -> (r: String)
    ensures
        r@ == prefix@ + name@,
{
    let mut r = prefix.to_owned();
    append_str(&mut r, name);
    r
}

/// A text written at second `t` with time to live `ttl` is a hit at every
/// second before `t + ttl` and never one from `t + ttl` on.
pub proof fn freshness_window(
    m: Map<Seq<char>, (Seq<char>, nat)>,
    k: Seq<char>,
    text: Seq<char>,
    t: nat,
    ttl: nat,
    now: nat,
)
    ensures
        now < t + ttl ==> fresh_value(m.insert(k, (text, t + ttl)), k, now) == Some(text),
        now >= t + ttl ==> fresh_value(m.insert(k, (text, t + ttl)), k, now) is None,
{
}

/// A lookup within the time to live changes nothing, so a second lookup of
/// the same key at a later second still inside the window observes the same
/// text and the fetch path is never taken.
pub proof fn repeated_hit(m: Map<Seq<char>, (Seq<char>, nat)>, k: Seq<char>, now1: nat, now2: nat)
    requires
        fresh_value(m, k, now1) is Some,
        now1 <= now2,
        now2 < m[k].1,
    ensures
        fresh_value(m, k, now2) == fresh_value(m, k, now1),
{
}

} // verus!
