//! Remembered placement and opacity per image, keyed by the image's content
//! hash.
use crate::pixel::OPACITY_ONE;
use vstd::prelude::*;

verus! {

/// Subcommands of the command line.
#[derive(Clone, Copy, PartialEq, Eq, Debug)]
pub enum Commands {
    /// Clear cached parameters for an image
    Clear,
}

/// The parameters remembered for one image. `opacity` is in units of
/// `1 / OPACITY_ONE`.
pub struct CachedParams {
    pub path_for_readability: String,
    pub target_x: u32,
    pub target_y: u32,
    pub opacity: u32,
}

pub struct ParamsView {
    pub label: Seq<char>,
    pub target_x: u32,
    pub target_y: u32,
    pub opacity: u32,
}

impl View for CachedParams {
    type V = ParamsView;

    open spec fn view(&self) -> ParamsView {
        ParamsView {
            label: self.path_for_readability@,
            target_x: self.target_x,
            target_y: self.target_y,
            opacity: self.opacity,
        }
    }
}

impl CachedParams {
    pub fn duplicate(&self) -> (r: CachedParams)
        ensures
            r@ == self@,
    {
        CachedParams {
            path_for_readability: self.path_for_readability.clone(),
            target_x: self.target_x,
            target_y: self.target_y,
            opacity: self.opacity,
        }
    }
}

pub type EntryView = (Seq<char>, ParamsView);

pub open spec fn entry_view(e: (String, CachedParams)) -> EntryView {
    (e.0@, e.1@)
}

/// The mapping that a list of entries describes; a later entry for a key
/// replaces an earlier one.
pub open spec fn map_of(s: Seq<EntryView>) -> Map<Seq<char>, ParamsView>
    decreases s.len(),
{
    if s.len() == 0 {
        Map::empty()
    } else {
        map_of(s.drop_last()).insert(s.last().0, s.last().1)
    }
}

pub open spec fn keys_unique(s: Seq<EntryView>) -> bool {
    forall|i: int, j: int| 0 <= i < j < s.len() ==> s[i].0 != s[j].0
}

/// The cache: from content-hash strings to remembered parameters.
pub struct Cache {
    history: Vec<(String, CachedParams)>,
}

proof fn lemma_map_of_keys(s: Seq<EntryView>, k: Seq<char>)
    ensures
        map_of(s).contains_key(k) <==> exists|i: int| 0 <= i < s.len() && s[i].0 == k,
    decreases s.len(),
{
    if s.len() > 0 {
        lemma_map_of_keys(s.drop_last(), k);
        if map_of(s.drop_last()).contains_key(k) {
            let i = choose|i: int| 0 <= i < s.len() - 1 && s.drop_last()[i].0 == k;
            assert(s[i].0 == k);
        }
        if exists|i: int| 0 <= i < s.len() && s[i].0 == k {
            let i = choose|i: int| 0 <= i < s.len() && s[i].0 == k;
            if i < s.len() - 1 {
                assert(s.drop_last()[i].0 == k);
            }
        }
    }
}

proof fn lemma_map_of_unique_index(s: Seq<EntryView>, i: int)
    requires
        keys_unique(s),
        0 <= i < s.len(),
    ensures
        map_of(s).contains_key(s[i].0),
        map_of(s)[s[i].0] == s[i].1,
    decreases s.len(),
{
    if i < s.len() - 1 {
        lemma_map_of_unique_index(s.drop_last(), i);
    }
}

proof fn lemma_map_of_remove(s: Seq<EntryView>, i: int)
    requires
        keys_unique(s),
        0 <= i < s.len(),
    ensures
        map_of(s.remove(i)) =~= map_of(s).remove(s[i].0),
        keys_unique(s.remove(i)),
    decreases s.len(),
{
    let r = s.remove(i);
    if i == s.len() - 1 {
        assert(r =~= s.drop_last());
        lemma_map_of_keys(s.drop_last(), s[i].0);
        assert(!map_of(s.drop_last()).contains_key(s[i].0));
    } else {
        lemma_map_of_remove(s.drop_last(), i);
        assert(r.drop_last() =~= s.drop_last().remove(i));
        assert(r.last() == s.last());
    }
}

impl View for Cache {
    type V = Map<Seq<char>, ParamsView>;

    closed spec fn view(&self) -> Map<Seq<char>, ParamsView> {
        map_of(self.history@.map_values(|e: (String, CachedParams)| entry_view(e)))
    }
}

impl Cache {
    closed spec fn entries(&self) -> Seq<EntryView> {
        self.history@.map_values(|e: (String, CachedParams)| entry_view(e))
    }

    pub closed spec fn wf(&self) -> bool {
        keys_unique(self.entries())
    }

    /// An empty cache.
    pub fn new() -> (r: Cache)
        ensures
            r.wf(),
            r@ == Map::<Seq<char>, ParamsView>::empty(),
    {
        let r = Cache { history: Vec::new() };
        assert(r.entries() =~= Seq::<EntryView>::empty());
        r
    }

    /// Where `hash` is stored, if it is.
    fn find(&self, hash: &String) -> (r: Option<usize>)
        requires
            self.wf(),
        ensures
            r matches Some(i) ==> i < self.history@.len() && self.history@[i as int].0@ == hash@,
            r is None ==> !self@.contains_key(hash@),
    {
        let mut i: usize = 0;
        while i < self.history.len()
            invariant
                i <= self.history@.len(),
                forall|j: int| 0 <= j < i ==> self.history@[j].0@ != hash@,
            decreases self.history@.len() - i,
        {
            if self.history[i].0 == *hash {
                return Some(i);
            }
            i = i + 1;
        }
        proof {
            lemma_map_of_keys(self.entries(), hash@);
        }
        None
    }

    /// The parameters stored for `hash`, if any.
    pub fn lookup(&self, hash: &String) -> (r: Option<&CachedParams>)
        requires
            self.wf(),
        ensures
            r is Some <==> self@.contains_key(hash@),
            r matches Some(p) ==> p@ == self@[hash@],
    {
        match self.find(hash) {
            Some(i) => {
                proof {
                    lemma_map_of_unique_index(self.entries(), i as int);
                }
                Some(&self.history[i].1)
            },
            None => None,
        }
    }

    proof fn lemma_push_unique(s: Seq<EntryView>, t: Seq<EntryView>, key: Seq<char>)
        requires
            keys_unique(s),
            t.len() == s.len() + 1,
            t.drop_last() == s,
            t.last().0 == key,
            !(exists|i: int| 0 <= i < s.len() && s[i].0 == key),
        ensures
            keys_unique(t),
    {
        assert forall|a: int, b: int| 0 <= a < b < t.len() implies t[a].0 != t[b].0 by {
            assert(t[a] == s[a]);
            if b < s.len() {
                assert(t[b] == s[b]);
            }
        }
    }

    /// Stores `params` for `hash`, replacing what was there.
    pub fn upsert(&mut self, hash: String, params: CachedParams)
        requires
            old(self).wf(),
        ensures
            final(self).wf(),
            final(self)@ == old(self)@.insert(hash@, params@),
    {
        match self.find(&hash) {
            Some(i) => {
                proof {
                    lemma_map_of_remove(self.entries(), i as int);
                }
                let ghost before = self.entries();
                self.history.remove(i);
                assert(self.entries() =~= before.remove(i as int));
                proof {
                    lemma_map_of_keys(self.entries(), hash@);
                }
                let ghost mid = self.entries();
                let ghost key = hash@;
                self.history.push((hash, params));
                assert(self.entries().drop_last() =~= mid);
                proof {
                    Self::lemma_push_unique(mid, self.entries(), key);
                }
                assert(self.view() =~= old(self)@.insert(hash@, params@));
            },
            None => {
                let ghost before = self.entries();
                let ghost key = hash@;
                proof {
                    lemma_map_of_keys(before, key);
                }
                self.history.push((hash, params));
                assert(self.entries().drop_last() =~= before);
                proof {
                    Self::lemma_push_unique(before, self.entries(), key);
                }
            },
        }
    }

    /// Removes the entry for `hash`; returns whether there was one. Without
    /// an entry the mapping is left as it was.
    pub fn clear(&mut self, hash: &String) -> (found: bool)
        requires
            old(self).wf(),
        ensures
            final(self).wf(),
            found == old(self)@.contains_key(hash@),
            final(self)@ == old(self)@.remove(hash@),
            !found ==> final(self)@ == old(self)@,
    {
        match self.find(hash) {
            Some(i) => {
                proof {
                    lemma_map_of_remove(self.entries(), i as int);
                    lemma_map_of_unique_index(self.entries(), i as int);
                }
                let ghost before = self.entries();
                self.history.remove(i);
                assert(self.entries() =~= before.remove(i as int));
                true
            },
            None => {
                assert(old(self)@.remove(hash@) =~= old(self)@);
                false
            },
        }
    }

    /// A cache holding what the entries describe; a later entry for a key
    /// replaces an earlier one.
    pub fn from_entries(entries: Vec<(String, CachedParams)>) -> (r: Cache)
        ensures
            r.wf(),
            r@ == map_of(entries@.map_values(|e: (String, CachedParams)| entry_view(e))),
    {
        let ghost src = entries@.map_values(|e: (String, CachedParams)| entry_view(e));
        let mut cache = Cache::new();
        let ghost orig = entries@;
        let mut rest = entries;
        let mut k: usize = 0;
        let n = rest.len();
        while k < n
            invariant
                n == src.len(),
                n == orig.len(),
                src == orig.map_values(|e: (String, CachedParams)| entry_view(e)),
                k <= n,
                rest@ == orig.skip(k as int),
                cache.wf(),
                cache@ == map_of(src.take(k as int)),
            decreases n - k,
        {
            let (hash, params) = rest.remove(0);
            assert(src.take(k + 1).drop_last() =~= src.take(k as int));
            assert(entry_view(orig[k as int]) == src[k as int]);
            cache.upsert(hash, params);
            assert(rest@ =~= orig.skip(k + 1));
            k = k + 1;
        }
        assert(src.take(n as int) =~= src);
        cache
    }

    /// The cache's entries, one per key.
    pub fn to_entries(&self) -> (r: Vec<(String, CachedParams)>)
        requires
            self.wf(),
        ensures
            keys_unique(r@.map_values(|e: (String, CachedParams)| entry_view(e))),
            map_of(r@.map_values(|e: (String, CachedParams)| entry_view(e))) == self@,
    {
        let mut r: Vec<(String, CachedParams)> = Vec::new();
        let mut i: usize = 0;
        while i < self.history.len()
            invariant
                i <= self.history@.len(),
                r@.map_values(|e: (String, CachedParams)| entry_view(e)) =~= self.entries().take(
                    i as int,
                ),
            decreases self.history@.len() - i,
        {
            let (h, p) = (self.history[i].0.clone(), self.history[i].1.duplicate());
            r.push((h, p));
            assert(self.entries().take(i + 1) =~= self.entries().take(i as int).push(
                entry_view(self.history@[i as int]),
            ));
            i = i + 1;
        }
        assert(self.entries().take(i as int) =~= self.entries());
        r
    }
}

/// The content hash of `bytes`: BLAKE3, as 64 lowercase hex digits.
pub uninterp spec fn blake3_hex(bytes: Seq<u8>) -> Seq<char>;

pub open spec fn is_lower_hex(c: char) -> bool {
    ('0' <= c <= '9') || ('a' <= c <= 'f')
}

/// Relies on `blake3::hash` and `Hash::to_hex`: the 32-byte digest written
/// as 64 lowercase hex digits.
#[verifier::external_body]
fn blake3_hex_of(bytes: &Vec<u8>) -> (r: String)
    ensures
        r@ == blake3_hex(bytes@),
        r@.len() == 64,
        forall|i: int| 0 <= i < r@.len() ==> is_lower_hex(#[trigger] r@[i]),
{
    blake3::hash(bytes).to_hex().to_string()
}

/// The cache key of an image file with contents `bytes`.
pub fn compute_image_hash(bytes: &Vec<u8>) -> (r: String)
    ensures
        r@ == blake3_hex(bytes@),
        r@.len() == 64,
{
    blake3_hex_of(bytes)
}

/// Placement and opacity to use: each value given on the command line wins,
/// then the remembered one, then the image's centre and full opacity.
pub fn resolve_params(
    target_x: Option<u32>,
    target_y: Option<u32>,
    opacity: Option<u32>,
    cached: Option<&CachedParams>,
    image_w: u32,
    image_h: u32,
) -> (r: (u32, u32, u32))
    ensures
        r.0 == match (target_x, cached) {
            (Some(x), _) => x,
            (None, Some(c)) => c.target_x,
            (None, None) => image_w / 2,
        },
        r.1 == match (target_y, cached) {
            (Some(y), _) => y,
            (None, Some(c)) => c.target_y,
            (None, None) => image_h / 2,
        },
        r.2 == match (opacity, cached) {
            (Some(o), _) => o,
            (None, Some(c)) => c.opacity,
            (None, None) => OPACITY_ONE,
        },
{
    let x = match (target_x, cached) {
        (Some(x), _) => x,
        (None, Some(c)) => c.target_x,
        (None, None) => image_w / 2,
    };
    let y = match (target_y, cached) {
        (Some(y), _) => y,
        (None, Some(c)) => c.target_y,
        (None, None) => image_h / 2,
    };
    let o = match (opacity, cached) {
        (Some(o), _) => o,
        (None, Some(c)) => c.opacity,
        (None, None) => OPACITY_ONE,
    };
    (x, y, o)
}

} // verus!
