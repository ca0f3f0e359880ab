//! Content-addressed cache of render results: keys derived from everything
//! that shapes the output, entries tagged with a schema version and trusted
//! only while their file is still there.

use std::path::PathBuf;
use std::time::{Duration, SystemTime, SystemTimeError, UNIX_EPOCH};
use vstd::prelude::*;
use vstd::string::*;
use vstd::bytes::{
    lemma_auto_spec_u64_to_from_le_bytes, spec_u64_from_le_bytes, spec_u64_to_le_bytes,
    u64_to_le_bytes,
};
use vstd::utf8::{
    decode_utf8, encode_utf8, encode_utf8_decode_utf8, is_ascii_chars, is_ascii_chars_encode_utf8,
};
use crate::text::str_eq;
use crate::types::{clone_diagnostics, diagnostic_views, Diagnostic, DiagnosticView};

verus! {

/// Schema version of cache entries; entries of another version are stale.
pub const CACHE_VERSION: u32 = 2;

/// `std::path::PathBuf`, carried through as an opaque value.
#[verifier::external_type_specification]
#[verifier::external_body]
pub struct ExPathBuf(PathBuf);

/// Cloning a `PathBuf` gives an equal path.
pub assume_specification[ <PathBuf as Clone>::clone ](path: &PathBuf) -> (r: PathBuf)
    ensures
        r == *path,
;

/// A rendered output with the metadata of its making.
#[derive(Debug)]
pub struct CacheEntry {
    pub version: u32,
    pub output_path: PathBuf,
    pub timestamp: u64,
    pub kind: String,
    pub diagnostics: Vec<Diagnostic>,
}

/// What a cache entry holds, with its texts as sequences of characters.
pub ghost struct CacheEntryView {
    pub version: u32,
    pub output_path: PathBuf,
    pub timestamp: u64,
    pub kind: Seq<char>,
    pub diagnostics: Seq<DiagnosticView>,
}

impl View for CacheEntry {
    type V = CacheEntryView;

    open spec fn view(&self) -> CacheEntryView {
        CacheEntryView {
            version: self.version,
            output_path: self.output_path,
            timestamp: self.timestamp,
            kind: self.kind@,
            diagnostics: diagnostic_views(self.diagnostics@),
        }
    }
}

impl Clone for CacheEntry {
    fn clone(&self) -> (r: Self)
        ensures
            r@ == self@,
    {
        CacheEntry {
            version: self.version,
            output_path: self.output_path.clone(),
            timestamp: self.timestamp,
            kind: self.kind.clone(),
            diagnostics: clone_diagnostics(&self.diagnostics),
        }
    }
}

/// A key with the entry filed under it.
pub struct CacheSlot {
    pub key: String,
    pub entry: CacheEntry,
}

/// The key of slot `i`.
pub open spec fn key_at(slots: Seq<CacheSlot>, i: int) -> Seq<char> {
    slots[i].key@
}

/// No key is filed twice.
pub open spec fn distinct_keys(slots: Seq<CacheSlot>) -> bool {
    forall|i: int, j: int|
        0 <= i < slots.len() && 0 <= j < slots.len() && #[trigger] key_at(slots, i)
            == #[trigger] key_at(slots, j) ==> i == j
}

/// Some slot files `key`.
pub open spec fn has_key(slots: Seq<CacheSlot>, key: Seq<char>) -> bool {
    exists|i: int| 0 <= i < slots.len() && #[trigger] key_at(slots, i) == key
}

/// The slots as a map from keys to entries.
pub open spec fn slots_map(slots: Seq<CacheSlot>) -> Map<Seq<char>, CacheEntryView> {
    Map::new(
        |key: Seq<char>| has_key(slots, key),
        |key: Seq<char>|
            slots[choose|i: int| 0 <= i < slots.len() && #[trigger] key_at(slots, i) == key].entry@,
    )
}

/// Under distinct keys, the map holds under each slot's key that slot's
/// entry.
pub proof fn lemma_slot_in_map(slots: Seq<CacheSlot>, i: int)
    requires
        distinct_keys(slots),
        0 <= i < slots.len(),
    ensures
        slots_map(slots).contains_key(key_at(slots, i)),
        slots_map(slots)[key_at(slots, i)] == slots[i].entry@,
{
    let key = key_at(slots, i);
    let c = choose|c: int| 0 <= c < slots.len() && #[trigger] key_at(slots, c) == key;
    assert(key_at(slots, c) == key_at(slots, i));
}

/// Under distinct keys, the map holds as many entries as there are slots.
pub proof fn lemma_slots_count(slots: Seq<CacheSlot>)
    requires
        distinct_keys(slots),
    ensures
        slots_map(slots).dom().finite(),
        slots_map(slots).dom().len() == slots.len(),
    decreases slots.len(),
{
    if slots.len() == 0 {
        assert(slots_map(slots).dom() =~= Set::<Seq<char>>::empty());
    } else {
        let front = slots.drop_last();
        let last = slots.len() - 1;
        assert forall|i: int, j: int|
            0 <= i < front.len() && 0 <= j < front.len() && #[trigger] key_at(front, i)
                == #[trigger] key_at(front, j) implies i == j by {
            assert(key_at(slots, i) == key_at(front, i));
            assert(key_at(slots, j) == key_at(front, j));
        }
        lemma_slots_count(front);
        let key = key_at(slots, last);
        assert forall|k: Seq<char>|
            slots_map(slots).dom().contains(k) <==> #[trigger] slots_map(front).dom().insert(
                key,
            ).contains(k) by {
            if has_key(slots, k) {
                let i = choose|i: int| 0 <= i < slots.len() && #[trigger] key_at(slots, i) == k;
                if i < last {
                    assert(key_at(front, i) == k);
                }
            }
            if has_key(front, k) {
                let i = choose|i: int| 0 <= i < front.len() && #[trigger] key_at(front, i) == k;
                assert(key_at(slots, i) == k);
            }
        }
        assert(slots_map(slots).dom() =~= slots_map(front).dom().insert(key));
        if has_key(front, key) {
            let i = choose|i: int| 0 <= i < front.len() && #[trigger] key_at(front, i) == key;
            assert(key_at(slots, i) == key_at(slots, last));
        }
        assert(!slots_map(front).dom().contains(key));
    }
}

/// Whether the age at time `now` of an entry written at `timestamp` does
/// not exceed `max_age`, all in seconds. An entry from the future has age
/// zero.
pub open spec fn is_young(timestamp: u64, now: u64, max_age: u64) -> bool {
    (if now >= timestamp {
        now - timestamp
    } else {
        0
    }) <= max_age
}

/// The entries of `entries` whose age at time `now` does not exceed
/// `max_age`.
pub open spec fn young_entries(
    entries: Map<Seq<char>, CacheEntryView>,
    now: u64,
    max_age: u64,
) -> Map<Seq<char>, CacheEntryView> {
    Map::new(
        |key: Seq<char>| entries.contains_key(key) && is_young(entries[key].timestamp, now, max_age),
        |key: Seq<char>| entries[key],
    )
}

/// Whether an entry may be served: it has the current schema version and
/// its output is still there.
pub open spec fn servable(entry: CacheEntryView, output_exists: bool) -> bool {
    entry.version == CACHE_VERSION && output_exists
}

/// The entry that `set` files at time `timestamp`.
pub open spec fn entry_set(
    output_path: PathBuf,
    kind: Seq<char>,
    diagnostics: Seq<DiagnosticView>,
    timestamp: u64,
) -> CacheEntryView {
    CacheEntryView { version: CACHE_VERSION, output_path, timestamp, kind, diagnostics }
}

/// What a lookup of `key` serves from `entries`, given whether the output
/// of the entry filed there still exists: that entry if it may be served,
/// else nothing.
pub open spec fn served(
    entries: Map<Seq<char>, CacheEntryView>,
    key: Seq<char>,
    output_exists: bool,
) -> Option<CacheEntryView> {
    if entries.contains_key(key) && servable(entries[key], output_exists) {
        Some(entries[key])
    } else {
        None
    }
}

/// `after` is `before` with a render result filed under `key` at time
/// `timestamp`.
pub open spec fn filed(
    before: Map<Seq<char>, CacheEntryView>,
    after: Map<Seq<char>, CacheEntryView>,
    key: Seq<char>,
    output_path: PathBuf,
    kind: Seq<char>,
    diagnostics: Seq<DiagnosticView>,
    timestamp: u64,
) -> bool {
    after == before.insert(key, entry_set(output_path, kind, diagnostics, timestamp))
}

/// A render result that was filed is served under its key exactly while
/// its output exists, with the kind and the diagnostics it was filed with;
/// what is filed under other keys is served as before.
pub proof fn lemma_set_then_get(
    before: Map<Seq<char>, CacheEntryView>,
    after: Map<Seq<char>, CacheEntryView>,
    key: Seq<char>,
    output_path: PathBuf,
    kind: Seq<char>,
    diagnostics: Seq<DiagnosticView>,
    timestamp: u64,
    output_exists: bool,
    other: Seq<char>,
)
    requires
        filed(before, after, key, output_path, kind, diagnostics, timestamp),
    ensures
        output_exists ==> (served(after, key, output_exists) matches Some(entry) && entry.kind
            == kind && entry.diagnostics == diagnostics && entry.output_path == output_path),
        !output_exists ==> served(after, key, output_exists) is None,
        other != key ==> served(after, other, output_exists) == served(
            before,
            other,
            output_exists,
        ),
{
}

/// The SHA-256 digest of `data`, written as 64 lower-case hexadecimal
/// digits.
pub uninterp spec fn sha256_hex(data: Seq<u8>) -> Seq<char>;

/// `sha2::Sha256::digest` on the bytes, formatted in lower-case hexadecimal.
#[verifier::external_body]
fn sha256_hex_digest(data: &Vec<u8>) -> (r: String)
    ensures
        r@ == sha256_hex(data@),
{
    format!("{:x}", <sha2::Sha256 as sha2::Digest>::digest(data))
}

/// `Path::exists` asks the file system whether the path leads to anything.
/// Nothing is claimed of the answer.
#[verifier::external_body]
fn path_exists(path: &PathBuf) -> bool {
    path.exists()
}

/// `std::time::SystemTime`, carried through as an opaque value.
#[verifier::external_type_specification]
#[verifier::external_body]
pub struct ExSystemTime(SystemTime);

/// `std::time::SystemTimeError`, carried through as an opaque value.
#[verifier::external_type_specification]
#[verifier::external_body]
pub struct ExSystemTimeError(SystemTimeError);

/// `SystemTime::now` reads the system clock. Nothing is claimed of the
/// moment it gives.
pub assume_specification[ SystemTime::now ]() -> SystemTime;

/// `SystemTime::duration_since` gives the time that passed between two
/// moments, or an error where the second is the later one. Nothing is
/// claimed of which it is.
pub assume_specification[ SystemTime::duration_since ](
    moment: &SystemTime,
    earlier: SystemTime,
) -> Result<Duration, SystemTimeError>;

/// `Duration::as_secs` gives the whole seconds of a span of time. Nothing
/// is claimed of the number.
pub assume_specification[ Duration::as_secs ](span: &Duration) -> u64;

/// `std::time::UNIX_EPOCH`, the moment from which file systems and
/// clocks count.
#[verifier::external_body]
fn unix_epoch() -> SystemTime {
    UNIX_EPOCH
}

/// The system clock in whole seconds since the Unix epoch; zero for a clock
/// set before it.
pub(crate) fn unix_time_secs() -> u64 {
    match SystemTime::now().duration_since(unix_epoch()) {
        Ok(span) => span.as_secs(),
        Err(_) => 0,
    }
}

/// The word for the kind of output in the key material.
pub open spec fn kind_word(render_mesh: bool) -> Seq<char> {
    if render_mesh {
        "mesh"@
    } else {
        "image"@
    }
}

/// A text as a field of the key material: the number of its bytes in eight
/// bytes, lowest first, and then the bytes.
pub open spec fn field(text: Seq<char>) -> Seq<u8> {
    spec_u64_to_le_bytes(encode_utf8(text).len() as u64) + encode_utf8(text)
}

/// The bytes that a cache key is hashed from: the source, the backend's
/// name, the view's name and the word for the kind of output, each as a
/// field, so that no byte can pass from one of them to the next.
pub open spec fn key_material(
    source: Seq<char>,
    backend: Seq<char>,
    view: Seq<char>,
    render_mesh: bool,
) -> Seq<u8> {
    field(source) + field(backend) + field(view) + field(kind_word(render_mesh))
}

/// Whether the bytes of `text` can be counted in 64 bits, as those of every
/// string in memory can.
pub open spec fn fits(text: Seq<char>) -> bool {
    encode_utf8(text).len() <= u64::MAX
}

/// A field at the front of some bytes can be read back: where two fields,
/// each with bytes behind it, give the same bytes, the texts are the same
/// and so is what stands behind them.
pub proof fn lemma_field_read_back(a: Seq<char>, behind_a: Seq<u8>, b: Seq<char>, behind_b: Seq<u8>)
    requires
        fits(a),
        fits(b),
        field(a) + behind_a == field(b) + behind_b,
    ensures
        a == b,
        behind_a == behind_b,
{
    broadcast use encode_utf8_decode_utf8;

    lemma_auto_spec_u64_to_from_le_bytes();
    let whole = field(a) + behind_a;
    let count_a = spec_u64_to_le_bytes(encode_utf8(a).len() as u64);
    let count_b = spec_u64_to_le_bytes(encode_utf8(b).len() as u64);
    assert(whole.subrange(0, 8) =~= count_a);
    assert((field(b) + behind_b).subrange(0, 8) =~= count_b);
    assert(spec_u64_from_le_bytes(count_a) == spec_u64_from_le_bytes(count_b));
    let n = encode_utf8(a).len() as int;
    assert(encode_utf8(b).len() == n);
    assert(whole.subrange(8, 8 + n) =~= encode_utf8(a));
    assert((field(b) + behind_b).subrange(8, 8 + n) =~= encode_utf8(b));
    assert(decode_utf8(encode_utf8(a)) == a);
    assert(decode_utf8(encode_utf8(b)) == b);
    assert(whole.skip(8 + n) =~= behind_a);
    assert((field(b) + behind_b).skip(8 + n) =~= behind_b);
}

/// Every input shapes the key material: two renders with the same key
/// material have the same source, backend, view and kind of output.
pub proof fn lemma_key_material_tells_inputs_apart(
    source1: Seq<char>,
    backend1: Seq<char>,
    view1: Seq<char>,
    mesh1: bool,
    source2: Seq<char>,
    backend2: Seq<char>,
    view2: Seq<char>,
    mesh2: bool,
)
    requires
        fits(source1) && fits(backend1) && fits(view1),
        fits(source2) && fits(backend2) && fits(view2),
        key_material(source1, backend1, view1, mesh1) == key_material(
            source2,
            backend2,
            view2,
            mesh2,
        ),
    ensures
        source1 == source2,
        backend1 == backend2,
        view1 == view2,
        mesh1 == mesh2,
{
    broadcast use is_ascii_chars_encode_utf8;

    reveal_strlit("mesh");
    reveal_strlit("image");
    let k1 = field(kind_word(mesh1));
    let k2 = field(kind_word(mesh2));
    assert(key_material(source1, backend1, view1, mesh1) =~= field(source1) + (field(backend1) + (
    field(view1) + k1)));
    assert(key_material(source2, backend2, view2, mesh2) =~= field(source2) + (field(backend2) + (
    field(view2) + k2)));
    lemma_field_read_back(
        source1,
        field(backend1) + (field(view1) + k1),
        source2,
        field(backend2) + (field(view2) + k2),
    );
    lemma_field_read_back(backend1, field(view1) + k1, backend2, field(view2) + k2);
    lemma_field_read_back(view1, k1, view2, k2);
    lemma_kind_word_fits(mesh1);
    lemma_kind_word_fits(mesh2);
    assert(k1 =~= k1 + Seq::<u8>::empty());
    assert(k2 =~= k2 + Seq::<u8>::empty());
    lemma_field_read_back(kind_word(mesh1), Seq::empty(), kind_word(mesh2), Seq::empty());
    assert(kind_word(mesh1).len() != kind_word(!mesh1).len());
}

/// The word for the kind of output has few bytes.
proof fn lemma_kind_word_fits(render_mesh: bool)
    ensures
        fits(kind_word(render_mesh)),
{
    broadcast use is_ascii_chars_encode_utf8;

    reveal_strlit("mesh");
    reveal_strlit("image");
    assert(is_ascii_chars(kind_word(render_mesh)));
    assert(encode_utf8(kind_word(render_mesh)).len() == kind_word(render_mesh).len());
}

/// Appends `text` as a field to `data`.
fn push_field(data: &mut Vec<u8>, text: &str)
    ensures
        final(data)@ == old(data)@ + field(text@),
        fits(text@),
{
    let bytes = text.as_bytes();
    let count = u64_to_le_bytes(bytes.len() as u64);
    data.extend_from_slice(count.as_slice());
    data.extend_from_slice(bytes);
    assert(data@ =~= old(data)@ + field(text@));
}

/// In-memory cache of render results. The entries are kept in a list in
/// which no key stands twice.
pub struct RenderCache {
    entries: Vec<CacheSlot>,
}

impl View for RenderCache {
    type V = Map<Seq<char>, CacheEntryView>;

    closed spec fn view(&self) -> Map<Seq<char>, CacheEntryView> {
        slots_map(self.entries@)
    }
}

impl Default for RenderCache {
    fn default() -> (r: Self)
        ensures
            r.wf(),
            r@ == Map::<Seq<char>, CacheEntryView>::empty(),
    {
        RenderCache::new()
    }
}

impl RenderCache {
    /// The invariant of a cache: no key is filed twice.
    pub closed spec fn wf(&self) -> bool {
        distinct_keys(self.entries@)
    }

    pub fn new() -> (r: Self)
        ensures
            r.wf(),
            r@ == Map::<Seq<char>, CacheEntryView>::empty(),
    {
        let r = RenderCache { entries: Vec::new() };
        assert(r@ =~= Map::<Seq<char>, CacheEntryView>::empty());
        r
    }

    /// The cache key of a render: the digest of everything that shapes its
    /// output.
    pub fn generate_key(source: &str, backend: &str, view: &str, render_mesh: bool) -> (r: String)
        ensures
            r@ == sha256_hex(key_material(source@, backend@, view@, render_mesh)),
            fits(source@) && fits(backend@) && fits(view@),
    {
        let mut data: Vec<u8> = Vec::new();
        push_field(&mut data, source);
        push_field(&mut data, backend);
        push_field(&mut data, view);
        let word = if render_mesh { "mesh" } else { "image" };
        push_field(&mut data, word);
        assert(data@ =~= key_material(source@, backend@, view@, render_mesh));
        sha256_hex_digest(&data)
    }

    /// Position of the slot that files `key`.
    fn position(&self, key: &str) -> (r: Option<usize>)
        ensures
            match r {
                Some(i) => i < self.entries@.len() && key_at(self.entries@, i as int) == key@,
                None => !has_key(self.entries@, key@),
            },
    {
        let mut i: usize = 0;
        while i < self.entries.len()
            invariant
                i <= self.entries.len(),
                forall|j: int| 0 <= j < i ==> #[trigger] key_at(self.entries@, j) != key@,
            decreases self.entries.len() - i,
        {
            if str_eq(self.entries[i].key.as_str(), key) {
                return Some(i);
            }
            i += 1;
        }
        None
    }

    /// The entry filed under `key`, whatever its version and whether or not
    /// its output still exists.
    pub fn lookup(&self, key: &str) -> (r: Option<&CacheEntry>)
        requires
            self.wf(),
        ensures
            match r {
                Some(entry) => self@.contains_key(key@) && self@[key@] == entry@,
                None => !self@.contains_key(key@),
            },
    {
        match self.position(key) {
            Some(i) => {
                proof {
                    lemma_slot_in_map(self.entries@, i as int);
                }
                Some(&self.entries[i].entry)
            },
            None => None,
        }
    }

    /// A copy of `entry` if it may be served, given whether its output
    /// still exists.
    pub fn validated(entry: &CacheEntry, output_exists: bool) -> (r: Option<CacheEntry>)
        ensures
            match r {
                Some(e) => servable(entry@, output_exists) && e@ == entry@,
                None => !servable(entry@, output_exists),
            },
    {
        if entry.version == CACHE_VERSION && output_exists {
            Some(entry.clone())
        } else {
            None
        }
    }

    /// The entry filed under `key`, if it has the current version and its
    /// output is still on disk.
    pub fn get(&self, key: &str) -> (r: Option<CacheEntry>)
        requires
            self.wf(),
        ensures
            exists|output_exists: bool|
                match r {
                    Some(entry) => #[trigger] served(self@, key@, output_exists) == Some(entry@),
                    None => served(self@, key@, output_exists) is None,
                },
            !self@.contains_key(key@) ==> r is None,
            self@.contains_key(key@) && self@[key@].version != CACHE_VERSION ==> r is None,
    {
        let entry = match self.lookup(key) {
            Some(entry) => entry,
            None => {
                assert(served(self@, key@, false) is None);
                return None;
            },
        };
        if entry.version != CACHE_VERSION {
            assert(served(self@, key@, false) is None);
            return None;
        }
        let output_exists = path_exists(&entry.output_path);
        let r = RenderCache::validated(entry, output_exists);
        proof {
            if r is Some {
                assert(served(self@, key@, output_exists) == Some(r->0@));
            } else {
                assert(served(self@, key@, output_exists) is None);
            }
        }
        r
    }

    /// Files `entry` under `key`, in place of what was filed there.
    pub fn insert(&mut self, key: String, entry: CacheEntry)
        requires
            old(self).wf(),
        ensures
            final(self).wf(),
            final(self)@ == old(self)@.insert(key@, entry@),
    {
        let ghost before = self.entries@;
        let ghost k = key@;
        let ghost e = entry@;
        match self.position(key.as_str()) {
            Some(i) => {
                self.entries.set(i, CacheSlot { key, entry });
                proof {
                    let after = self.entries@;
                    assert forall|a: int, b: int|
                        0 <= a < after.len() && 0 <= b < after.len() && #[trigger] key_at(after, a)
                            == #[trigger] key_at(after, b) implies a == b by {
                        assert(key_at(after, a) == key_at(before, a));
                        assert(key_at(after, b) == key_at(before, b));
                    }
                    assert forall|key: Seq<char>|
                        slots_map(after).contains_key(key) <==> #[trigger] slots_map(before).insert(
                            k,
                            e,
                        ).contains_key(key) by {
                        if has_key(after, key) {
                            let j = choose|j: int|
                                0 <= j < after.len() && #[trigger] key_at(after, j) == key;
                            assert(key_at(before, j) == key);
                        }
                        if has_key(before, key) {
                            let j = choose|j: int|
                                0 <= j < before.len() && #[trigger] key_at(before, j) == key;
                            assert(key_at(after, j) == key);
                        }
                        if key == k {
                            assert(key_at(after, i as int) == key);
                        }
                    }
                    assert forall|key: Seq<char>| #[trigger]
                        slots_map(after).contains_key(key) implies slots_map(after)[key]
                        == slots_map(before).insert(k, e)[key] by {
                        let j = choose|j: int|
                            0 <= j < after.len() && #[trigger] key_at(after, j) == key;
                        lemma_slot_in_map(after, j);
                        if j != i {
                            assert(key_at(before, j) == key);
                            lemma_slot_in_map(before, j);
                        }
                    }
                    assert(slots_map(after) =~= slots_map(before).insert(k, e));
                }
            },
            None => {
                self.entries.push(CacheSlot { key, entry });
                proof {
                    let after = self.entries@;
                    let n = before.len() as int;
                    assert forall|a: int, b: int|
                        0 <= a < after.len() && 0 <= b < after.len() && #[trigger] key_at(after, a)
                            == #[trigger] key_at(after, b) implies a == b by {
                        if a < n {
                            assert(key_at(after, a) == key_at(before, a));
                        }
                        if b < n {
                            assert(key_at(after, b) == key_at(before, b));
                        }
                    }
                    assert forall|key: Seq<char>|
                        slots_map(after).contains_key(key) <==> #[trigger] slots_map(before).insert(
                            k,
                            e,
                        ).contains_key(key) by {
                        if has_key(after, key) {
                            let j = choose|j: int|
                                0 <= j < after.len() && #[trigger] key_at(after, j) == key;
                            if j < n {
                                assert(key_at(before, j) == key);
                            }
                        }
                        if has_key(before, key) {
                            let j = choose|j: int|
                                0 <= j < before.len() && #[trigger] key_at(before, j) == key;
                            assert(key_at(after, j) == key);
                        }
                        if key == k {
                            assert(key_at(after, n) == key);
                        }
                    }
                    assert forall|key: Seq<char>| #[trigger]
                        slots_map(after).contains_key(key) implies slots_map(after)[key]
                        == slots_map(before).insert(k, e)[key] by {
                        let j = choose|j: int|
                            0 <= j < after.len() && #[trigger] key_at(after, j) == key;
                        lemma_slot_in_map(after, j);
                        if j < n {
                            assert(key_at(before, j) == key);
                            lemma_slot_in_map(before, j);
                        }
                    }
                    assert(slots_map(after) =~= slots_map(before).insert(k, e));
                }
            },
        }
    }

    /// Files a render result under `key` with the current schema version
    /// and the current time, in place of what was filed there.
    pub fn set(&mut self, key: String, output_path: PathBuf, kind: String, diagnostics: Vec<Diagnostic>)
        requires
            old(self).wf(),
        ensures
            final(self).wf(),
            exists|timestamp: u64| #[trigger]
                filed(
                    old(self)@,
                    final(self)@,
                    key@,
                    output_path,
                    kind@,
                    diagnostic_views(diagnostics@),
                    timestamp,
                ),
    {
        let timestamp = unix_time_secs();
        let ghost views = diagnostic_views(diagnostics@);
        self.insert(
            key,
            CacheEntry { version: CACHE_VERSION, output_path, timestamp, kind, diagnostics },
        );
        assert(filed(old(self)@, self@, key@, output_path, kind@, views, timestamp));
    }

    /// Removes the entries whose age at time `now` exceeds `max_age_secs`,
    /// both in seconds, whether or not they could still be served.
    pub fn evict_at(&mut self, now: u64, max_age_secs: u64)
        requires
            old(self).wf(),
        ensures
            final(self).wf(),
            final(self)@ == young_entries(old(self)@, now, max_age_secs),
    {
        let ghost before = self.entries@;
        let mut kept: Vec<CacheSlot> = Vec::new();
        while self.entries.len() > 0
            invariant
                distinct_keys(before),
                self.entries@ == before.take(self.entries@.len() as int),
                self.entries@.len() <= before.len(),
                distinct_keys(kept@),
                forall|j: int|
                    0 <= j < kept@.len() ==> exists|i: int|
                        self.entries@.len() <= i < before.len() && before[i] == #[trigger] kept@[j],
                forall|i: int|
                    self.entries@.len() <= i < before.len() && is_young(
                        before[i].entry.timestamp,
                        now,
                        max_age_secs,
                    ) ==> exists|j: int| 0 <= j < kept@.len() && before[i] == #[trigger] kept@[j],
                forall|j: int|
                    0 <= j < kept@.len() ==> is_young(
                        (#[trigger] kept@[j]).entry.timestamp,
                        now,
                        max_age_secs,
                    ),
            decreases self.entries@.len(),
        {
            let ghost n = self.entries@.len() as int;
            let ghost kept_before = kept@;
            let slot = self.entries.pop().unwrap();
            assert(slot == before[n - 1]);
            assert(self.entries@ =~= before.take(n - 1));
            let age = if now >= slot.entry.timestamp { now - slot.entry.timestamp } else { 0 };
            if age <= max_age_secs {
                kept.push(slot);
                proof {
                    assert forall|a: int, b: int|
                        0 <= a < kept@.len() && 0 <= b < kept@.len() && #[trigger] key_at(kept@, a)
                            == #[trigger] key_at(kept@, b) implies a == b by {
                        let ia = if a < kept_before.len() {
                            choose|i: int| n <= i < before.len() && before[i] == kept_before[a]
                        } else {
                            n - 1
                        };
                        let ib = if b < kept_before.len() {
                            choose|i: int| n <= i < before.len() && before[i] == kept_before[b]
                        } else {
                            n - 1
                        };
                        assert(before[ia] == kept@[a]);
                        assert(before[ib] == kept@[b]);
                        assert(key_at(before, ia) == key_at(before, ib));
                        if a < kept_before.len() && b < kept_before.len() {
                            assert(key_at(kept_before, a) == key_at(kept_before, b));
                        }
                    }
                    assert forall|j: int| 0 <= j < kept@.len() implies exists|i: int|
                        n - 1 <= i < before.len() && before[i] == #[trigger] kept@[j] by {
                        if j < kept_before.len() {
                            let i = choose|i: int|
                                n <= i < before.len() && before[i] == kept_before[j];
                            assert(before[i] == kept@[j]);
                        } else {
                            assert(before[n - 1] == kept@[j]);
                        }
                    }
                    assert forall|i: int|
                        n - 1 <= i < before.len() && is_young(
                            before[i].entry.timestamp,
                            now,
                            max_age_secs,
                        ) implies exists|j: int|
                        0 <= j < kept@.len() && before[i] == #[trigger] kept@[j] by {
                        if i == n - 1 {
                            assert(before[i] == kept@[kept_before.len() as int]);
                        } else {
                            let j = choose|j: int|
                                0 <= j < kept_before.len() && before[i] == kept_before[j];
                            assert(before[i] == kept@[j]);
                        }
                    }
                }
            }
        }
        self.entries = kept;
        proof {
            let after = self.entries@;
            let target = young_entries(slots_map(before), now, max_age_secs);
            assert forall|key: Seq<char>| slots_map(after).contains_key(key) <==> #[trigger]
                target.contains_key(key) by {
                if has_key(after, key) {
                    let j = choose|j: int|
                        0 <= j < after.len() && #[trigger] key_at(after, j) == key;
                    let i = choose|i: int| 0 <= i < before.len() && before[i] == after[j];
                    assert(key_at(before, i) == key);
                    lemma_slot_in_map(before, i);
                }
                if target.contains_key(key) {
                    let i = choose|i: int|
                        0 <= i < before.len() && #[trigger] key_at(before, i) == key;
                    lemma_slot_in_map(before, i);
                    let j = choose|j: int| 0 <= j < after.len() && before[i] == after[j];
                    assert(key_at(after, j) == key);
                }
            }
            assert forall|key: Seq<char>| #[trigger]
                slots_map(after).contains_key(key) implies slots_map(after)[key]
                == target[key] by {
                let j = choose|j: int| 0 <= j < after.len() && #[trigger] key_at(after, j) == key;
                lemma_slot_in_map(after, j);
                let i = choose|i: int| 0 <= i < before.len() && before[i] == after[j];
                assert(key_at(before, i) == key);
                lemma_slot_in_map(before, i);
            }
            assert(slots_map(after) =~= target);
        }
    }

    /// Removes the entries whose age now exceeds `max_age_secs`. What stays
    /// was there before, unchanged.
    pub fn evict_old(&mut self, max_age_secs: u64)
        requires
            old(self).wf(),
        ensures
            final(self).wf(),
            final(self)@.submap_of(old(self)@),
            exists|now: u64| #[trigger] young_entries(old(self)@, now, max_age_secs) == final(self)@,
    {
        let now = unix_time_secs();
        self.evict_at(now, max_age_secs);
        assert(young_entries(old(self)@, now, max_age_secs) == final(self)@);
    }

    /// Number of entries, and how many of them have their output on disk.
    pub fn stats(&self) -> (r: (usize, usize))
        requires
            self.wf(),
        ensures
            self@.dom().finite(),
            r.0 == self@.dom().len(),
            r.1 <= r.0,
    {
        proof {
            lemma_slots_count(self.entries@);
        }
        let total = self.entries.len();
        let mut valid: usize = 0;
        let mut i: usize = 0;
        while i < self.entries.len()
            invariant
                i <= self.entries.len(),
                valid <= i,
            decreases self.entries.len() - i,
        {
            if path_exists(&self.entries[i].entry.output_path) {
                valid += 1;
            }
            i += 1;
        }
        (total, valid)
    }
}

} // verus!
