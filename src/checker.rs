//! The incremental checker: decides, for each input file of a session,
//! whether its derived artifacts are generated, kept or retired.
//!
//! The content store maps each file identity to the fingerprint of the
//! content seen last. A session is one or more `check` calls, one per module,
//! followed by one `close_checks`.

use vstd::prelude::*;
use crate::fingerprint::{fingerprint, sha1_hex_of};
use crate::text::same_text;

verus! {

/// The four operations on a file of the session.
#[derive(Debug, Clone, Copy, PartialEq, Eq, Structural)]
pub enum OpKind {
    Add,
    Remove,
    Update,
    Skip,
}

/// Model of one recorded operation, with the module it was checked in.
pub ghost struct OpRecord {
    pub kind: OpKind,
    pub header: Seq<char>,
    pub fingerprint: Seq<char>,
    pub module: Seq<char>,
}

/// A content store: file identities with their fingerprints, in order.
pub type CacheV = Seq<(Seq<char>, Seq<char>)>;

/// Model of a checker: its content store and the operations of the session.
pub ghost struct CheckerV {
    pub cache: CacheV,
    pub ops: Seq<OpRecord>,
}

/// What is to be done with one file, with its identity and fingerprint.
#[derive(Debug, PartialEq)]
pub enum HeaderCacheOp {
    Add(String, String),
    Remove(String, String),
    Update(String, String),
    Skip(String, String),
}

impl HeaderCacheOp {
    pub open spec fn kind(&self) -> OpKind {
        match self {
            HeaderCacheOp::Add(_, _) => OpKind::Add,
            HeaderCacheOp::Remove(_, _) => OpKind::Remove,
            HeaderCacheOp::Update(_, _) => OpKind::Update,
            HeaderCacheOp::Skip(_, _) => OpKind::Skip,
        }
    }

    pub open spec fn header_view(&self) -> Seq<char> {
        match self {
            HeaderCacheOp::Add(h, _) => h@,
            HeaderCacheOp::Remove(h, _) => h@,
            HeaderCacheOp::Update(h, _) => h@,
            HeaderCacheOp::Skip(h, _) => h@,
        }
    }

    pub open spec fn fingerprint_view(&self) -> Seq<char> {
        match self {
            HeaderCacheOp::Add(_, f) => f@,
            HeaderCacheOp::Remove(_, f) => f@,
            HeaderCacheOp::Update(_, f) => f@,
            HeaderCacheOp::Skip(_, f) => f@,
        }
    }

    /// The file identity the operation is about.
    pub fn get_header(&self) -> (r: &str)
        ensures
            r@ == self.header_view(),
    {
        match self {
            HeaderCacheOp::Add(header, _) => header.as_str(),
            HeaderCacheOp::Update(header, _) => header.as_str(),
            HeaderCacheOp::Remove(header, _) => header.as_str(),
            HeaderCacheOp::Skip(header, _) => header.as_str(),
        }
    }
}

/// A file selected by the checker, with the module it was checked in (empty
/// for a retired file).
#[derive(Debug, PartialEq)]
pub struct CheckerResult {
    pub header: String,
    pub module: String,
}

impl CheckerResult {
    pub fn new(header: &str, module: &str) -> (r: CheckerResult)
        ensures
            r.header@ == header@,
            r.module@ == module@,
    {
        CheckerResult { header: header.to_owned(), module: module.to_owned() }
    }
}

pub open spec fn keys_unique(c: CacheV) -> bool {
    forall|i: int, j: int| 0 <= i < c.len() && 0 <= j < c.len() && i != j ==> c[i].0 != c[j].0
}

/// Position of identity `h` in the store, or -1.
pub open spec fn key_index(c: CacheV, h: Seq<char>) -> int
    decreases c.len(),
{
    if c.len() == 0 {
        -1
    } else if c.last().0 == h {
        c.len() - 1
    } else {
        key_index(c.drop_last(), h)
    }
}

/// The fingerprint stored for `h`, if any.
pub open spec fn lookup(c: CacheV, h: Seq<char>) -> Option<Seq<char>> {
    if key_index(c, h) >= 0 {
        Some(c[key_index(c, h)].1)
    } else {
        None
    }
}

/// The store with `h` mapped to `fp`: in place if `h` is there, else at the end.
pub open spec fn upsert(c: CacheV, h: Seq<char>, fp: Seq<char>) -> CacheV {
    if key_index(c, h) >= 0 {
        c.update(key_index(c, h), (h, fp))
    } else {
        c.push((h, fp))
    }
}

/// Some operation of the session is about `h`.
pub open spec fn observed(ops: Seq<OpRecord>, h: Seq<char>) -> bool {
    exists|i: int| 0 <= i < ops.len() && (#[trigger] ops[i]).header == h
}

/// One file checked in `module`. A file already seen in the session gives no
/// second operation. Otherwise: `Add` when the store does not know it,
/// `Update` when its fingerprint changed, `Skip` when it did not; `Add` and
/// `Update` store the new fingerprint at once.
pub open spec fn check_one(s: CheckerV, h: Seq<char>, fp: Seq<char>, module: Seq<char>) -> CheckerV {
    if observed(s.ops, h) {
        s
    } else {
        match lookup(s.cache, h) {
            None => CheckerV {
                cache: upsert(s.cache, h, fp),
                ops: s.ops.push(OpRecord { kind: OpKind::Add, header: h, fingerprint: fp, module }),
            },
            Some(stored) => if stored != fp {
                CheckerV {
                    cache: upsert(s.cache, h, fp),
                    ops: s.ops.push(
                        OpRecord { kind: OpKind::Update, header: h, fingerprint: fp, module },
                    ),
                }
            } else {
                CheckerV {
                    cache: s.cache,
                    ops: s.ops.push(
                        OpRecord { kind: OpKind::Skip, header: h, fingerprint: fp, module },
                    ),
                }
            },
        }
    }
}

/// Files (identity, fingerprint) checked one after the other in `module`.
pub open spec fn check_files(s: CheckerV, files: CacheV, module: Seq<char>) -> CheckerV
    decreases files.len(),
{
    if files.len() == 0 {
        s
    } else {
        check_one(check_files(s, files.drop_last(), module), files.last().0, files.last().1, module)
    }
}

/// The entries of the store that the session did not observe, in order.
pub open spec fn stale_entries(c: CacheV, ops: Seq<OpRecord>) -> CacheV
    decreases c.len(),
{
    if c.len() == 0 {
        c
    } else if observed(ops, c.last().0) {
        stale_entries(c.drop_last(), ops)
    } else {
        stale_entries(c.drop_last(), ops).push(c.last())
    }
}

/// The entries of the store that the session observed, in order.
pub open spec fn kept_entries(c: CacheV, ops: Seq<OpRecord>) -> CacheV
    decreases c.len(),
{
    if c.len() == 0 {
        c
    } else if observed(ops, c.last().0) {
        kept_entries(c.drop_last(), ops).push(c.last())
    } else {
        kept_entries(c.drop_last(), ops)
    }
}

pub open spec fn removal(e: (Seq<char>, Seq<char>)) -> OpRecord {
    OpRecord { kind: OpKind::Remove, header: e.0, fingerprint: e.1, module: Seq::empty() }
}

/// A `Remove` for each entry, in order.
pub open spec fn removals(c: CacheV) -> Seq<OpRecord> {
    c.map_values(|e: (Seq<char>, Seq<char>)| removal(e))
}

/// The end of a session: every stored file that no check observed leaves the
/// store, and a `Remove` without module is recorded for it.
pub open spec fn close(s: CheckerV) -> CheckerV {
    CheckerV {
        cache: kept_entries(s.cache, s.ops),
        ops: s.ops + removals(stale_entries(s.cache, s.ops)),
    }
}

/// The three groups into which the operations of a session fall.
#[derive(Debug, Clone, Copy, PartialEq, Eq, Structural)]
pub enum Selection {
    /// `Add` and `Update`: artifacts to generate.
    Generate,
    /// `Skip`: artifacts to keep.
    Keep,
    /// `Remove`: artifacts to retire.
    Retire,
}

pub open spec fn selects(k: OpKind, sel: Selection) -> bool {
    match sel {
        Selection::Generate => k == OpKind::Add || k == OpKind::Update,
        Selection::Keep => k == OpKind::Skip,
        Selection::Retire => k == OpKind::Remove,
    }
}

/// The (file, module) pairs of the operations in group `sel`, in order.
pub open spec fn selected(ops: Seq<OpRecord>, sel: Selection) -> Seq<(Seq<char>, Seq<char>)>
    decreases ops.len(),
{
    if ops.len() == 0 {
        Seq::empty()
    } else if selects(ops.last().kind, sel) {
        selected(ops.drop_last(), sel).push((ops.last().header, ops.last().module))
    } else {
        selected(ops.drop_last(), sel)
    }
}

pub open spec fn results_view(r: Seq<CheckerResult>) -> Seq<(Seq<char>, Seq<char>)> {
    r.map_values(|x: CheckerResult| (x.header@, x.module@))
}

pub open spec fn record_of(op: HeaderCacheOp, module: String) -> OpRecord {
    OpRecord {
        kind: op.kind(),
        header: op.header_view(),
        fingerprint: op.fingerprint_view(),
        module: module@,
    }
}

pub open spec fn records_of(ops: Seq<(HeaderCacheOp, String)>) -> Seq<OpRecord> {
    ops.map_values(|o: (HeaderCacheOp, String)| record_of(o.0, o.1))
}

pub open spec fn entries_view(c: Seq<(String, String)>) -> CacheV {
    c.map_values(|e: (String, String)| (e.0@, e.1@))
}

/// Files (identity, content) as the identities with the fingerprints of the contents.
pub open spec fn hashed_view(files: Seq<(String, Vec<u8>)>) -> CacheV {
    files.map_values(|f: (String, Vec<u8>)| (f.0@, sha1_hex_of(f.1@)))
}

/// Progress of reading a store's text: the entries of the complete lines,
/// where the current line starts, where its `=` is (-1 before one).
pub ghost struct CacheScan {
    pub entries: CacheV,
    pub start: int,
    pub eq: int,
    pub malformed: bool,
}

/// The end of the line that started at `s.start`, at position `i` of `t`: a
/// line with one `=` gives an entry, an empty line gives none, any other
/// line makes the text malformed.
pub open spec fn end_line(s: CacheScan, t: Seq<char>, i: int) -> CacheScan {
    if s.eq >= 0 {
        CacheScan {
            entries: upsert(s.entries, t.subrange(s.start, s.eq), t.subrange(s.eq + 1, i)),
            start: i + 1,
            eq: -1,
            malformed: false,
        }
    } else if i == s.start {
        CacheScan { start: i + 1, ..s }
    } else {
        CacheScan { malformed: true, ..s }
    }
}

/// The scan of the first `n` characters of `t`.
pub open spec fn cache_scan(t: Seq<char>, n: int) -> CacheScan
    decreases n,
{
    if n <= 0 {
        CacheScan { entries: Seq::empty(), start: 0, eq: -1, malformed: false }
    } else {
        let s = cache_scan(t, n - 1);
        let i = n - 1;
        if s.malformed {
            s
        } else if t[i] == '\n' {
            end_line(s, t, i)
        } else if t[i] == '=' {
            if s.eq >= 0 {
                CacheScan { malformed: true, ..s }
            } else {
                CacheScan { eq: i, ..s }
            }
        } else {
            s
        }
    }
}

/// The store that a text describes: one `<identity>=<fingerprint>` entry per
/// line, a later line for the same identity replacing the earlier one; none
/// when a line is malformed.
pub open spec fn parse_cache(t: Seq<char>) -> Option<CacheV> {
    let s = cache_scan(t, t.len() as int);
    if s.malformed {
        None
    } else {
        let f = end_line(s, t, t.len() as int);
        if f.malformed {
            None
        } else {
            Some(f.entries)
        }
    }
}

pub open spec fn entry_line(e: (Seq<char>, Seq<char>)) -> Seq<char> {
    e.0 + "="@ + e.1 + "\n"@
}

/// The text of a store: one line per entry, in order.
pub open spec fn cache_text_of(c: CacheV) -> Seq<char> {
    crate::text::seq_join(c.map_values(|e: (Seq<char>, Seq<char>)| entry_line(e)), Seq::empty())
}

proof fn lemma_scan_malformed_stays(t: Seq<char>, k: int)
    requires
        0 <= k <= t.len(),
        cache_scan(t, k).malformed,
    ensures
        parse_cache(t) is None,
    decreases t.len() - k,
{
    if k < t.len() {
        lemma_scan_malformed_stays(t, k + 1);
    }
}

proof fn lemma_scan_wf(t: Seq<char>, n: int)
    requires
        0 <= n <= t.len(),
    ensures
        keys_unique(cache_scan(t, n).entries),
        0 <= cache_scan(t, n).start <= n,
        cache_scan(t, n).eq < n,
        cache_scan(t, n).eq >= 0 ==> cache_scan(t, n).start <= cache_scan(t, n).eq,
        !cache_scan(t, n).malformed ==> forall|k: int|
            cache_scan(t, n).start <= k < n && k != cache_scan(t, n).eq ==> t[k] != '\n' && t[k]
                != '=',
        !cache_scan(t, n).malformed && cache_scan(t, n).eq >= 0 ==> t[cache_scan(t, n).eq] == '=',
    decreases n,
{
    if n > 0 {
        lemma_scan_wf(t, n - 1);
        let s = cache_scan(t, n - 1);
        if s.eq >= 0 && !s.malformed && t[n - 1] == '\n' {
            lemma_upsert_unique(s.entries, t.subrange(s.start, s.eq), t.subrange(s.eq + 1, n - 1));
        }
    }
}

/// Performs the checks of a session against a content store.
pub struct HeaderChecker {
    headers_cache: Vec<(String, String)>,
    operations: Vec<(HeaderCacheOp, String)>,
}

impl View for HeaderChecker {
    type V = CheckerV;

    closed spec fn view(&self) -> CheckerV {
        CheckerV {
            cache: entries_view(self.headers_cache@),
            ops: records_of(self.operations@),
        }
    }
}

proof fn lemma_key_index(c: CacheV, h: Seq<char>)
    ensures
        -1 <= key_index(c, h) < c.len(),
        key_index(c, h) >= 0 ==> c[key_index(c, h)].0 == h,
        key_index(c, h) == -1 ==> forall|i: int| 0 <= i < c.len() ==> c[i].0 != h,
        keys_unique(c) ==> forall|i: int| 0 <= i < c.len() && c[i].0 == h ==> key_index(c, h) == i,
    decreases c.len(),
{
    if c.len() > 0 {
        let d = c.drop_last();
        lemma_key_index(d, h);
        assert forall|i: int| 0 <= i < d.len() implies d[i] == c[i] by {}
        if keys_unique(c) {
            assert(keys_unique(d));
        }
    }
}

proof fn lemma_upsert_unique(c: CacheV, h: Seq<char>, fp: Seq<char>)
    requires
        keys_unique(c),
    ensures
        keys_unique(upsert(c, h, fp)),
{
    lemma_key_index(c, h);
}

proof fn lemma_kept_entries(c: CacheV, ops: Seq<OpRecord>)
    ensures
        forall|i: int|
            0 <= i < kept_entries(c, ops).len() ==> exists|j: int|
                0 <= j < c.len() && c[j] == #[trigger] kept_entries(c, ops)[i],
        forall|i: int|
            0 <= i < kept_entries(c, ops).len() ==> observed(ops, #[trigger] kept_entries(c, ops)[i].0),
        keys_unique(c) ==> keys_unique(kept_entries(c, ops)),
    decreases c.len(),
{
    if c.len() > 0 {
        let d = c.drop_last();
        lemma_kept_entries(d, ops);
        let k = kept_entries(d, ops);
        assert forall|i: int| 0 <= i < k.len() implies exists|j: int|
            0 <= j < c.len() && c[j] == #[trigger] k[i] by {
            let j = choose|j: int| 0 <= j < d.len() && d[j] == k[i];
            assert(c[j] == k[i]);
        }
        if keys_unique(c) {
            assert(keys_unique(d));
            if observed(ops, c.last().0) {
                let r = k.push(c.last());
                assert forall|a: int, b: int| 0 <= a < r.len() && 0 <= b < r.len() && a != b
                    implies r[a].0 != r[b].0 by {
                    if a < k.len() && b < k.len() {
                    } else if a < k.len() {
                        let j = choose|j: int| 0 <= j < d.len() && d[j] == k[a];
                        assert(c[j] == d[j]);
                    } else if b < k.len() {
                        let j = choose|j: int| 0 <= j < d.len() && d[j] == k[b];
                        assert(c[j] == d[j]);
                    }
                }
            }
        }
    }
}

proof fn lemma_lookup_upsert(c: CacheV, h: Seq<char>, fp: Seq<char>)
    requires
        keys_unique(c),
    ensures
        lookup(upsert(c, h, fp), h) == Some(fp),
{
    lemma_key_index(c, h);
    let u = upsert(c, h, fp);
    lemma_upsert_unique(c, h, fp);
    lemma_key_index(u, h);
    if key_index(c, h) >= 0 {
        assert(u[key_index(c, h)].0 == h);
    } else {
        assert(u[c.len() as int].0 == h);
    }
}

proof fn lemma_stale_entries(c: CacheV, ops: Seq<OpRecord>)
    ensures
        forall|i: int|
            0 <= i < stale_entries(c, ops).len() ==> exists|j: int|
                0 <= j < c.len() && c[j] == #[trigger] stale_entries(c, ops)[i],
    decreases c.len(),
{
    if c.len() > 0 {
        let d = c.drop_last();
        lemma_stale_entries(d, ops);
        let st = stale_entries(d, ops);
        assert forall|i: int| 0 <= i < st.len() implies exists|j: int|
            0 <= j < c.len() && c[j] == #[trigger] st[i] by {
            let j = choose|j: int| 0 <= j < d.len() && d[j] == st[i];
            assert(c[j] == st[i]);
        }
    }
}

/// With unique keys, a stored file that the session did not observe is among
/// the stale entries exactly once.
proof fn lemma_stale_once(c: CacheV, ops: Seq<OpRecord>, k: int)
    requires
        keys_unique(c),
        0 <= k < c.len(),
        !observed(ops, c[k].0),
    ensures
        exists|i: int|
            0 <= i < stale_entries(c, ops).len() && stale_entries(c, ops)[i] == c[k] && forall|j: int|
                0 <= j < stale_entries(c, ops).len() && j != i ==> (#[trigger] stale_entries(
                    c,
                    ops,
                )[j]).0 != c[k].0,
    decreases c.len(),
{
    let d = c.drop_last();
    let st = stale_entries(d, ops);
    lemma_stale_entries(d, ops);
    assert(keys_unique(d));
    if k == c.len() - 1 {
        assert forall|j: int| 0 <= j < st.len() implies (#[trigger] st[j]).0 != c[k].0 by {
            let m = choose|m: int| 0 <= m < d.len() && d[m] == st[j];
            assert(c[m] == d[m]);
        }
        assert(stale_entries(c, ops) == st.push(c[k]));
        assert(stale_entries(c, ops)[st.len() as int] == c[k]);
    } else {
        assert(d[k] == c[k]);
        lemma_stale_once(d, ops, k);
        let i = choose|i: int|
            0 <= i < st.len() && st[i] == d[k] && forall|j: int|
                0 <= j < st.len() && j != i ==> (#[trigger] st[j]).0 != d[k].0;
        if !observed(ops, c.last().0) {
            assert(stale_entries(c, ops) == st.push(c.last()));
            assert(c.last().0 != c[k].0);
        }
        assert(stale_entries(c, ops)[i] == c[k]);
    }
}

/// Fingerprint sensitivity: a file that the store knows under another
/// fingerprint, checked for the first time in the session, gets `Update`
/// (never `Skip`), and the store then holds the new fingerprint.
pub proof fn lemma_changed_file_is_updated(
    s: CheckerV,
    h: Seq<char>,
    fp: Seq<char>,
    module: Seq<char>,
)
    requires
        keys_unique(s.cache),
        lookup(s.cache, h) is Some,
        lookup(s.cache, h)->0 != fp,
        !observed(s.ops, h),
    ensures
        check_one(s, h, fp, module).ops == s.ops.push(
            OpRecord { kind: OpKind::Update, header: h, fingerprint: fp, module },
        ),
        lookup(check_one(s, h, fp, module).cache, h) == Some(fp),
{
    lemma_lookup_upsert(s.cache, h, fp);
}

/// Removal detection: a file of the store that no check of the session
/// observed gets exactly one operation when the session is closed, a `Remove`
/// with its stored fingerprint, and the store no longer holds it.
pub proof fn lemma_absent_file_is_removed(s: CheckerV, h: Seq<char>)
    requires
        keys_unique(s.cache),
        lookup(s.cache, h) is Some,
        !observed(s.ops, h),
    ensures
        exists|i: int|
            0 <= i < close(s).ops.len() && close(s).ops[i] == removal((h, lookup(s.cache, h)->0))
                && forall|j: int|
                0 <= j < close(s).ops.len() && j != i ==> (#[trigger] close(s).ops[j]).header != h,
        lookup(close(s).cache, h) is None,
{
    let c = s.cache;
    lemma_key_index(c, h);
    let k = key_index(c, h);
    lemma_stale_once(c, s.ops, k);
    let st = stale_entries(c, s.ops);
    let i = choose|i: int|
        0 <= i < st.len() && st[i] == c[k] && forall|j: int|
            0 <= j < st.len() && j != i ==> (#[trigger] st[j]).0 != c[k].0;
    let t = close(s);
    assert(t.ops[s.ops.len() + i] == removal(c[k]));
    assert forall|j: int| 0 <= j < t.ops.len() && j != s.ops.len() + i implies (
    #[trigger] t.ops[j]).header != h by {
        if j < s.ops.len() {
            assert(t.ops[j] == s.ops[j]);
        } else {
            assert(t.ops[j] == removal(st[j - s.ops.len()]));
        }
    }
    lemma_kept_entries(c, s.ops);
    let kept = kept_entries(c, s.ops);
    lemma_key_index(kept, h);
    if key_index(kept, h) >= 0 {
        assert(observed(s.ops, kept[key_index(kept, h)].0));
    }
}

/// A checker with `cache` as its store, before any check.
pub open spec fn session_start(cache: CacheV) -> CheckerV {
    CheckerV { cache, ops: Seq::empty() }
}

/// The modules (name, files) checked in turn.
pub open spec fn check_modules(s: CheckerV, modules: Seq<(Seq<char>, CacheV)>) -> CheckerV
    decreases modules.len(),
{
    if modules.len() == 0 {
        s
    } else {
        check_files(check_modules(s, modules.drop_last()), modules.last().1, modules.last().0)
    }
}

/// A whole session over a store: every module checked, then closed.
pub open spec fn run_session(cache: CacheV, modules: Seq<(Seq<char>, CacheV)>) -> CheckerV {
    close(check_modules(session_start(cache), modules))
}

pub open spec fn is_prefix(a: Seq<OpRecord>, b: Seq<OpRecord>) -> bool {
    a.len() <= b.len() && forall|i: int| 0 <= i < a.len() ==> a[i] == b[i]
}

/// The store holds, for the file of each operation, that operation's fingerprint.
pub open spec fn stores_recorded(c: CacheV, ops: Seq<OpRecord>) -> bool {
    forall|j: int| 0 <= j < ops.len() ==> lookup(c, (#[trigger] ops[j]).header) == Some(ops[j].fingerprint)
}

/// `u` replays `s` against the store `c`: same files in the same order, each a `Skip`.
pub open spec fn replays(u: CheckerV, s: CheckerV, c: CacheV) -> bool {
    &&& u.cache == c
    &&& u.ops.len() == s.ops.len()
    &&& forall|i: int|
        0 <= i < u.ops.len() ==> #[trigger] u.ops[i] == (OpRecord { kind: OpKind::Skip, ..s.ops[i] })
}

proof fn lemma_lookup_push(c: CacheV, e: (Seq<char>, Seq<char>), h: Seq<char>)
    ensures
        lookup(c.push(e), h) == if e.0 == h {
            Some(e.1)
        } else {
            lookup(c, h)
        },
{
    assert(c.push(e).drop_last() =~= c);
    lemma_key_index(c, h);
}

proof fn lemma_lookup_upsert_other(c: CacheV, h: Seq<char>, fp: Seq<char>, k: Seq<char>)
    requires
        keys_unique(c),
        k != h,
    ensures
        lookup(upsert(c, h, fp), k) == lookup(c, k),
{
    lemma_key_index(c, h);
    lemma_key_index(c, k);
    let u = upsert(c, h, fp);
    lemma_upsert_unique(c, h, fp);
    lemma_key_index(u, k);
    if key_index(c, h) >= 0 {
        if key_index(c, k) >= 0 {
            assert(u[key_index(c, k)].0 == k);
        }
        if key_index(u, k) >= 0 {
            assert(c[key_index(u, k)].0 == k);
        }
    } else {
        lemma_lookup_push(c, (h, fp), k);
    }
}

proof fn lemma_lookup_kept(c: CacheV, ops: Seq<OpRecord>, h: Seq<char>)
    requires
        observed(ops, h),
    ensures
        lookup(kept_entries(c, ops), h) == lookup(c, h),
    decreases c.len(),
{
    if c.len() > 0 {
        let d = c.drop_last();
        lemma_lookup_kept(d, ops, h);
        lemma_lookup_push(d, c.last(), h);
        assert(d.push(c.last()) =~= c);
        if observed(ops, c.last().0) {
            lemma_lookup_push(kept_entries(d, ops), c.last(), h);
        }
    }
}

proof fn lemma_no_stale(c: CacheV, ops: Seq<OpRecord>)
    requires
        forall|i: int| 0 <= i < c.len() ==> observed(ops, (#[trigger] c[i]).0),
    ensures
        stale_entries(c, ops).len() == 0,
    decreases c.len(),
{
    if c.len() > 0 {
        let d = c.drop_last();
        assert forall|i: int| 0 <= i < d.len() implies observed(ops, (#[trigger] d[i]).0) by {
            assert(d[i] == c[i]);
        }
        lemma_no_stale(d, ops);
        assert(observed(ops, c[c.len() - 1].0));
    }
}

proof fn lemma_all_skip_selects_nothing(ops: Seq<OpRecord>)
    requires
        forall|i: int| 0 <= i < ops.len() ==> (#[trigger] ops[i]).kind == OpKind::Skip,
    ensures
        selected(ops, Selection::Generate).len() == 0,
        selected(ops, Selection::Retire).len() == 0,
    decreases ops.len(),
{
    if ops.len() > 0 {
        let d = ops.drop_last();
        assert forall|i: int| 0 <= i < d.len() implies (#[trigger] d[i]).kind == OpKind::Skip by {
            assert(d[i] == ops[i]);
        }
        lemma_all_skip_selects_nothing(d);
        assert(ops[ops.len() - 1].kind == OpKind::Skip);
    }
}

proof fn lemma_files_extend(s: CheckerV, files: CacheV, m: Seq<char>)
    ensures
        is_prefix(s.ops, check_files(s, files, m).ops),
    decreases files.len(),
{
    if files.len() > 0 {
        lemma_files_extend(s, files.drop_last(), m);
    }
}

proof fn lemma_modules_extend(s: CheckerV, mods: Seq<(Seq<char>, CacheV)>)
    ensures
        is_prefix(s.ops, check_modules(s, mods).ops),
    decreases mods.len(),
{
    if mods.len() > 0 {
        lemma_modules_extend(s, mods.drop_last());
        lemma_files_extend(check_modules(s, mods.drop_last()), mods.last().1, mods.last().0);
    }
}

/// The first session keeps, for each operation, its fingerprint in the store.
proof fn lemma_one_records(s: CheckerV, h: Seq<char>, fp: Seq<char>, m: Seq<char>)
    requires
        keys_unique(s.cache),
        stores_recorded(s.cache, s.ops),
    ensures
        keys_unique(check_one(s, h, fp, m).cache),
        stores_recorded(check_one(s, h, fp, m).cache, check_one(s, h, fp, m).ops),
{
    let t = check_one(s, h, fp, m);
    lemma_upsert_unique(s.cache, h, fp);
    if !observed(s.ops, h) {
        lemma_lookup_upsert(s.cache, h, fp);
        assert forall|j: int| 0 <= j < t.ops.len() implies lookup(t.cache, (#[trigger] t.ops[j]).header)
            == Some(t.ops[j].fingerprint) by {
            if j < s.ops.len() {
                assert(t.ops[j] == s.ops[j]);
                assert(s.ops[j].header != h);
                if t.cache != s.cache {
                    lemma_lookup_upsert_other(s.cache, h, fp, s.ops[j].header);
                }
            }
        }
    }
}

proof fn lemma_files_record(s: CheckerV, files: CacheV, m: Seq<char>)
    requires
        keys_unique(s.cache),
        stores_recorded(s.cache, s.ops),
    ensures
        keys_unique(check_files(s, files, m).cache),
        stores_recorded(check_files(s, files, m).cache, check_files(s, files, m).ops),
    decreases files.len(),
{
    if files.len() > 0 {
        lemma_files_record(s, files.drop_last(), m);
        lemma_one_records(check_files(s, files.drop_last(), m), files.last().0, files.last().1, m);
    }
}

proof fn lemma_modules_record(s: CheckerV, mods: Seq<(Seq<char>, CacheV)>)
    requires
        keys_unique(s.cache),
        stores_recorded(s.cache, s.ops),
    ensures
        keys_unique(check_modules(s, mods).cache),
        stores_recorded(check_modules(s, mods).cache, check_modules(s, mods).ops),
    decreases mods.len(),
{
    if mods.len() > 0 {
        lemma_modules_record(s, mods.drop_last());
        lemma_files_record(check_modules(s, mods.drop_last()), mods.last().1, mods.last().0);
    }
}

proof fn lemma_one_replays(
    u: CheckerV,
    s: CheckerV,
    c: CacheV,
    all: Seq<OpRecord>,
    h: Seq<char>,
    fp: Seq<char>,
    m: Seq<char>,
)
    requires
        replays(u, s, c),
        stores_recorded(c, all),
        is_prefix(check_one(s, h, fp, m).ops, all),
    ensures
        replays(check_one(u, h, fp, m), check_one(s, h, fp, m), c),
{
    if observed(s.ops, h) {
        let i = choose|i: int| 0 <= i < s.ops.len() && (#[trigger] s.ops[i]).header == h;
        assert(u.ops[i].header == h);
    } else {
        if observed(u.ops, h) {
            let i = choose|i: int| 0 <= i < u.ops.len() && (#[trigger] u.ops[i]).header == h;
            assert(s.ops[i].header == h);
        }
        let n = s.ops.len() as int;
        let t = check_one(s, h, fp, m);
        assert(t.ops[n] == all[n]);
        assert(lookup(c, all[n].header) == Some(all[n].fingerprint));
        let v = check_one(u, h, fp, m);
        assert forall|i: int| 0 <= i < v.ops.len() implies #[trigger] v.ops[i] == (OpRecord {
            kind: OpKind::Skip,
            ..t.ops[i]
        }) by {
            if i < n {
                assert(v.ops[i] == u.ops[i]);
                assert(t.ops[i] == s.ops[i]);
            }
        }
    }
}

proof fn lemma_files_replay(
    u: CheckerV,
    s: CheckerV,
    c: CacheV,
    all: Seq<OpRecord>,
    files: CacheV,
    m: Seq<char>,
)
    requires
        replays(u, s, c),
        stores_recorded(c, all),
        is_prefix(check_files(s, files, m).ops, all),
    ensures
        replays(check_files(u, files, m), check_files(s, files, m), c),
    decreases files.len(),
{
    if files.len() > 0 {
        let d = files.drop_last();
        let s1 = check_files(s, d, m);
        lemma_files_extend(s1, seq![files.last()], m);
        assert(seq![files.last()].drop_last() =~= Seq::<(Seq<char>, Seq<char>)>::empty());
        lemma_files_replay(u, s, c, all, d, m);
        lemma_one_replays(check_files(u, d, m), s1, c, all, files.last().0, files.last().1, m);
    }
}

proof fn lemma_modules_replay(
    u: CheckerV,
    s: CheckerV,
    c: CacheV,
    all: Seq<OpRecord>,
    mods: Seq<(Seq<char>, CacheV)>,
)
    requires
        replays(u, s, c),
        stores_recorded(c, all),
        is_prefix(check_modules(s, mods).ops, all),
    ensures
        replays(check_modules(u, mods), check_modules(s, mods), c),
    decreases mods.len(),
{
    if mods.len() > 0 {
        let d = mods.drop_last();
        let s1 = check_modules(s, d);
        lemma_files_extend(s1, mods.last().1, mods.last().0);
        lemma_modules_replay(u, s, c, all, d);
        lemma_files_replay(check_modules(u, d), s1, c, all, mods.last().1, mods.last().0);
    }
}

/// Idempotence: a second session over the same modules and the same file
/// contents, against the store the first one left, has nothing to generate
/// and nothing to retire.
pub proof fn lemma_second_session_is_quiet(cache: CacheV, modules: Seq<(Seq<char>, CacheV)>)
    requires
        keys_unique(cache),
    ensures
        selected(run_session(run_session(cache, modules).cache, modules).ops, Selection::Generate).len()
            == 0,
        selected(run_session(run_session(cache, modules).cache, modules).ops, Selection::Retire).len()
            == 0,
{
    let s0 = session_start(cache);
    let big = check_modules(s0, modules);
    lemma_modules_record(s0, modules);
    let c1 = kept_entries(big.cache, big.ops);
    assert forall|j: int| 0 <= j < big.ops.len() implies lookup(c1, (#[trigger] big.ops[j]).header)
        == Some(big.ops[j].fingerprint) by {
        lemma_lookup_kept(big.cache, big.ops, big.ops[j].header);
    }
    assert(run_session(cache, modules).cache == c1);
    let u0 = session_start(c1);
    assert(replays(u0, s0, c1));
    lemma_modules_replay(u0, s0, c1, big.ops, modules);
    let u = check_modules(u0, modules);
    lemma_kept_entries(big.cache, big.ops);
    assert forall|i: int| 0 <= i < c1.len() implies observed(u.ops, (#[trigger] c1[i]).0) by {
        assert(observed(big.ops, c1[i].0));
        let j = choose|j: int| 0 <= j < big.ops.len() && (#[trigger] big.ops[j]).header == c1[i].0;
        assert(u.ops[j].header == c1[i].0);
    }
    lemma_no_stale(c1, u.ops);
    let t = close(u);
    assert(removals(stale_entries(c1, u.ops)) =~= Seq::<OpRecord>::empty());
    assert(t.ops =~= u.ops);
    assert forall|i: int| 0 <= i < t.ops.len() implies (#[trigger] t.ops[i]).kind == OpKind::Skip by {
        assert(u.ops[i].kind == OpKind::Skip);
    }
    lemma_all_skip_selects_nothing(t.ops);
}

fn op_kind(op: &HeaderCacheOp) -> (k: OpKind)
    ensures
        k == op.kind(),
{
    match op {
        HeaderCacheOp::Add(_, _) => OpKind::Add,
        HeaderCacheOp::Remove(_, _) => OpKind::Remove,
        HeaderCacheOp::Update(_, _) => OpKind::Update,
        HeaderCacheOp::Skip(_, _) => OpKind::Skip,
    }
}

fn in_selection(k: OpKind, sel: Selection) -> (r: bool)
    ensures
        r == selects(k, sel),
{
    match sel {
        Selection::Generate => k == OpKind::Add || k == OpKind::Update,
        Selection::Keep => k == OpKind::Skip,
        Selection::Retire => k == OpKind::Remove,
    }
}

impl Default for HeaderChecker {
    /// A checker with an empty content store, as on a first run.
    fn default() -> (r: HeaderChecker)
        ensures
            r.wf(),
            r@ == (CheckerV { cache: Seq::empty(), ops: Seq::empty() }),
    {
        let r = HeaderChecker { headers_cache: Vec::new(), operations: Vec::new() };
        assert(r@.cache =~= Seq::empty());
        assert(r@.ops =~= Seq::empty());
        r
    }
}

impl HeaderChecker {
    /// A checker whose store is read from the text of a store file; a
    /// malformed text gives an empty store, as on a first run.
    pub fn new(cache_text: &str) -> (r: HeaderChecker)
        ensures
            r.wf(),
            r@ == (CheckerV {
                cache: match parse_cache(cache_text@) {
                    Some(c) => c,
                    None => Seq::empty(),
                },
                ops: Seq::empty(),
            }),
    {
        let mut r = HeaderChecker { headers_cache: Vec::new(), operations: Vec::new() };
        assert(r@.cache =~= Seq::empty());
        assert(r@.ops =~= Seq::empty());
        let ghost t = cache_text@;
        let n = cache_text.unicode_len();
        let mut start: usize = 0;
        let mut eq: Option<usize> = None;
        let mut i: usize = 0;
        for c in it: cache_text.chars()
            invariant
                n == t.len(),
                t == cache_text@,
                it.seq() == t,
                i == it.index(),
                i <= n,
                r.wf(),
                r@.ops.len() == 0,
                !cache_scan(t, i as int).malformed,
                cache_scan(t, i as int).entries == r@.cache,
                cache_scan(t, i as int).start == start as int,
                cache_scan(t, i as int).eq == match eq {
                    Some(e) => e as int,
                    None => -1,
                },
        {
            proof {
                lemma_scan_wf(t, i as int);
            }
            assert(c == t[i as int]);
            if c == '\n' {
                match eq {
                    Some(e) => {
                        let key = cache_text.substring_char(start, e);
                        let value = cache_text.substring_char(e + 1, i);
                        r.store(key, value);
                    },
                    None => {
                        if i != start {
                            proof {
                                lemma_scan_malformed_stays(t, i as int + 1);
                            }
                            return HeaderChecker::default();
                        }
                    },
                }
                start = i + 1;
                eq = None;
            } else if c == '=' {
                if eq.is_some() {
                    proof {
                        lemma_scan_malformed_stays(t, i as int + 1);
                    }
                    return HeaderChecker::default();
                }
                eq = Some(i);
            }
            i += 1;
        }
        proof {
            lemma_scan_wf(t, n as int);
        }
        match eq {
            Some(e) => {
                let key = cache_text.substring_char(start, e);
                let value = cache_text.substring_char(e + 1, n);
                r.store(key, value);
            },
            None => {
                if n != start {
                    return HeaderChecker::default();
                }
            },
        }
        assert(r@.ops =~= Seq::empty());
        assert(parse_cache(t) == Some(r@.cache));
        r
    }

    /// The text of the store, to be written back to the store file.
    pub fn cache_text(&self) -> (r: String)
        ensures
            r@ == cache_text_of(self@.cache),
    {
        let ghost lines = self@.cache.map_values(|e: (Seq<char>, Seq<char>)| entry_line(e));
        let mut r = String::new();
        let mut i: usize = 0;
        while i < self.headers_cache.len()
            invariant
                i <= self.headers_cache.len(),
                lines == self@.cache.map_values(|e: (Seq<char>, Seq<char>)| entry_line(e)),
                r@ == crate::text::seq_join(lines.take(i as int), Seq::empty()),
            decreases self.headers_cache.len() - i,
        {
            let ghost before = r@;
            r.append(self.headers_cache[i].0.as_str());
            r.append("=");
            r.append(self.headers_cache[i].1.as_str());
            r.append("\n");
            proof {
                assert(lines.take(i + 1).drop_last() =~= lines.take(i as int));
                if i == 0 {
                    assert(before =~= Seq::empty());
                    assert(r@ =~= lines[0]);
                } else {
                    assert(r@ =~= before + Seq::empty() + lines[i as int]);
                }
            }
            i += 1;
        }
        assert(lines.take(i as int) =~= lines);
        r
    }

    /// The store holds each identity at most once.
    pub open spec fn wf(&self) -> bool {
        keys_unique(self@.cache)
    }

    /// Whether an operation of the session is about `h`.
    fn is_observed(&self, h: &str) -> (r: bool)
        ensures
            r == observed(self@.ops, h@),
    {
        let mut j: usize = 0;
        while j < self.operations.len()
            invariant
                j <= self.operations.len(),
                forall|k: int| 0 <= k < j ==> (#[trigger] self@.ops[k]).header != h@,
            decreases self.operations.len() - j,
        {
            if same_text(self.operations[j].0.get_header(), h) {
                assert(self@.ops[j as int].header == h@);
                return true;
            }
            j += 1;
        }
        false
    }

    /// Position of `h` in the store.
    fn find_entry(&self, h: &str) -> (r: Option<usize>)
        requires
            self.wf(),
        ensures
            r is None ==> key_index(self@.cache, h@) == -1,
            r is Some ==> key_index(self@.cache, h@) == r->0 as int,
            r is Some ==> r->0 < self.headers_cache.len(),
    {
        proof {
            lemma_key_index(self@.cache, h@);
        }
        let mut j: usize = 0;
        while j < self.headers_cache.len()
            invariant
                j <= self.headers_cache.len(),
                self.wf(),
                forall|k: int| 0 <= k < j ==> (#[trigger] self@.cache[k]).0 != h@,
            decreases self.headers_cache.len() - j,
        {
            if same_text(self.headers_cache[j].0.as_str(), h) {
                proof {
                    lemma_key_index(self@.cache, h@);
                    assert(self@.cache[j as int].0 == h@);
                    assert(keys_unique(self@.cache));
                }
                return Some(j);
            }
            j += 1;
        }
        None
    }

    /// Stores `fp` for `h`.
    fn store(&mut self, h: &str, fp: &str)
        requires
            old(self).wf(),
        ensures
            final(self).wf(),
            final(self)@ == (CheckerV { cache: upsert(old(self)@.cache, h@, fp@), ..old(self)@ }),
    {
        proof {
            lemma_upsert_unique(self@.cache, h@, fp@);
        }
        let entry = (h.to_owned(), fp.to_owned());
        match self.find_entry(h) {
            Some(i) => {
                self.headers_cache.set(i, entry);
            },
            None => {
                self.headers_cache.push(entry);
            },
        }
        assert(self@.cache =~= upsert(old(self)@.cache, h@, fp@));
        assert(self@.ops =~= old(self)@.ops);
    }

    /// Checks one file with its fingerprint.
    fn check_file(&mut self, h: &str, fp: &str, module: &str)
        requires
            old(self).wf(),
        ensures
            final(self).wf(),
            final(self)@ == check_one(old(self)@, h@, fp@, module@),
    {
        if self.is_observed(h) {
            return;
        }
        let ghost s0 = self@;
        let kind = match self.find_entry(h) {
            None => OpKind::Add,
            Some(i) => if same_text(self.headers_cache[i].1.as_str(), fp) {
                OpKind::Skip
            } else {
                OpKind::Update
            },
        };
        let op = match kind {
            OpKind::Add => HeaderCacheOp::Add(h.to_owned(), fp.to_owned()),
            OpKind::Update => HeaderCacheOp::Update(h.to_owned(), fp.to_owned()),
            _ => HeaderCacheOp::Skip(h.to_owned(), fp.to_owned()),
        };
        if kind != OpKind::Skip {
            self.store(h, fp);
        }
        self.operations.push((op, module.to_owned()));
        assert(self@.ops =~= check_one(s0, h@, fp@, module@).ops);
        assert(self@.cache =~= check_one(s0, h@, fp@, module@).cache);
    }

    /// Checks files given with their fingerprints, in order, as part of `module`.
    pub fn check_fingerprints(&mut self, files: &Vec<(String, String)>, module: &str)
        requires
            old(self).wf(),
        ensures
            final(self).wf(),
            final(self)@ == check_files(old(self)@, entries_view(files@), module@),
    {
        let ghost s0 = self@;
        let ghost fs = entries_view(files@);
        let mut i: usize = 0;
        while i < files.len()
            invariant
                i <= files.len(),
                self.wf(),
                fs == entries_view(files@),
                self@ == check_files(s0, fs.take(i as int), module@),
            decreases files.len() - i,
        {
            self.check_file(files[i].0.as_str(), files[i].1.as_str(), module);
            assert(fs.take(i + 1).drop_last() =~= fs.take(i as int));
            i += 1;
        }
        assert(fs.take(i as int) =~= fs);
    }

    /// Checks files given with their contents, in order, as part of `module`:
    /// each file is checked with the fingerprint of its content.
    pub fn check(&mut self, files: &Vec<(String, Vec<u8>)>, module: &str)
        requires
            old(self).wf(),
        ensures
            final(self).wf(),
            final(self)@ == check_files(old(self)@, hashed_view(files@), module@),
    {
        let mut hashed: Vec<(String, String)> = Vec::new();
        let mut i: usize = 0;
        while i < files.len()
            invariant
                i <= files.len(),
                entries_view(hashed@) == hashed_view(files@.take(i as int)),
            decreases files.len() - i,
        {
            let fp = fingerprint(&files[i].1);
            hashed.push((files[i].0.clone(), fp));
            assert(hashed_view(files@.take(i + 1)) =~= hashed_view(files@.take(i as int)).push(
                (files@[i as int].0@, sha1_hex_of(files@[i as int].1@)),
            ));
            assert(entries_view(hashed@) =~= hashed_view(files@.take(i + 1)));
            i += 1;
        }
        assert(files@.take(i as int) =~= files@);
        self.check_fingerprints(&hashed, module);
    }

    /// Ends the session: stored files that no check observed are removed
    /// from the store, and a `Remove` without module is recorded for each.
    pub fn close_checks(&mut self)
        requires
            old(self).wf(),
        ensures
            final(self).wf(),
            final(self)@ == close(old(self)@),
    {
        let ghost s0 = self@;
        let mut kept: Vec<(String, String)> = Vec::new();
        let mut removed: Vec<(HeaderCacheOp, String)> = Vec::new();
        let mut i: usize = 0;
        while i < self.headers_cache.len()
            invariant
                i <= self.headers_cache.len(),
                self@ == s0,
                entries_view(kept@) == kept_entries(s0.cache.take(i as int), s0.ops),
                records_of(removed@) == removals(stale_entries(s0.cache.take(i as int), s0.ops)),
            decreases self.headers_cache.len() - i,
        {
            let ghost prev_removed = removed@;
            let h = self.headers_cache[i].0.as_str();
            let fp = self.headers_cache[i].1.as_str();
            assert(s0.cache.take(i + 1).drop_last() =~= s0.cache.take(i as int));
            assert(s0.cache.take(i + 1).last() == s0.cache[i as int]);
            if self.is_observed(h) {
                kept.push((h.to_owned(), fp.to_owned()));
                assert(entries_view(kept@) =~= kept_entries(s0.cache.take(i + 1), s0.ops));
                assert(stale_entries(s0.cache.take(i + 1), s0.ops) == stale_entries(
                    s0.cache.take(i as int),
                    s0.ops,
                ));
            } else {
                let op = HeaderCacheOp::Remove(h.to_owned(), fp.to_owned());
                let none = String::new();
                assert(record_of(op, none) == removal(s0.cache[i as int]));
                removed.push((op, none));
                assert(removed@ == prev_removed.push((op, none)));
                let ghost st0 = stale_entries(s0.cache.take(i as int), s0.ops);
                assert(records_of(removed@) =~= records_of(prev_removed).push(record_of(op, none)));
                assert(removals(st0.push(s0.cache[i as int])) =~= removals(st0).push(
                    removal(s0.cache[i as int]),
                ));
                assert(stale_entries(s0.cache.take(i + 1), s0.ops) == stale_entries(
                    s0.cache.take(i as int),
                    s0.ops,
                ).push(s0.cache[i as int]));
                let ghost st0 = stale_entries(s0.cache.take(i as int), s0.ops);
                assert(records_of(removed@) =~= records_of(prev_removed).push(record_of(op, none)));
                assert(removals(st0.push(s0.cache[i as int])) =~= removals(st0).push(
                    removal(s0.cache[i as int]),
                ));
            }
            i += 1;
        }
        assert(s0.cache.take(i as int) =~= s0.cache);
        proof {
            lemma_kept_entries(s0.cache, s0.ops);
        }
        self.headers_cache = kept;
        self.operations.append(&mut removed);
        assert(self@.ops =~= close(s0).ops);
    }

    fn gather(&self, sel: Selection) -> (r: Vec<CheckerResult>)
        ensures
            results_view(r@) == selected(self@.ops, sel),
    {
        let ghost ops = self@.ops;
        let mut r: Vec<CheckerResult> = Vec::new();
        let mut i: usize = 0;
        while i < self.operations.len()
            invariant
                i <= self.operations.len(),
                ops == self@.ops,
                results_view(r@) == selected(ops.take(i as int), sel),
            decreases self.operations.len() - i,
        {
            assert(ops.take(i + 1).drop_last() =~= ops.take(i as int));
            let op = &self.operations[i];
            if in_selection(op_kind(&op.0), sel) {
                r.push(CheckerResult::new(op.0.get_header(), op.1.as_str()));
                assert(results_view(r@) =~= selected(ops.take(i + 1), sel));
            }
            i += 1;
        }
        assert(ops.take(i as int) =~= ops);
        r
    }

    /// The files whose artifacts are to be generated (`Add` and `Update`),
    /// with their modules, in the order they were checked.
    pub fn headers_to_generate(&self) -> (r: Vec<CheckerResult>)
        ensures
            results_view(r@) == selected(self@.ops, Selection::Generate),
    {
        self.gather(Selection::Generate)
    }

    /// The files whose artifacts are kept (`Skip`), with their modules.
    pub fn headers_to_skip(&self) -> (r: Vec<CheckerResult>)
        ensures
            results_view(r@) == selected(self@.ops, Selection::Keep),
    {
        self.gather(Selection::Keep)
    }

    /// The files whose artifacts are to be retired (`Remove`), each with an
    /// empty module.
    pub fn headers_to_delete(&self) -> (r: Vec<CheckerResult>)
        ensures
            results_view(r@) == selected(self@.ops, Selection::Retire),
    {
        self.gather(Selection::Retire)
    }
}

} // verus!
