//! Remote directory listings and the bookkeeping of remote file operations.

use crate::text::{
    chars_lt, chars_of, ends_with_slash, ends_with_slash_spec, joined, lemma_seq_lt_connected,
    lemma_seq_lt_irreflexive, lemma_seq_lt_transitive, lowercase, seq_lt, str_eq, to_lowercase,
};
use russh_sftp::protocol::FileAttributes;
use crate::error::{ErrorKind, SshError};
use vstd::prelude::*;
use vstd::string::*;

verus! {

/// One entry of a directory listing.
#[derive(Debug, Clone)]
pub struct FileEntry {
    pub name: String,
    pub path: String,
    pub is_dir: bool,
    pub size: u64,
    pub modified: Option<u64>,
    pub permissions: Option<u32>,
    pub uid: Option<u32>,
    pub gid: Option<u32>,
}

/// What a listing is ordered by: directories before everything else, then
/// the case-folded name.
pub struct SortKey {
    pub is_dir: bool,
    pub folded: Seq<char>,
}

/// Whether key `a` comes strictly before key `b`.
pub open spec fn key_lt(a: SortKey, b: SortKey) -> bool {
    (a.is_dir && !b.is_dir) || (a.is_dir == b.is_dir && seq_lt(a.folded, b.folded))
}

/// No element of `s` comes strictly before an earlier one.
pub open spec fn sorted_by<T>(s: Seq<T>, key: spec_fn(T) -> SortKey) -> bool {
    forall|i: int, j: int| 0 <= i < j < s.len() ==> !key_lt(#[trigger] key(s[j]), #[trigger] key(s[i]))
}

/// The elements of `s` whose key is `k`, in the order they have in `s`.
pub open spec fn run_of<T>(s: Seq<T>, key: spec_fn(T) -> SortKey, k: SortKey) -> Seq<T> {
    s.filter(has_key(key, k))
}

/// The test "has key `k`".
pub open spec fn has_key<T>(key: spec_fn(T) -> SortKey, k: SortKey) -> spec_fn(T) -> bool {
    |e: T| key(e) == k
}

/// `out` is `inp` put in key order with ties left in their input order: it
/// is sorted, and for every key it holds the same elements, in the same
/// order, as `inp`.
pub open spec fn stably_sorted<T>(out: Seq<T>, inp: Seq<T>, key: spec_fn(T) -> SortKey) -> bool {
    &&& sorted_by(out, key)
    &&& forall|k: SortKey| #[trigger] run_of(out, key, k) == run_of(inp, key, k)
}

/// `key_lt` is a strict total order on keys.
pub proof fn lemma_key_order(a: SortKey, b: SortKey, c: SortKey)
    ensures
        !key_lt(a, a),
        key_lt(a, b) && key_lt(b, c) ==> key_lt(a, c),
        !key_lt(a, b) && !key_lt(b, a) ==> a == b,
{
    lemma_seq_lt_irreflexive(a.folded);
    if key_lt(a, b) && key_lt(b, c) {
        if a.is_dir == b.is_dir && b.is_dir == c.is_dir {
            lemma_seq_lt_transitive(a.folded, b.folded, c.folded);
        }
    }
    if !key_lt(a, b) && !key_lt(b, a) {
        lemma_seq_lt_connected(a.folded, b.folded);
    }
}

/// An entry together with the case-folded name it is ordered by.
#[derive(Debug, Clone)]
pub struct KeyedEntry {
    pub entry: FileEntry,
    pub folded: Vec<char>,
}

impl KeyedEntry {
    /// The key this entry is ordered by.
    pub open spec fn key(self) -> SortKey {
        SortKey { is_dir: self.entry.is_dir, folded: self.folded@ }
    }

    /// `key`, as a function.
    pub open spec fn by_key() -> spec_fn(KeyedEntry) -> SortKey {
        |e: KeyedEntry| e.key()
    }

    /// Whether this entry comes strictly before `other`.
    pub fn before(&self, other: &KeyedEntry) -> (r: bool)
        ensures
            r == key_lt(self.key(), other.key()),
    {
        if self.entry.is_dir != other.entry.is_dir {
            self.entry.is_dir
        } else {
            chars_lt(&self.folded, &other.folded)
        }
    }
}

/// A sequence none of whose elements meets `pred` filters to nothing.
proof fn lemma_filter_none<T>(s: Seq<T>, pred: spec_fn(T) -> bool)
    requires
        forall|i: int| 0 <= i < s.len() ==> !pred(#[trigger] s[i]),
    ensures
        s.filter(pred) == Seq::<T>::empty(),
    decreases s.len(),
{
    reveal(Seq::filter);
    if s.len() > 0 {
        let t = s.drop_last();
        assert forall|i: int| 0 <= i < t.len() implies !pred(#[trigger] t[i]) by {
            assert(t[i] == s[i]);
        }
        lemma_filter_none(t, pred);
    }
}

/// Filtering one element more of a sequence.
proof fn lemma_filter_take_next<T>(s: Seq<T>, n: int, pred: spec_fn(T) -> bool)
    requires
        0 <= n < s.len(),
    ensures
        s.take(n + 1).filter(pred) == if pred(s[n]) {
            s.take(n).filter(pred).push(s[n])
        } else {
            s.take(n).filter(pred)
        },
{
    reveal(Seq::filter);
    assert(s.take(n + 1).drop_last() =~= s.take(n));
}

/// What the elements with key `k` are after `x` went in at `p`, where all
/// that follows `p` comes strictly after `x`.
proof fn lemma_insert_run<T>(s: Seq<T>, p: int, x: T, key: spec_fn(T) -> SortKey, k: SortKey)
    requires
        0 <= p <= s.len(),
        forall|j: int| p <= j < s.len() ==> key_lt(key(x), #[trigger] key(s[j])),
    ensures
        run_of(s.insert(p, x), key, k) == if key(x) == k {
            run_of(s, key, k).push(x)
        } else {
            run_of(s, key, k)
        },
{
    let pred = has_key(key, k);
    let head = s.subrange(0, p);
    let tail = s.subrange(p, s.len() as int);
    assert(s =~= head + tail);
    assert(s.insert(p, x) =~= head + seq![x] + tail);
    Seq::filter_distributes_over_add(head, tail, pred);
    Seq::filter_distributes_over_add(head + seq![x], tail, pred);
    Seq::filter_distributes_over_add(head, seq![x], pred);
    assert(seq![x].filter(pred) =~= if pred(x) { seq![x] } else { Seq::<T>::empty() }) by {
        reveal(Seq::filter);
        assert(seq![x].drop_last() =~= Seq::<T>::empty());
        assert(Seq::<T>::empty().filter(pred) =~= Seq::<T>::empty());
    }
    if key(x) == k {
        assert forall|j: int| 0 <= j < tail.len() implies !pred(#[trigger] tail[j]) by {
            assert(tail[j] == s[p + j]);
            lemma_key_order(key(x), key(x), key(x));
        }
        lemma_filter_none(tail, pred);
        assert(head.filter(pred) + seq![x] + Seq::<T>::empty() =~= (head.filter(pred)
            + Seq::<T>::empty()).push(x));
    } else {
        assert(head.filter(pred) + Seq::<T>::empty() + tail.filter(pred) =~= head.filter(pred)
            + tail.filter(pred));
    }
}

/// A sorted sequence stays sorted when `x` goes in after everything that
/// does not come after it and before everything that does.
proof fn lemma_insert_sorted<T>(s: Seq<T>, p: int, x: T, key: spec_fn(T) -> SortKey)
    requires
        0 <= p <= s.len(),
        sorted_by(s, key),
        p > 0 ==> !key_lt(key(x), key(s[p - 1])),
        forall|j: int| p <= j < s.len() ==> key_lt(key(x), #[trigger] key(s[j])),
    ensures
        sorted_by(s.insert(p, x), key),
{
    let t = s.insert(p, x);
    s.insert_ensures(p, x);
    assert forall|i: int, j: int| 0 <= i < j < t.len() implies !key_lt(
        #[trigger] key(t[j]),
        #[trigger] key(t[i]),
    ) by {
        if i == p {
            assert(t[j] == s[j - 1]);
            assert(key_lt(key(x), key(s[j - 1])));
            lemma_key_order(key(x), key(t[j]), key(x));
        } else if j == p {
            assert(t[i] == s[i]);
            if i < p - 1 {
                assert(!key_lt(key(s[p - 1]), key(s[i])));
            }
            lemma_key_order(key(s[p - 1]), key(x), key(s[i]));
            lemma_key_order(key(x), key(s[p - 1]), key(s[i]));
        } else {
            let i0 = if i < p { i } else { i - 1 };
            let j0 = if j < p { j } else { j - 1 };
            assert(t[i] == s[i0]);
            assert(t[j] == s[j0]);
        }
    }
}

/// The elements with key `k` of a sequence that starts with `x`.
proof fn lemma_run_cons<T>(x: T, t: Seq<T>, key: spec_fn(T) -> SortKey, k: SortKey)
    ensures
        run_of(seq![x] + t, key, k) == if key(x) == k {
            seq![x] + run_of(t, key, k)
        } else {
            run_of(t, key, k)
        },
{
    let pred = has_key(key, k);
    Seq::filter_distributes_over_add(seq![x], t, pred);
    assert(seq![x].filter(pred) =~= if pred(x) { seq![x] } else { Seq::<T>::empty() }) by {
        reveal(Seq::filter);
        assert(seq![x].drop_last() =~= Seq::<T>::empty());
        assert(Seq::<T>::empty().filter(pred) =~= Seq::<T>::empty());
    }
    if key(x) != k {
        assert(Seq::<T>::empty() + run_of(t, key, k) =~= run_of(t, key, k));
    }
}

/// Where two sequences agree key by key, the first element of the one has
/// no key that comes before the key of the first element of the other.
proof fn lemma_first_keys<T>(a: Seq<T>, b: Seq<T>, key: spec_fn(T) -> SortKey)
    requires
        sorted_by(a, key),
        forall|k: SortKey| #[trigger] run_of(a, key, k) == run_of(b, key, k),
        a.len() > 0,
        b.len() > 0,
    ensures
        !key_lt(key(b[0]), key(a[0])),
{
    assert forall|k: SortKey| #[trigger] run_of(b, key, k) == run_of(a, key, k) by {
        assert(run_of(a, key, k) == run_of(b, key, k));
    }
    lemma_run_member(b, a, key, 0);
    let j = choose|j: int| 0 <= j < a.len() && a[j] == b[0];
    if j == 0 {
        lemma_key_order(key(a[0]), key(a[0]), key(a[0]));
    } else {
        assert(!key_lt(key(a[j]), key(a[0])));
    }
}

/// Two sorted sequences that agree key by key are the same sequence.
proof fn lemma_sorted_runs_unique<T>(a: Seq<T>, b: Seq<T>, key: spec_fn(T) -> SortKey)
    requires
        sorted_by(a, key),
        sorted_by(b, key),
        forall|k: SortKey| #[trigger] run_of(a, key, k) == run_of(b, key, k),
    ensures
        a == b,
    decreases a.len(),
{
    assert forall|k: SortKey| #[trigger] run_of(b, key, k) == run_of(a, key, k) by {
        assert(run_of(a, key, k) == run_of(b, key, k));
    }
    if a.len() == 0 || b.len() == 0 {
        if a.len() > 0 {
            lemma_run_member(a, b, key, 0);
        }
        if b.len() > 0 {
            lemma_run_member(b, a, key, 0);
        }
        assert(a =~= b);
    } else {
        let k0 = key(a[0]);
        let ta = a.drop_first();
        let tb = b.drop_first();
        lemma_first_keys(a, b, key);
        lemma_first_keys(b, a, key);
        lemma_key_order(key(a[0]), key(b[0]), key(a[0]));
        assert(key(b[0]) == k0);
        assert(a =~= seq![a[0]] + ta);
        assert(b =~= seq![b[0]] + tb);
        lemma_run_cons(a[0], ta, key, k0);
        lemma_run_cons(b[0], tb, key, k0);
        assert(run_of(a, key, k0) == run_of(b, key, k0));
        assert(run_of(a, key, k0)[0] == a[0]);
        assert(run_of(b, key, k0)[0] == b[0]);
        assert forall|k: SortKey| #[trigger] run_of(ta, key, k) == run_of(tb, key, k) by {
            lemma_run_cons(a[0], ta, key, k);
            lemma_run_cons(b[0], tb, key, k);
            assert(run_of(a, key, k) == run_of(b, key, k));
            if k == k0 {
                assert(run_of(ta, key, k) =~= run_of(a, key, k).drop_first());
                assert(run_of(tb, key, k) =~= run_of(b, key, k).drop_first());
            }
        }
        assert forall|i: int, j: int| 0 <= i < j < ta.len() implies !key_lt(
            #[trigger] key(ta[j]),
            #[trigger] key(ta[i]),
        ) by {
            assert(ta[i] == a[i + 1]);
            assert(ta[j] == a[j + 1]);
        }
        assert forall|i: int, j: int| 0 <= i < j < tb.len() implies !key_lt(
            #[trigger] key(tb[j]),
            #[trigger] key(tb[i]),
        ) by {
            assert(tb[i] == b[i + 1]);
            assert(tb[j] == b[j + 1]);
        }
        lemma_sorted_runs_unique(ta, tb, key);
    }
}

/// The listing order is one order: two arrangements of the same input that
/// are both sorted with ties in input order are equal. So `stably_sorted`
/// leaves nothing open about the result.
pub proof fn law_listing_order_is_unique<T>(
    a: Seq<T>,
    b: Seq<T>,
    inp: Seq<T>,
    key: spec_fn(T) -> SortKey,
)
    requires
        stably_sorted(a, inp, key),
        stably_sorted(b, inp, key),
    ensures
        a == b,
{
    assert forall|k: SortKey| #[trigger] run_of(a, key, k) == run_of(b, key, k) by {
        assert(run_of(a, key, k) == run_of(inp, key, k));
        assert(run_of(b, key, k) == run_of(inp, key, k));
    }
    lemma_sorted_runs_unique(a, b, key);
}

/// Puts the entries in listing order: directories first, then by folded
/// name; entries with equal keys keep the order they came in.
pub fn sort_entries(entries: Vec<KeyedEntry>) -> (out: Vec<KeyedEntry>)
    ensures
        stably_sorted(out@, entries@, KeyedEntry::by_key()),
{
    let ghost key = KeyedEntry::by_key();
    let mut out: Vec<KeyedEntry> = Vec::new();
    proof {
        assert(entries@.take(0) =~= Seq::<KeyedEntry>::empty());
    }
    for x in it: entries
        invariant
            it.seq() == entries@,
            key == KeyedEntry::by_key(),
            sorted_by(out@, key),
            forall|k: SortKey| #[trigger]
                run_of(out@, key, k) == run_of(entries@.take(it.index() as int), key, k),
    {
        let mut p: usize = out.len();
        while p > 0 && x.before(&out[p - 1])
            invariant
                p <= out.len(),
                key == KeyedEntry::by_key(),
                forall|j: int| p <= j < out.len() ==> key_lt(key(x), #[trigger] key(out@[j])),
            decreases p,
        {
            p = p - 1;
        }
        proof {
            let n = it.index() as int;
            lemma_insert_sorted(out@, p as int, x, key);
            assert forall|k: SortKey| #[trigger]
                run_of(out@.insert(p as int, x), key, k) == run_of(
                    entries@.take(n + 1),
                    key,
                    k,
                ) by {
                lemma_insert_run(out@, p as int, x, key, k);
                lemma_filter_take_next(entries@, n, has_key(key, k));
                assert(run_of(out@, key, k) == run_of(entries@.take(n), key, k));
            }
        }
        out.insert(p, x);
    }
    proof {
        assert(entries@.take(entries@.len() as int) =~= entries@);
    }
    out
}

/// What `FileEntry` holds, with its strings as character sequences.
pub struct FileEntryView {
    pub name: Seq<char>,
    pub path: Seq<char>,
    pub is_dir: bool,
    pub size: u64,
    pub modified: Option<u64>,
    pub permissions: Option<u32>,
    pub uid: Option<u32>,
    pub gid: Option<u32>,
}

impl View for FileEntry {
    type V = FileEntryView;

    open spec fn view(&self) -> FileEntryView {
        FileEntryView {
            name: self.name@,
            path: self.path@,
            is_dir: self.is_dir,
            size: self.size,
            modified: self.modified,
            permissions: self.permissions,
            uid: self.uid,
            gid: self.gid,
        }
    }
}

/// The attributes a server reports of a file; each may be missing.
#[derive(Debug, Clone, Copy)]
pub struct FileAttrs {
    pub size: Option<u64>,
    pub uid: Option<u32>,
    pub gid: Option<u32>,
    pub permissions: Option<u32>,
    pub atime: Option<u32>,
    pub mtime: Option<u32>,
}

/// A name a server returned for a directory, with its attributes.
#[derive(Debug, Clone)]
pub struct DirItem {
    pub name: String,
    pub attrs: FileAttrs,
}

/// What `DirItem` holds, with its name as a character sequence.
pub struct DirItemView {
    pub name: Seq<char>,
    pub attrs: FileAttrs,
}

impl View for DirItem {
    type V = DirItemView;

    open spec fn view(&self) -> DirItemView {
        DirItemView { name: self.name@, attrs: self.attrs }
    }
}

/// Whether the mode bits carry the directory flag.
pub open spec fn is_dir_mode(permissions: Option<u32>) -> bool {
    match permissions {
        Some(bits) => bits & 0x4000 == 0x4000,
        None => false,
    }
}

/// The size, or 0 where none was reported.
pub open spec fn size_or_zero(size: Option<u64>) -> u64 {
    match size {
        Some(n) => n,
        None => 0,
    }
}

/// The modification time in seconds since the epoch, where one was reported.
pub open spec fn modified_secs(mtime: Option<u32>) -> Option<u64> {
    match mtime {
        Some(t) => Some(t as u64),
        None => None,
    }
}

/// Calls `FileAttributes::is_dir` of russh-sftp, which is true where the
/// permissions are present and, cut down to the file-type flags, contain the
/// directory flag `0x4000`.
#[verifier::external_body]
fn attrs_is_dir(attrs: &FileAttrs) -> (r: bool)
    ensures
        r == is_dir_mode(attrs.permissions),
{
    let FileAttrs { size, uid, gid, permissions, atime, mtime } = *attrs;
    let a = FileAttributes { size, uid, user: None, gid, group: None, permissions, atime, mtime };
    a.is_dir()
}

/// Calls `FileAttributes::len` of russh-sftp: the reported size, or 0.
#[verifier::external_body]
fn attrs_len(attrs: &FileAttrs) -> (r: u64)
    ensures
        r == size_or_zero(attrs.size),
{
    let FileAttrs { size, uid, gid, permissions, atime, mtime } = *attrs;
    let a = FileAttributes { size, uid, user: None, gid, group: None, permissions, atime, mtime };
    a.len()
}

/// Calls `FileAttributes::modified` of russh-sftp, which gives the epoch
/// plus the reported seconds, or an error where none were reported; the
/// result is handed back as whole seconds since the epoch.
#[verifier::external_body]
fn attrs_modified(attrs: &FileAttrs) -> (r: Option<u64>)
    ensures
        r == modified_secs(attrs.mtime),
{
    let FileAttrs { size, uid, gid, permissions, atime, mtime } = *attrs;
    let a = FileAttributes { size, uid, user: None, gid, group: None, permissions, atime, mtime };
    let Ok(t) = a.modified() else { return None };
    let Ok(d) = t.duration_since(std::time::UNIX_EPOCH) else { return None };
    Some(d.as_secs())
}

/// Whether the name is one of the two pseudo-entries `.` and `..`.
pub open spec fn is_pseudo(name: Seq<char>) -> bool {
    name == seq!['.'] || name == seq!['.', '.']
}

/// The test "is a real entry", on directory items.
pub open spec fn real_item() -> spec_fn(DirItemView) -> bool {
    |i: DirItemView| !is_pseudo(i.name)
}

/// The path of `name` inside the directory `dir`.
pub open spec fn child_path(dir: Seq<char>, name: Seq<char>) -> Seq<char> {
    if ends_with_slash_spec(dir) {
        dir + name
    } else {
        dir + seq!['/'] + name
    }
}

/// The listing entry for one item of the directory `dir`.
pub open spec fn entry_for(dir: Seq<char>, item: DirItemView) -> FileEntryView {
    FileEntryView {
        name: item.name,
        path: child_path(dir, item.name),
        is_dir: is_dir_mode(item.attrs.permissions),
        size: size_or_zero(item.attrs.size),
        modified: modified_secs(item.attrs.mtime),
        permissions: item.attrs.permissions,
        uid: item.attrs.uid,
        gid: item.attrs.gid,
    }
}

/// `entry_for` with the directory fixed.
pub open spec fn entry_in(dir: Seq<char>) -> spec_fn(DirItemView) -> FileEntryView {
    |i: DirItemView| entry_for(dir, i)
}

/// The entries of a listing before they are ordered: one for each item but
/// the pseudo-entries, in the order the server gave.
pub open spec fn listed(dir: Seq<char>, items: Seq<DirItemView>) -> Seq<FileEntryView> {
    items.filter(real_item()).map_values(entry_in(dir))
}

/// The key a listing entry is ordered by: its kind and its lower-cased name.
pub open spec fn listing_key() -> spec_fn(FileEntryView) -> SortKey {
    |e: FileEntryView| SortKey { is_dir: e.is_dir, folded: lowercase(e.name) }
}

/// The views of a sequence of entries.
pub open spec fn entry_views(s: Seq<FileEntry>) -> Seq<FileEntryView> {
    s.map_values(|e: FileEntry| e@)
}

/// The views of a sequence of directory items.
pub open spec fn item_views(s: Seq<DirItem>) -> Seq<DirItemView> {
    s.map_values(|i: DirItem| i@)
}

/// The path of `name` inside the directory `dir`.
pub fn join_path(dir: &str, name: &str) -> (r: String)
    ensures
        r@ == child_path(dir@, name@),
{
    if ends_with_slash(dir) {
        joined(dir, name)
    } else {
        proof {
            reveal_strlit("/");
            assert("/"@ =~= seq!['/']);
        }
        joined(dir, "/").concat(name)
    }
}

/// Whether the name is `.` or `..`.
pub fn is_pseudo_name(name: &str) -> (r: bool)
    ensures
        r == is_pseudo(name@),
{
    proof {
        reveal_strlit(".");
        reveal_strlit("..");
        assert("."@ =~= seq!['.']);
        assert(".."@ =~= seq!['.', '.']);
    }
    str_eq(name, ".") || str_eq(name, "..")
}

/// The listing entry for one item of the directory `dir`.
pub fn make_entry(dir: &str, item: DirItem) -> (e: FileEntry)
    ensures
        e@ == entry_for(dir@, item@),
{
    let path = join_path(dir, item.name.as_str());
    FileEntry {
        path,
        is_dir: attrs_is_dir(&item.attrs),
        size: attrs_len(&item.attrs),
        modified: attrs_modified(&item.attrs),
        permissions: item.attrs.permissions,
        uid: item.attrs.uid,
        gid: item.attrs.gid,
        name: item.name,
    }
}

/// The listing view of a keyed entry, as a function.
pub open spec fn entry_view_of() -> spec_fn(KeyedEntry) -> FileEntryView {
    |k: KeyedEntry| k.entry@
}

/// Taking the elements with key `k` commutes with a map that keeps keys.
proof fn lemma_runs_under_map<A, B>(
    s: Seq<A>,
    g: spec_fn(A) -> B,
    ka: spec_fn(A) -> SortKey,
    kb: spec_fn(B) -> SortKey,
    k: SortKey,
)
    requires
        forall|i: int| 0 <= i < s.len() ==> kb(g(#[trigger] s[i])) == ka(s[i]),
    ensures
        run_of(s.map_values(g), kb, k) == run_of(s, ka, k).map_values(g),
    decreases s.len(),
{
    reveal(Seq::filter);
    if s.len() == 0 {
        assert(run_of(s.map_values(g), kb, k) =~= run_of(s, ka, k).map_values(g));
    } else {
        let t = s.drop_last();
        assert forall|i: int| 0 <= i < t.len() implies kb(g(#[trigger] t[i])) == ka(t[i]) by {
            assert(t[i] == s[i]);
        }
        lemma_runs_under_map(t, g, ka, kb, k);
        assert(s.map_values(g).drop_last() =~= t.map_values(g));
        assert(s.map_values(g).last() == g(s.last()));
        assert(kb(g(s[s.len() - 1])) == ka(s[s.len() - 1]));
        if ka(s.last()) == k {
            assert(run_of(t, ka, k).push(s.last()).map_values(g) =~= run_of(t, ka, k).map_values(
                g,
            ).push(g(s.last())));
        }
    }
}

/// Where two sequences agree key by key, each element of the one occurs in
/// the other.
proof fn lemma_run_member<T>(out: Seq<T>, inp: Seq<T>, key: spec_fn(T) -> SortKey, i: int)
    requires
        forall|k: SortKey| #[trigger] run_of(out, key, k) == run_of(inp, key, k),
        0 <= i < out.len(),
    ensures
        inp.contains(out[i]),
{
    let k = key(out[i]);
    let pred = has_key(key, k);
    assert(pred(out[i]));
    out.lemma_filter_contains(pred, i);
    assert(run_of(out, key, k) == run_of(inp, key, k));
    inp.lemma_filter_contains_rev(pred, out[i]);
}

/// The listing of a directory from what the server returned for it: the
/// pseudo-entries `.` and `..` are left out, each other item becomes an
/// entry with its full path, and the entries are put in order, directories
/// first and then by lower-cased name, ties in the order the server gave.
pub fn list_dir(path: &str, items: Vec<DirItem>) -> (out: Vec<FileEntry>)
    ensures
        stably_sorted(entry_views(out@), listed(path@, item_views(items@)), listing_key()),
{
    let ghost all = item_views(items@);
    let ghost g = entry_view_of();
    let ghost ka = KeyedEntry::by_key();
    let ghost kb = listing_key();
    let mut keyed: Vec<KeyedEntry> = Vec::new();
    proof {
        reveal(Seq::filter);
        assert(all.take(0) =~= Seq::<DirItemView>::empty());
        assert(keyed@.map_values(g) =~= listed(path@, all.take(0)));
    }
    for item in it: items
        invariant
            it.seq() == items@,
            all == item_views(items@),
            g == entry_view_of(),
            keyed@.map_values(g) == listed(path@, all.take(it.index() as int)),
            forall|j: int|
                0 <= j < keyed.len() ==> (#[trigger] keyed@[j]).folded@ == lowercase(
                    keyed@[j].entry.name@,
                ),
    {
        let ghost n = it.index() as int;
        let ghost before = keyed@;
        proof {
            assert(all[n] == item@);
            lemma_filter_take_next(all, n, real_item());
        }
        if !is_pseudo_name(item.name.as_str()) {
            let lower = to_lowercase(item.name.as_str());
            let folded = chars_of(lower.as_str());
            let entry = make_entry(path, item);
            keyed.push(KeyedEntry { entry, folded });
            proof {
                assert(keyed@.map_values(g) =~= before.map_values(g).push(entry@));
                assert(all.take(n).filter(real_item()).push(all[n]).map_values(entry_in(path@))
                    =~= all.take(n).filter(real_item()).map_values(entry_in(path@)).push(
                    entry_for(path@, all[n]),
                ));
            }
        }
    }
    let ghost built = keyed@;
    proof {
        assert(all.take(all.len() as int) =~= all);
    }
    let sorted = sort_entries(keyed);
    let mut out: Vec<FileEntry> = Vec::new();
    proof {
        assert(sorted@.take(0).map_values(g) =~= entry_views(out@));
    }
    for k in it: sorted
        invariant
            it.seq() == sorted@,
            g == entry_view_of(),
            entry_views(out@) == sorted@.take(it.index() as int).map_values(g),
    {
        let ghost n = it.index() as int;
        let ghost before = out@;
        out.push(k.entry);
        proof {
            assert(entry_views(out@) =~= entry_views(before).push(k.entry@));
            assert(sorted@.take(n + 1).map_values(g) =~= sorted@.take(n).map_values(g).push(
                g(sorted@[n]),
            ));
        }
    }
    proof {
        assert(sorted@.take(sorted@.len() as int) =~= sorted@);
        let res = sorted@.map_values(g);
        assert forall|i: int| 0 <= i < sorted@.len() implies kb(g(#[trigger] sorted@[i])) == ka(
            sorted@[i],
        ) by {
            lemma_run_member(sorted@, built, ka, i);
            let j = choose|j: int| 0 <= j < built.len() && built[j] == sorted@[i];
            assert(built[j].folded@ == lowercase(built[j].entry.name@));
        }
        assert forall|i: int, j: int| 0 <= i < j < res.len() implies !key_lt(
            #[trigger] kb(res[j]),
            #[trigger] kb(res[i]),
        ) by {
            assert(kb(g(sorted@[i])) == ka(sorted@[i]));
            assert(kb(g(sorted@[j])) == ka(sorted@[j]));
        }
        assert forall|k: SortKey| #[trigger]
            run_of(res, kb, k) == run_of(built.map_values(g), kb, k) by {
            lemma_runs_under_map(sorted@, g, ka, kb, k);
            lemma_runs_under_map(built, g, ka, kb, k);
            assert(run_of(sorted@, ka, k) == run_of(built, ka, k));
        }
    }
    out
}

/// Attributes none of which is given.
pub open spec fn no_attrs() -> FileAttrs {
    FileAttrs { size: None, uid: None, gid: None, permissions: None, atime: None, mtime: None }
}

/// Calls `FileAttributes::empty` of russh-sftp, which leaves every
/// attribute out.
#[verifier::external_body]
fn empty_attrs() -> (attrs: FileAttrs)
    ensures
        attrs == no_attrs(),
{
    let FileAttributes { size, uid, gid, permissions, atime, mtime, .. } = FileAttributes::empty();
    FileAttrs { size, uid, gid, permissions, atime, mtime }
}

/// One remote file operation, with what it works on.
#[derive(Debug, Clone)]
pub enum SftpCall {
    /// Resolve a path to its absolute form.
    Canonicalize { path: String },
    /// Read the names in a directory.
    ReadDir { path: String },
    /// Copy a remote file to a local path.
    Download { remote_path: String, local_path: String },
    /// Copy a local file to a remote path.
    Upload { local_path: String, remote_path: String },
    /// Create a directory.
    CreateDir { path: String },
    /// Remove a file.
    RemoveFile { path: String },
    /// Remove a directory.
    RemoveDir { path: String },
    /// Rename or move a file or directory.
    Rename { from: String, to: String },
    /// Set attributes of a path.
    SetMetadata { path: String, attrs: FileAttrs },
}

/// What `SftpCall` holds, as sequences.
pub enum SftpCallView {
    Canonicalize { path: Seq<char> },
    ReadDir { path: Seq<char> },
    Download { remote_path: Seq<char>, local_path: Seq<char> },
    Upload { local_path: Seq<char>, remote_path: Seq<char> },
    CreateDir { path: Seq<char> },
    RemoveFile { path: Seq<char> },
    RemoveDir { path: Seq<char> },
    Rename { from: Seq<char>, to: Seq<char> },
    SetMetadata { path: Seq<char>, attrs: FileAttrs },
}

impl View for SftpCall {
    type V = SftpCallView;

    open spec fn view(&self) -> SftpCallView {
        match self {
            SftpCall::Canonicalize { path } => SftpCallView::Canonicalize { path: path@ },
            SftpCall::ReadDir { path } => SftpCallView::ReadDir { path: path@ },
            SftpCall::Download { remote_path, local_path } => SftpCallView::Download {
                remote_path: remote_path@,
                local_path: local_path@,
            },
            SftpCall::Upload { local_path, remote_path } => SftpCallView::Upload {
                local_path: local_path@,
                remote_path: remote_path@,
            },
            SftpCall::CreateDir { path } => SftpCallView::CreateDir { path: path@ },
            SftpCall::RemoveFile { path } => SftpCallView::RemoveFile { path: path@ },
            SftpCall::RemoveDir { path } => SftpCallView::RemoveDir { path: path@ },
            SftpCall::Rename { from, to } => SftpCallView::Rename { from: from@, to: to@ },
            SftpCall::SetMetadata { path, attrs } => SftpCallView::SetMetadata {
                path: path@,
                attrs: *attrs,
            },
        }
    }
}

/// The call that resolves the home directory: the server is asked for the
/// absolute form of `.`.
pub fn get_home_dir() -> (call: SftpCall)
    ensures
        call@ == (SftpCallView::Canonicalize { path: seq!['.'] }),
{
    proof {
        reveal_strlit(".");
        assert("."@ =~= seq!['.']);
    }
    SftpCall::Canonicalize { path: ".".to_owned() }
}

/// The call that copies a remote file to a local path.
pub fn download_file(remote_path: &str, local_path: &str) -> (call: SftpCall)
    ensures
        call@ == (SftpCallView::Download { remote_path: remote_path@, local_path: local_path@ }),
{
    SftpCall::Download { remote_path: remote_path.to_owned(), local_path: local_path.to_owned() }
}

/// The call that copies a local file to a remote path.
pub fn upload_file(local_path: &str, remote_path: &str) -> (call: SftpCall)
    ensures
        call@ == (SftpCallView::Upload { local_path: local_path@, remote_path: remote_path@ }),
{
    SftpCall::Upload { local_path: local_path.to_owned(), remote_path: remote_path.to_owned() }
}

/// The call that creates a directory.
pub fn mkdir(path: &str) -> (call: SftpCall)
    ensures
        call@ == (SftpCallView::CreateDir { path: path@ }),
{
    SftpCall::CreateDir { path: path.to_owned() }
}

/// The call that removes a file.
pub fn remove_file(path: &str) -> (call: SftpCall)
    ensures
        call@ == (SftpCallView::RemoveFile { path: path@ }),
{
    SftpCall::RemoveFile { path: path.to_owned() }
}

/// The call that removes a directory.
pub fn remove_dir(path: &str) -> (call: SftpCall)
    ensures
        call@ == (SftpCallView::RemoveDir { path: path@ }),
{
    SftpCall::RemoveDir { path: path.to_owned() }
}

/// The call that renames or moves a file or directory.
pub fn rename(from: &str, to: &str) -> (call: SftpCall)
    ensures
        call@ == (SftpCallView::Rename { from: from@, to: to@ }),
{
    SftpCall::Rename { from: from.to_owned(), to: to.to_owned() }
}

/// The call that sets the permission bits of a path and nothing else.
pub fn set_permissions(path: &str, mode: u32) -> (call: SftpCall)
    ensures
        call@ == (SftpCallView::SetMetadata {
            path: path@,
            attrs: FileAttrs { permissions: Some(mode), ..no_attrs() },
        }),
{
    let attrs = FileAttrs { permissions: Some(mode), ..empty_attrs() };
    SftpCall::SetMetadata { path: path.to_owned(), attrs }
}

/// The single steps that remote file operations are made of. Each can fail
/// on its own.
#[derive(Debug, Clone, Copy, PartialEq, Eq, Structural)]
pub enum SftpStep {
    OpenChannel,
    RequestSubsystem,
    StartSession,
    Canonicalize,
    ReadDir,
    OpenRemote,
    ReadRemote,
    WriteLocal,
    ReadLocal,
    CreateRemote,
    WriteRemote,
    CloseRemote,
    CreateDir,
    RemoveFile,
    RemoveDir,
    Rename,
    SetMetadata,
}

/// The kind of error that a failure of the step is: the two steps on the
/// local file system are `Io`, the two that set the channel up are
/// `ChannelSetup`, all others are `RemoteOperation`.
pub open spec fn step_kind(step: SftpStep) -> ErrorKind {
    match step {
        SftpStep::WriteLocal | SftpStep::ReadLocal => ErrorKind::Io,
        SftpStep::OpenChannel | SftpStep::RequestSubsystem => ErrorKind::ChannelSetup,
        _ => ErrorKind::RemoteOperation,
    }
}

/// What the text of a failure of the step starts with.
pub open spec fn step_prefix(step: SftpStep) -> Seq<char> {
    match step {
        SftpStep::OpenChannel => "Failed to open SFTP channel: "@,
        SftpStep::RequestSubsystem => "Failed to request SFTP subsystem: "@,
        SftpStep::StartSession => "Failed to create SFTP session: "@,
        SftpStep::Canonicalize => "Failed to get home directory: "@,
        SftpStep::ReadDir => "Failed to read directory: "@,
        SftpStep::OpenRemote => "Failed to open remote file: "@,
        SftpStep::ReadRemote => "Failed to read remote file: "@,
        SftpStep::WriteLocal => "Failed to write local file: "@,
        SftpStep::ReadLocal => "Failed to read local file: "@,
        SftpStep::CreateRemote => "Failed to create remote file: "@,
        SftpStep::WriteRemote => "Failed to write remote file: "@,
        SftpStep::CloseRemote => "Failed to close remote file: "@,
        SftpStep::CreateDir => "Failed to create directory: "@,
        SftpStep::RemoveFile => "Failed to remove file: "@,
        SftpStep::RemoveDir => "Failed to remove directory: "@,
        SftpStep::Rename => "Failed to rename: "@,
        SftpStep::SetMetadata => "Failed to set permissions: "@,
    }
}

/// The error for a step that failed, with the reason.
pub fn step_failure(step: SftpStep, reason: &str) -> (e: SshError)
    ensures
        e.is(step_kind(step), step_prefix(step) + reason@),
{
    match step {
        SftpStep::OpenChannel => SshError::with_detail(
            ErrorKind::ChannelSetup,
            "Failed to open SFTP channel: ",
            reason,
        ),
        SftpStep::RequestSubsystem => SshError::with_detail(
            ErrorKind::ChannelSetup,
            "Failed to request SFTP subsystem: ",
            reason,
        ),
        SftpStep::StartSession => SshError::with_detail(
            ErrorKind::RemoteOperation,
            "Failed to create SFTP session: ",
            reason,
        ),
        SftpStep::Canonicalize => SshError::with_detail(
            ErrorKind::RemoteOperation,
            "Failed to get home directory: ",
            reason,
        ),
        SftpStep::ReadDir => SshError::with_detail(
            ErrorKind::RemoteOperation,
            "Failed to read directory: ",
            reason,
        ),
        SftpStep::OpenRemote => SshError::with_detail(
            ErrorKind::RemoteOperation,
            "Failed to open remote file: ",
            reason,
        ),
        SftpStep::ReadRemote => SshError::with_detail(
            ErrorKind::RemoteOperation,
            "Failed to read remote file: ",
            reason,
        ),
        SftpStep::WriteLocal => SshError::with_detail(
            ErrorKind::Io,
            "Failed to write local file: ",
            reason,
        ),
        SftpStep::ReadLocal => SshError::with_detail(
            ErrorKind::Io,
            "Failed to read local file: ",
            reason,
        ),
        SftpStep::CreateRemote => SshError::with_detail(
            ErrorKind::RemoteOperation,
            "Failed to create remote file: ",
            reason,
        ),
        SftpStep::WriteRemote => SshError::with_detail(
            ErrorKind::RemoteOperation,
            "Failed to write remote file: ",
            reason,
        ),
        SftpStep::CloseRemote => SshError::with_detail(
            ErrorKind::RemoteOperation,
            "Failed to close remote file: ",
            reason,
        ),
        SftpStep::CreateDir => SshError::with_detail(
            ErrorKind::RemoteOperation,
            "Failed to create directory: ",
            reason,
        ),
        SftpStep::RemoveFile => SshError::with_detail(
            ErrorKind::RemoteOperation,
            "Failed to remove file: ",
            reason,
        ),
        SftpStep::RemoveDir => SshError::with_detail(
            ErrorKind::RemoteOperation,
            "Failed to remove directory: ",
            reason,
        ),
        SftpStep::Rename => SshError::with_detail(
            ErrorKind::RemoteOperation,
            "Failed to rename: ",
            reason,
        ),
        SftpStep::SetMetadata => SshError::with_detail(
            ErrorKind::RemoteOperation,
            "Failed to set permissions: ",
            reason,
        ),
    }
}

/// The steps by which a link to the file service is opened on a session,
/// in order: a channel, the subsystem request, the protocol start.
pub fn open_sftp() -> (steps: Vec<SftpStep>)
    ensures
        steps@ == seq![SftpStep::OpenChannel, SftpStep::RequestSubsystem, SftpStep::StartSession],
{
    let mut steps: Vec<SftpStep> = Vec::new();
    steps.push(SftpStep::OpenChannel);
    steps.push(SftpStep::RequestSubsystem);
    steps.push(SftpStep::StartSession);
    assert(steps@ =~= seq![
        SftpStep::OpenChannel,
        SftpStep::RequestSubsystem,
        SftpStep::StartSession,
    ]);
    steps
}

/// The name of the subsystem that is requested on the channel.
pub fn subsystem() -> (name: &'static str)
    ensures
        name@ == "sftp"@,
{
    "sftp"
}

/// The steps that a call is made of, in order.
pub open spec fn steps_of(call: SftpCallView) -> Seq<SftpStep> {
    match call {
        SftpCallView::Canonicalize { .. } => seq![SftpStep::Canonicalize],
        SftpCallView::ReadDir { .. } => seq![SftpStep::ReadDir],
        SftpCallView::Download { .. } => seq![
            SftpStep::OpenRemote,
            SftpStep::ReadRemote,
            SftpStep::WriteLocal,
        ],
        SftpCallView::Upload { .. } => seq![
            SftpStep::ReadLocal,
            SftpStep::CreateRemote,
            SftpStep::WriteRemote,
            SftpStep::CloseRemote,
        ],
        SftpCallView::CreateDir { .. } => seq![SftpStep::CreateDir],
        SftpCallView::RemoveFile { .. } => seq![SftpStep::RemoveFile],
        SftpCallView::RemoveDir { .. } => seq![SftpStep::RemoveDir],
        SftpCallView::Rename { .. } => seq![SftpStep::Rename],
        SftpCallView::SetMetadata { .. } => seq![SftpStep::SetMetadata],
    }
}

impl SftpCall {
    /// The steps that the call is made of, in order.
    pub fn steps(&self) -> (steps: Vec<SftpStep>)
        ensures
            steps@ == steps_of(self@),
    {
        let mut steps: Vec<SftpStep> = Vec::new();
        match self {
            SftpCall::Canonicalize { .. } => steps.push(SftpStep::Canonicalize),
            SftpCall::ReadDir { .. } => steps.push(SftpStep::ReadDir),
            SftpCall::Download { .. } => {
                steps.push(SftpStep::OpenRemote);
                steps.push(SftpStep::ReadRemote);
                steps.push(SftpStep::WriteLocal);
            },
            SftpCall::Upload { .. } => {
                steps.push(SftpStep::ReadLocal);
                steps.push(SftpStep::CreateRemote);
                steps.push(SftpStep::WriteRemote);
                steps.push(SftpStep::CloseRemote);
            },
            SftpCall::CreateDir { .. } => steps.push(SftpStep::CreateDir),
            SftpCall::RemoveFile { .. } => steps.push(SftpStep::RemoveFile),
            SftpCall::RemoveDir { .. } => steps.push(SftpStep::RemoveDir),
            SftpCall::Rename { .. } => steps.push(SftpStep::Rename),
            SftpCall::SetMetadata { .. } => steps.push(SftpStep::SetMetadata),
        }
        assert(steps@ =~= steps_of(self@));
        steps
    }
}

} // verus!
