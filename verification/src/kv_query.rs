use vstd::prelude::*;
use vstd::string::StrSliceExecFns;
use vstd::string::StringExecFns;
use crate::error::NodegetError;
use crate::pattern::{ends_with_wildcard, wildcard_prefix};
use crate::text::{starts_with_str, str_equal};

verus! {

broadcast use vstd::seq_lib::group_to_multiset_ensures;

/// One entry of a batch read: a namespace and a key, where the key may end
/// in the wildcard `*`.
#[derive(Debug, Clone, PartialEq, Eq)]
pub struct NamespaceKeyItem {
    pub namespace: String,
    pub key: String,
}

/// The order of `str`: lexicographic by characters (the same as by UTF-8
/// bytes), a prefix before any longer text.
pub open spec fn lex_le(a: Seq<char>, b: Seq<char>) -> bool
    decreases a.len(),
{
    if a.len() == 0 {
        true
    } else if b.len() == 0 {
        false
    } else if a[0] != b[0] {
        a[0] < b[0]
    } else {
        lex_le(a.drop_first(), b.drop_first())
    }
}

/// `s` is in ascending order.
pub open spec fn is_sorted_lex(s: Seq<Seq<char>>) -> bool {
    forall|i: int, j: int| 0 <= i < j < s.len() ==> lex_le(#[trigger] s[i], #[trigger] s[j])
}

/// The texts of a vector of strings.
pub open spec fn string_views(v: Seq<String>) -> Seq<Seq<char>> {
    v.map_values(|s: String| s@)
}

/// Any two texts are ordered one way or the other.
pub proof fn lemma_lex_total(a: Seq<char>, b: Seq<char>)
    ensures
        lex_le(a, b) || lex_le(b, a),
    decreases a.len(),
{
    if a.len() > 0 && b.len() > 0 && a[0] == b[0] {
        lemma_lex_total(a.drop_first(), b.drop_first());
    }
}

/// The order is transitive.
pub proof fn lemma_lex_transitive(a: Seq<char>, b: Seq<char>, c: Seq<char>)
    requires
        lex_le(a, b),
        lex_le(b, c),
    ensures
        lex_le(a, c),
    decreases a.len(),
{
    if a.len() > 0 && b.len() > 0 && c.len() > 0 && a[0] == b[0] && b[0] == c[0] {
        lemma_lex_transitive(a.drop_first(), b.drop_first(), c.drop_first());
    }
}

proof fn lemma_lex_skip(a: Seq<char>, b: Seq<char>, i: int)
    requires
        0 <= i <= a.len(),
        i <= b.len(),
        forall|j: int| 0 <= j < i ==> a[j] == b[j],
    ensures
        lex_le(a, b) == lex_le(a.skip(i), b.skip(i)),
    decreases i,
{
    if i == 0 {
        assert(a.skip(0) =~= a);
        assert(b.skip(0) =~= b);
    } else {
        assert(a[0] == b[0]);
        lemma_lex_skip(a.drop_first(), b.drop_first(), i - 1);
        assert(a.drop_first().skip(i - 1) =~= a.skip(i));
        assert(b.drop_first().skip(i - 1) =~= b.skip(i));
    }
}

/// Whether `a` comes before or equals `b` in the order of `str`.
pub fn str_le(a: &str, b: &str) -> (r: bool)
    ensures
        r == lex_le(a@, b@),
{
    let n = a.unicode_len();
    let m = b.unicode_len();
    let mut i: usize = 0;
    while i < n && i < m && a.get_char(i) == b.get_char(i)
        invariant
            n == a@.len(),
            m == b@.len(),
            i <= n,
            i <= m,
            forall|j: int| 0 <= j < i ==> a@[j] == b@[j],
        decreases n - i,
    {
        i = i + 1;
    }
    proof {
        lemma_lex_skip(a@, b@, i as int);
    }
    if i == n {
        true
    } else if i == m {
        false
    } else {
        a.get_char(i) < b.get_char(i)
    }
}

/// The keys of `keys` that start with `prefix`, in ascending order (each key
/// as often as it occurs in `keys`): the keys a wildcard read returns.
pub fn matching_keys_sorted(keys: &Vec<String>, prefix: &str) -> (r: Vec<String>)
    ensures
        is_sorted_lex(string_views(r@)),
        string_views(r@).to_multiset() == string_views(keys@).filter(|k: Seq<char>| prefix@.is_prefix_of(k)).to_multiset(),
{
    let ghost pred = |k: Seq<char>| prefix@.is_prefix_of(k);
    let mut r: Vec<String> = Vec::new();
    let mut i: usize = 0;
    while i < keys.len()
        invariant
            i <= keys@.len(),
            pred == (|k: Seq<char>| prefix@.is_prefix_of(k)),
            is_sorted_lex(string_views(r@)),
            string_views(r@).to_multiset() == string_views(keys@).subrange(0, i as int).filter(pred).to_multiset(),
        decreases keys@.len() - i,
    {
        proof {
            reveal_with_fuel(Seq::<_>::filter, 1);
            assert(string_views(keys@).subrange(0, i + 1).drop_last() =~= string_views(keys@).subrange(0, i as int));
        }
        let key = &keys[i];
        if starts_with_str(key.as_str(), prefix) {
            let ghost old_views = string_views(r@);
            let mut p: usize = 0;
            while p < r.len() && str_le(r[p].as_str(), key.as_str())
                invariant
                    p <= r@.len(),
                    old_views == string_views(r@),
                    forall|j: int| 0 <= j < p ==> lex_le(#[trigger] old_views[j], key@),
                decreases r@.len() - p,
            {
                p = p + 1;
            }
            proof {
                if p < r@.len() {
                    lemma_lex_total(old_views[p as int], key@);
                    assert forall|q: int| p <= q < old_views.len() implies lex_le(key@, #[trigger] old_views[q]) by {
                        if q > p {
                            lemma_lex_transitive(key@, old_views[p as int], old_views[q]);
                        }
                    }
                }
            }
            r.insert(p, key.clone());
            proof {
                let nv = string_views(r@);
                assert(nv =~= old_views.insert(p as int, key@));
                assert forall|a: int, b: int| 0 <= a < b < nv.len() implies lex_le(#[trigger] nv[a], #[trigger] nv[b]) by {
                    if b < p {
                        assert(nv[a] == old_views[a]);
                        assert(nv[b] == old_views[b]);
                    } else if a < p && b == p {
                        assert(nv[a] == old_views[a]);
                    } else if a < p && b > p {
                        assert(nv[a] == old_views[a]);
                        assert(nv[b] == old_views[b - 1]);
                    } else if a == p {
                        assert(nv[b] == old_views[b - 1]);
                    } else {
                        assert(nv[a] == old_views[a - 1]);
                        assert(nv[b] == old_views[b - 1]);
                    }
                }
                vstd::seq_lib::to_multiset_insert(old_views, p as int, key@);
            }
        }
        i = i + 1;
    }
    assert(string_views(keys@).subrange(0, keys@.len() as int) =~= string_views(keys@));
    r
}

/// The message for an empty batch read.
pub open spec fn empty_batch_message() -> Seq<char> {
    "namespace_key cannot be empty"@
}

/// The message for a batch entry without a namespace.
pub open spec fn empty_namespace_message() -> Seq<char> {
    "namespace cannot be empty"@
}

/// Rejects an empty batch read.
pub fn check_namespace_key_request(items: &Vec<NamespaceKeyItem>) -> (r: Result<(), NodegetError>)
    ensures
        items@.len() == 0 ==> (r matches Err(NodegetError::InvalidInput(m)) && m@ == empty_batch_message()),
        items@.len() > 0 ==> r is Ok,
{
    if items.len() == 0 {
        return Err(NodegetError::InvalidInput(String::from_str("namespace_key cannot be empty")));
    }
    Ok(())
}

/// Rejects a batch entry whose namespace is empty.
pub fn check_namespace_key_item(item: &NamespaceKeyItem) -> (r: Result<(), NodegetError>)
    ensures
        item.namespace@.len() == 0 ==> (r matches Err(NodegetError::InvalidInput(m)) && m@ == empty_namespace_message()),
        item.namespace@.len() > 0 ==> r is Ok,
{
    if item.namespace.as_str().is_empty() {
        return Err(NodegetError::InvalidInput(String::from_str("namespace cannot be empty")));
    }
    Ok(())
}

/// The keys held by the first loaded namespace named `ns`, if one is loaded.
pub open spec fn loaded_keys(stores: Seq<(String, Vec<String>)>, ns: Seq<char>) -> Option<Seq<Seq<char>>>
    decreases stores.len(),
{
    if stores.len() == 0 {
        None
    } else if stores[0].0@ == ns {
        Some(string_views(stores[0].1@))
    } else {
        loaded_keys(stores.drop_first(), ns)
    }
}

/// The texts of the keys of a list of entries.
pub open spec fn entry_keys(entries: Seq<NamespaceKeyItem>) -> Seq<Seq<char>> {
    entries.map_values(|e: NamespaceKeyItem| e.key@)
}

/// What one requested entry of a batch read contributes to the reply, in
/// order: an exact key gives itself (its value is null when the key is
/// missing); a key ending in `*` gives, when its namespace exists, every key
/// of that namespace that starts with the text before the `*`, in ascending
/// order, and nothing when the namespace does not exist.
pub open spec fn multi_value_segment(
    item: NamespaceKeyItem,
    stores: Seq<(String, Vec<String>)>,
    seg: Seq<NamespaceKeyItem>,
) -> bool {
    if !ends_with_wildcard(item.key@) {
        seg.len() == 1 && seg[0].namespace@ == item.namespace@ && seg[0].key@ == item.key@
    } else {
        match loaded_keys(stores, item.namespace@) {
            None => seg.len() == 0,
            Some(keys) => {
                &&& forall|u: int| 0 <= u < seg.len() ==> (#[trigger] seg[u]).namespace@ == item.namespace@
                &&& is_sorted_lex(entry_keys(seg))
                &&& entry_keys(seg).to_multiset() == keys.filter(
                    |k: Seq<char>| item.key@.drop_last().is_prefix_of(k),
                ).to_multiset()
            },
        }
    }
}

fn find_loaded(stores: &Vec<(String, Vec<String>)>, ns: &str) -> (r: Option<usize>)
    ensures
        match r {
            Some(j) => j < stores@.len() && loaded_keys(stores@, ns@) == Some(string_views(stores@[j as int].1@)),
            None => loaded_keys(stores@, ns@) is None,
        },
{
    let mut j: usize = 0;
    assert(stores@.subrange(0, stores@.len() as int) =~= stores@);
    while j < stores.len()
        invariant
            j <= stores@.len(),
            loaded_keys(stores@, ns@) == loaded_keys(stores@.subrange(j as int, stores@.len() as int), ns@),
        decreases stores@.len() - j,
    {
        let ghost rest = stores@.subrange(j as int, stores@.len() as int);
        assert(rest[0] == stores@[j as int]);
        if str_equal(stores[j].0.as_str(), ns) {
            return Some(j);
        }
        assert(rest.drop_first() =~= stores@.subrange(j + 1, stores@.len() as int));
        j = j + 1;
    }
    None
}

/// Lays out the reply of a batch read: for each requested entry, in request
/// order, the (namespace, key) pairs it contributes (see
/// `multi_value_segment`). `stores` lists the keys of each namespace that
/// exists; the values are then read from those namespaces, null for a
/// missing exact key.
pub fn plan_multi_value(items: &Vec<NamespaceKeyItem>, stores: &Vec<(String, Vec<String>)>) -> (r: Vec<
    Vec<NamespaceKeyItem>,
>)
    ensures
        r@.len() == items@.len(),
        forall|i: int| 0 <= i < items@.len() ==> multi_value_segment(items@[i], stores@, #[trigger] r@[i]@),
{
    let mut out: Vec<Vec<NamespaceKeyItem>> = Vec::new();
    let mut i: usize = 0;
    while i < items.len()
        invariant
            i <= items@.len(),
            out@.len() == i,
            forall|k: int| 0 <= k < i ==> multi_value_segment(items@[k], stores@, #[trigger] out@[k]@),
        decreases items@.len() - i,
    {
        let item = &items[i];
        let mut seg: Vec<NamespaceKeyItem> = Vec::new();
        match wildcard_prefix(item.key.as_str()) {
            None => {
                seg.push(
                    NamespaceKeyItem {
                        namespace: String::from_str(item.namespace.as_str()),
                        key: String::from_str(item.key.as_str()),
                    },
                );
            },
            Some(prefix) => {
                match find_loaded(stores, item.namespace.as_str()) {
                    None => {},
                    Some(j) => {
                        let keys = matching_keys_sorted(&stores[j].1, prefix);
                        let mut t: usize = 0;
                        while t < keys.len()
                            invariant
                                t <= keys@.len(),
                                seg@.len() == t,
                                forall|u: int|
                                    0 <= u < t ==> (#[trigger] seg@[u]).namespace@ == item.namespace@
                                        && seg@[u].key@ == keys@[u]@,
                            decreases keys@.len() - t,
                        {
                            seg.push(
                                NamespaceKeyItem {
                                    namespace: String::from_str(item.namespace.as_str()),
                                    key: String::from_str(keys[t].as_str()),
                                },
                            );
                            t = t + 1;
                        }
                        assert(entry_keys(seg@) =~= string_views(keys@));
                    },
                }
            },
        }
        proof {
            assert(multi_value_segment(items@[i as int], stores@, seg@));
        }
        out.push(seg);
        i = i + 1;
    }
    out
}

} // verus!
