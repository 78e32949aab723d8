//! The content transformation: drop drafts, group the published entries by
//! collection, sort every collection by date in descending order, and
//! assemble the result document.
use vstd::prelude::*;

use crate::json::{field_of, jv, jv_fields, jvs, lemma_jv_fields_index, lemma_jvs_index, Json, Jv};
use crate::lex::{lemma_lex_ge_total, lex_ge};
use vstd::multiset::Multiset;

verus! {

/// An entry is a draft when its `draft` field is the boolean `true`; an
/// absent `draft` field or one of any other shape publishes the entry.
pub open spec fn is_draft(e: Jv) -> bool {
    field_of(e, "draft"@) == Some(Jv::Bool(true))
}

/// The collection an entry belongs to: its `collection` field when that is
/// a string, and `posts` otherwise.
pub open spec fn coll_of(e: Jv) -> Seq<char> {
    match field_of(e, "collection"@) {
        Some(Jv::Str(s)) => s,
        _ => "posts"@,
    }
}

/// The entry's date as a raw string; an absent or non-string `date` field
/// counts as the empty string.
pub open spec fn date_of(e: Jv) -> Seq<char> {
    match field_of(e, "date"@) {
        Some(Jv::Str(s)) => s,
        _ => Seq::empty(),
    }
}

/// The entry list of an index document: its `entries` field when that is an
/// array, and empty otherwise.
pub open spec fn entries_of(d: Jv) -> Seq<Jv> {
    match field_of(d, "entries"@) {
        Some(Jv::Arr(a)) => a,
        _ => Seq::empty(),
    }
}

/// The published entries: every entry that is not a draft, in their
/// original relative order.
pub open spec fn published_of(entries: Seq<Jv>) -> Seq<Jv> {
    entries.filter(|e: Jv| !is_draft(e))
}

/// The published entries that belong to the collection `name`, in their
/// original relative order.
pub open spec fn bucket_of(p: Seq<Jv>, name: Seq<char>) -> Seq<Jv> {
    p.filter(|e: Jv| coll_of(e) == name)
}

/// The distinct non-default collection names among the entries of `p`, in
/// order of first occurrence.
pub open spec fn names_fo(p: Seq<Jv>) -> Seq<Seq<char>>
    decreases p.len(),
{
    if p.len() == 0 {
        Seq::empty()
    } else {
        let pre = names_fo(p.drop_last());
        let n = coll_of(p.last());
        if n == "posts"@ || pre.contains(n) {
            pre
        } else {
            pre.push(n)
        }
    }
}

/// The names of the collections the result document materializes: the
/// non-default names in order of first occurrence, and the default
/// collection last, only when a published entry falls into it.
pub open spec fn coll_names(p: Seq<Jv>) -> Seq<Seq<char>> {
    if bucket_of(p, "posts"@).len() > 0 {
        names_fo(p).push("posts"@)
    } else {
        names_fo(p)
    }
}

/// `e` inserted into `s` behind every entry whose date is lexicographically
/// at least `e`'s.
pub open spec fn insert_desc(s: Seq<Jv>, e: Jv) -> Seq<Jv>
    decreases s.len(),
{
    if s.len() > 0 && lex_ge(date_of(s.first()), date_of(e)) {
        seq![s.first()] + insert_desc(s.drop_first(), e)
    } else {
        seq![e] + s
    }
}

/// Insertion sort by date, descending: entries are inserted left to right.
pub open spec fn sort_desc(s: Seq<Jv>) -> Seq<Jv>
    decreases s.len(),
{
    if s.len() == 0 {
        Seq::empty()
    } else {
        insert_desc(sort_desc(s.drop_last()), s.last())
    }
}

/// Every adjacent pair is in descending date order.
pub open spec fn sorted_desc(s: Seq<Jv>) -> bool {
    forall|i: int| 0 <= i < s.len() - 1 ==> lex_ge(date_of(#[trigger] s[i]), date_of(s[i + 1]))
}

/// The `collections` object of the result document: one field per
/// materialized collection, holding its entries sorted by date descending.
pub open spec fn collections_of(p: Seq<Jv>) -> Seq<(Seq<char>, Jv)> {
    coll_names(p).map_values(|n: Seq<char>| (n, Jv::Arr(sort_desc(bucket_of(p, n)))))
}

/// The result document computed from an index document `d` and the
/// timestamp `ts`: the published entries in original order, the collections
/// object, and the timestamp.
pub open spec fn transform_spec(d: Jv, ts: Seq<char>) -> Jv {
    let p = published_of(entries_of(d));
    Jv::Obj(
        seq![
            ("collections"@, Jv::Obj(collections_of(p))),
            ("entries"@, Jv::Arr(p)),
            ("generated_at"@, Jv::Str(ts)),
        ],
    )
}

/// Inserting at the first position whose date is below `e`'s is what
/// `insert_desc` computes.
pub proof fn lemma_insert_desc_at(s: Seq<Jv>, e: Jv, k: int)
    requires
        0 <= k <= s.len(),
        forall|j: int| 0 <= j < k ==> lex_ge(date_of(s[j]), date_of(e)),
        k < s.len() ==> !lex_ge(date_of(s[k]), date_of(e)),
    ensures
        insert_desc(s, e) == s.take(k) + seq![e] + s.skip(k),
    decreases k,
{
    if k == 0 {
        if s.len() > 0 && lex_ge(date_of(s.first()), date_of(e)) {
            assert(false);
        }
        assert(seq![e] + s =~= s.take(0) + seq![e] + s.skip(0));
    } else {
        lemma_insert_desc_at(s.drop_first(), e, k - 1);
        assert(seq![s.first()] + (s.drop_first().take(k - 1) + seq![e] + s.drop_first().skip(k
            - 1)) =~= s.take(k) + seq![e] + s.skip(k));
    }
}

/// Insertion keeps the descending order.
pub proof fn lemma_insert_desc_sorted(s: Seq<Jv>, e: Jv)
    requires
        sorted_desc(s),
    ensures
        sorted_desc(insert_desc(s, e)),
    decreases s.len(),
{
    if s.len() > 0 && lex_ge(date_of(s.first()), date_of(e)) {
        assert(sorted_desc(s.drop_first())) by {
            assert(forall|i: int|
                0 <= i < s.drop_first().len() - 1 ==> lex_ge(
                    date_of(#[trigger] s.drop_first()[i]),
                    date_of(s.drop_first()[i + 1]),
                )) by {
                assert(forall|i: int|
                    0 <= i < s.len() - 1 ==> lex_ge(date_of(#[trigger] s[i]), date_of(s[i + 1])));
            }
        }
        lemma_insert_desc_sorted(s.drop_first(), e);
        let t = insert_desc(s.drop_first(), e);
        let r = seq![s.first()] + t;
        assert(t.len() > 0);
        assert(t[0] == s.drop_first()[0] || t[0] == e);
        assert(lex_ge(date_of(r[0]), date_of(r[1])));
        assert(forall|i: int| 1 <= i < r.len() - 1 ==> #[trigger] r[i] == t[i - 1] && r[i + 1] == t[i]);
    } else {
        lemma_lex_ge_total(date_of(if s.len() > 0 {
            s.first()
        } else {
            e
        }), date_of(e));
        let r = seq![e] + s;
        assert(forall|i: int| 1 <= i < r.len() - 1 ==> #[trigger] r[i] == s[i - 1] && r[i + 1] == s[i]);
    }
}

/// Insertion adds exactly `e` to the entries.
pub proof fn lemma_insert_desc_multiset(s: Seq<Jv>, e: Jv)
    ensures
        insert_desc(s, e).to_multiset() == s.to_multiset().insert(e),
    decreases s.len(),
{
    broadcast use vstd::seq_lib::group_to_multiset_ensures;

    if s.len() > 0 && lex_ge(date_of(s.first()), date_of(e)) {
        lemma_insert_desc_multiset(s.drop_first(), e);
        assert(seq![s.first()] + insert_desc(s.drop_first(), e) =~= insert_desc(
            s.drop_first(),
            e,
        ).insert(0, s.first()));
        vstd::seq_lib::lemma_multiset_commutative(seq![s.first()], insert_desc(s.drop_first(), e));
        assert(seq![s.first()].to_multiset() =~= Multiset::empty().insert(s.first()));
        assert(s =~= seq![s.first()] + s.drop_first());
        vstd::seq_lib::lemma_multiset_commutative(seq![s.first()], s.drop_first());
        assert(insert_desc(s, e).to_multiset() =~= s.to_multiset().insert(e));
    } else {
        vstd::seq_lib::lemma_multiset_commutative(seq![e], s);
        assert(seq![e].to_multiset() =~= Multiset::empty().insert(e));
        assert(insert_desc(s, e).to_multiset() =~= s.to_multiset().insert(e));
    }
}

/// The sorted collection holds exactly the entries it was sorted from.
pub proof fn lemma_sort_desc_multiset(s: Seq<Jv>)
    ensures
        sort_desc(s).to_multiset() == s.to_multiset(),
    decreases s.len(),
{
    broadcast use vstd::seq_lib::group_to_multiset_ensures;

    if s.len() > 0 {
        lemma_sort_desc_multiset(s.drop_last());
        lemma_insert_desc_multiset(sort_desc(s.drop_last()), s.last());
        assert(s =~= s.drop_last().push(s.last()));
    }
}

/// Within any collection, each adjacent pair of entries is in descending
/// date order.
pub proof fn lemma_sort_desc_sorted(s: Seq<Jv>)
    ensures
        sorted_desc(sort_desc(s)),
    decreases s.len(),
{
    if s.len() > 0 {
        lemma_sort_desc_sorted(s.drop_last());
        lemma_insert_desc_sorted(sort_desc(s.drop_last()), s.last());
    }
}

/// Sorting neither invents nor loses entries: membership is unchanged.
pub proof fn lemma_sort_desc_contains(s: Seq<Jv>, e: Jv)
    ensures
        sort_desc(s).contains(e) == s.contains(e),
{
    broadcast use vstd::seq_lib::group_to_multiset_ensures;

    lemma_sort_desc_multiset(s);
    assert(sort_desc(s).to_multiset().count(e) == s.to_multiset().count(e));
    assert(s.contains(e) <==> s.to_multiset().count(e) > 0);
    assert(sort_desc(s).contains(e) <==> sort_desc(s).to_multiset().count(e) > 0);
}

/// The first-occurrence name list holds no duplicate, never the default
/// name, and exactly the non-default collection names of the entries.
pub proof fn lemma_names_fo(p: Seq<Jv>)
    ensures
        forall|k1: int, k2: int|
            0 <= k1 < k2 < names_fo(p).len() ==> names_fo(p)[k1] != names_fo(p)[k2],
        !names_fo(p).contains("posts"@),
        forall|j: int|
            0 <= j < p.len() && coll_of(#[trigger] p[j]) != "posts"@ ==> names_fo(p).contains(
                coll_of(p[j]),
            ),
        forall|k: int|
            0 <= k < names_fo(p).len() ==> exists|j: int|
                0 <= j < p.len() && coll_of(#[trigger] p[j]) == #[trigger] names_fo(p)[k],
    decreases p.len(),
{
    if p.len() > 0 {
        lemma_names_fo(p.drop_last());
        let pre = names_fo(p.drop_last());
        let n = coll_of(p.last());
        assert(forall|j: int| 0 <= j < p.len() - 1 ==> p.drop_last()[j] == p[j]);
        if !(n == "posts"@ || pre.contains(n)) {
            assert(forall|k: int|
                0 <= k < pre.len() ==> #[trigger] pre[k] == names_fo(p)[k]);
            assert(names_fo(p)[pre.len() as int] == n);
            assert(coll_of(p[p.len() - 1]) == n);
        }
    }
}

/// The entries of the `k`-th materialized collection, in output order.
pub open spec fn coll_items(p: Seq<Jv>, k: int) -> Seq<Jv> {
    sort_desc(bucket_of(p, coll_names(p)[k]))
}

/// What a filter keeps was in the original sequence.
proof fn lemma_filter_in_original(s: Seq<Jv>, pred: spec_fn(Jv) -> bool, i: int)
    requires
        0 <= i < s.filter(pred).len(),
    ensures
        s.contains(s.filter(pred)[i]),
    decreases s.len(),
{
    reveal(Seq::filter);
    if s.len() > 0 {
        let fd = s.drop_last().filter(pred);
        if i < fd.len() {
            lemma_filter_in_original(s.drop_last(), pred, i);
            let j = choose|j: int| 0 <= j < s.drop_last().len() && s.drop_last()[j] == fd[i];
            assert(s[j] == s.filter(pred)[i]);
        } else {
            assert(s.filter(pred)[i] == s.last());
        }
    }
}

/// Sorting keeps the number of entries.
pub proof fn lemma_sort_desc_len(s: Seq<Jv>)
    ensures
        sort_desc(s).len() == s.len(),
{
    broadcast use vstd::seq_lib::group_to_multiset_ensures;

    lemma_sort_desc_multiset(s);
    assert(sort_desc(s).to_multiset().len() == sort_desc(s).len());
    assert(s.to_multiset().len() == s.len());
}

/// Every entry with `draft: true` is absent from the flat `entries` output
/// and from every materialized collection: whatever those hold is not a
/// draft.
pub proof fn lemma_drafts_excluded(entries: Seq<Jv>)
    ensures
        forall|i: int|
            0 <= i < published_of(entries).len() ==> !is_draft(
                #[trigger] published_of(entries)[i],
            ),
        forall|k: int, i: int|
            0 <= k < coll_names(published_of(entries)).len() && 0 <= i < coll_items(
                published_of(entries),
                k,
            ).len() ==> !is_draft(#[trigger] coll_items(published_of(entries), k)[i]),
{
    broadcast use vstd::seq_lib::group_filter_ensures;
    broadcast use vstd::seq_lib::group_to_multiset_ensures;

    let p = published_of(entries);
    assert forall|k: int, i: int|
        0 <= k < coll_names(p).len() && 0 <= i < coll_items(p, k).len() implies !is_draft(
        #[trigger] coll_items(p, k)[i],
    ) by {
        let b = bucket_of(p, coll_names(p)[k]);
        lemma_sort_desc_multiset(b);
        assert(coll_items(p, k).contains(coll_items(p, k)[i]));
        lemma_sort_desc_contains(b, coll_items(p, k)[i]);
        let j = choose|j: int| 0 <= j < b.len() && b[j] == coll_items(p, k)[i];
        lemma_filter_in_original(p, |e: Jv| coll_of(e) == coll_names(p)[k], j);
    }
}

/// A published entry appears in exactly one collection: the one named by
/// its `collection` value (`posts` by default), which is materialized; the
/// names of the materialized collections are distinct.
pub proof fn lemma_entry_in_one_collection(entries: Seq<Jv>, i: int)
    requires
        0 <= i < published_of(entries).len(),
    ensures
        coll_names(published_of(entries)).contains(coll_of(published_of(entries)[i])),
        forall|k: int|
            0 <= k < coll_names(published_of(entries)).len() ==> (#[trigger] coll_items(
                published_of(entries),
                k,
            ).contains(published_of(entries)[i]) <==> coll_names(published_of(entries))[k]
                == coll_of(published_of(entries)[i])),
        forall|k1: int, k2: int|
            0 <= k1 < k2 < coll_names(published_of(entries)).len() ==> #[trigger] coll_names(
                published_of(entries),
            )[k1] != #[trigger] coll_names(published_of(entries))[k2],
{
    broadcast use vstd::seq_lib::group_filter_ensures;

    let p = published_of(entries);
    let e = p[i];
    lemma_names_fo(p);
    if coll_of(e) == "posts"@ {
        assert(bucket_of(p, "posts"@).contains(e));
        assert(bucket_of(p, "posts"@).len() > 0);
        assert(coll_names(p) == names_fo(p).push("posts"@));
        assert(coll_names(p)[coll_names(p).len() - 1] == "posts"@);
        assert(coll_names(p).contains(coll_of(e)));
    } else {
        assert(names_fo(p).contains(coll_of(e)));
        let k = choose|k: int| 0 <= k < names_fo(p).len() && names_fo(p)[k] == coll_of(e);
        assert(coll_names(p)[k] == coll_of(e));
        assert(coll_names(p).contains(coll_of(e)));
    }
    assert forall|k: int| 0 <= k < coll_names(p).len() implies (#[trigger] coll_items(
        p,
        k,
    ).contains(e) <==> coll_names(p)[k] == coll_of(e)) by {
        let n = coll_names(p)[k];
        let b = bucket_of(p, n);
        lemma_sort_desc_contains(b, e);
        if n == coll_of(e) {
            assert(b.contains(e));
        }
        if b.contains(e) {
            let j = choose|j: int| 0 <= j < b.len() && b[j] == e;
            assert(coll_of(b[j]) == n);
        }
    }
}

/// A collection is materialized only when it has at least one entry; in
/// particular the key `posts` is absent when the default collection ends up
/// empty.
pub proof fn lemma_empty_collections_omitted(entries: Seq<Jv>)
    ensures
        coll_names(published_of(entries)).contains("posts"@) <==> bucket_of(
            published_of(entries),
            "posts"@,
        ).len() > 0,
        forall|k: int|
            0 <= k < coll_names(published_of(entries)).len() ==> #[trigger] coll_items(
                published_of(entries),
                k,
            ).len() > 0,
{
    broadcast use vstd::seq_lib::group_filter_ensures;

    let p = published_of(entries);
    lemma_names_fo(p);
    if coll_names(p).contains("posts"@) {
        let k = choose|k: int| 0 <= k < coll_names(p).len() && coll_names(p)[k] == "posts"@;
        if bucket_of(p, "posts"@).len() == 0 {
            assert(coll_names(p) == names_fo(p));
            assert(names_fo(p).contains("posts"@));
        }
    }
    if bucket_of(p, "posts"@).len() > 0 {
        assert(coll_names(p)[coll_names(p).len() - 1] == "posts"@);
        assert(coll_names(p).contains("posts"@));
    }
    assert forall|k: int| 0 <= k < coll_names(p).len() implies #[trigger] coll_items(
        p,
        k,
    ).len() > 0 by {
        let n = coll_names(p)[k];
        lemma_sort_desc_len(bucket_of(p, n));
        if k < names_fo(p).len() {
            let j = choose|j: int| 0 <= j < p.len() && coll_of(#[trigger] p[j]) == names_fo(p)[k];
            assert(bucket_of(p, n).contains(p[j]));
        } else {
            assert(n == "posts"@);
        }
    }
}

/// Every materialized collection is sorted: each adjacent pair of entries
/// is in descending date order.
pub proof fn lemma_collections_sorted(entries: Seq<Jv>)
    ensures
        forall|k: int|
            0 <= k < coll_names(published_of(entries)).len() ==> sorted_desc(
                #[trigger] coll_items(published_of(entries), k),
            ),
{
    assert forall|k: int| 0 <= k < coll_names(published_of(entries)).len() implies sorted_desc(
        #[trigger] coll_items(published_of(entries), k),
    ) by {
        lemma_sort_desc_sorted(bucket_of(published_of(entries), coll_names(published_of(entries))[k]));
    }
}

/// Transforming the same document twice gives the same result document but
/// for the `generated_at` field, which holds the timestamp of each run.
pub proof fn lemma_timestamp_only_difference(d: Jv, t1: Seq<char>, t2: Seq<char>)
    ensures
        transform_spec(d, t1)->Obj_0.len() == 3,
        transform_spec(d, t2)->Obj_0.len() == 3,
        transform_spec(d, t1)->Obj_0[0] == transform_spec(d, t2)->Obj_0[0],
        transform_spec(d, t1)->Obj_0[1] == transform_spec(d, t2)->Obj_0[1],
        transform_spec(d, t1)->Obj_0[2] == ("generated_at"@, Jv::Str(t1)),
        transform_spec(d, t2)->Obj_0[2] == ("generated_at"@, Jv::Str(t2)),
{
}

/// Whether the entry is a draft.
pub fn is_draft_exec(e: &Json) -> (r: bool)
    ensures
        r == is_draft(jv(*e)),
{
    match e.get("draft") {
        Some(Json::Bool(b)) => *b,
        Some(v) => {
            proof {
                assert(!(jv(*v) is Bool));
            }
            false
        },
        None => false,
    }
}

/// The string `posts`, the default collection name.
fn posts_string() -> (r: String)
    ensures
        r@ == "posts"@,
{
    String::from_str("posts")
}

/// The collection name of the entry.
pub fn collection_name(e: &Json) -> (r: String)
    ensures
        r@ == coll_of(jv(*e)),
{
    match e.get("collection") {
        Some(Json::Str(s)) => s.clone(),
        Some(v) => {
            proof {
                assert(!(jv(*v) is Str));
            }
            posts_string()
        },
        None => posts_string(),
    }
}

/// The entry's date string.
fn date_str<'a>(e: &'a Json) -> (r: &'a str)
    ensures
        r@ == date_of(jv(*e)),
{
    match e.get("date") {
        Some(Json::Str(s)) => s.as_str(),
        Some(v) => {
            proof {
                assert(!(jv(*v) is Str));
                reveal_strlit("");
                assert(""@ =~= Seq::<char>::empty());
            }
            ""
        },
        None => {
            proof {
                reveal_strlit("");
                assert(""@ =~= Seq::<char>::empty());
            }
            ""
        },
    }
}

/// Whether `a`'s date is lexicographically at least `b`'s.
fn date_ge(a: &Json, b: &Json) -> (r: bool)
    ensures
        r == lex_ge(date_of(jv(*a)), date_of(jv(*b))),
{
    crate::lex::str_lex_ge(date_str(a), date_str(b))
}

/// The first position in `list` whose entry's date is below `e`'s.
#[verifier::loop_isolation(false)]
fn find_insert_pos(list: &Vec<Json>, e: &Json) -> (k: usize)
    ensures
        0 <= k <= list@.len(),
        forall|j: int| 0 <= j < k ==> lex_ge(date_of(jv(list@[j])), date_of(jv(*e))),
        k < list@.len() ==> !lex_ge(date_of(jv(list@[k as int])), date_of(jv(*e))),
{
    let mut k: usize = 0;
    while k < list.len()
        invariant
            0 <= k <= list@.len(),
            forall|j: int| 0 <= j < k ==> lex_ge(date_of(jv(list@[j])), date_of(jv(*e))),
        decreases list@.len() - k,
    {
        if !date_ge(&list[k], e) {
            return k;
        }
        k += 1;
    }
    k
}

/// `e` inserted into the sorted list behind the entries whose dates are at
/// least its own.
fn insert_by_date(list: Vec<Json>, e: Json) -> (r: Vec<Json>)
    ensures
        jvs(r@) == insert_desc(jvs(list@), jv(e)),
{
    let ghost l0 = list@;
    let k = find_insert_pos(&list, &e);
    let mut list = list;
    list.insert(k, e);
    proof {
        lemma_jvs_index(l0);
        lemma_jvs_index(list@);
        lemma_insert_desc_at(jvs(l0), jv(e), k as int);
        assert(jvs(list@) =~= jvs(l0).take(k as int) + seq![jv(e)] + jvs(l0).skip(k as int));
    }
    list
}

/// The entries sorted by their `date` field in descending lexicographic
/// order.
#[verifier::loop_isolation(false)]
pub fn sort_by_date_desc(arr: Vec<Json>) -> (r: Vec<Json>)
    ensures
        jvs(r@) == sort_desc(jvs(arr@)),
{
    let ghost a0 = arr@;
    let mut rest = arr;
    let mut out: Vec<Json> = Vec::new();
    while rest.len() > 0
        invariant
            rest@.len() <= a0.len(),
            rest@ =~= a0.skip(a0.len() - rest@.len()),
            jvs(out@) == sort_desc(jvs(a0.take(a0.len() - rest@.len()))),
        decreases rest@.len(),
    {
        let ghost i = a0.len() - rest@.len();
        let e = rest.remove(0);
        proof {
            assert(e == a0[i]);
            assert(rest@ =~= a0.skip(i + 1));
            lemma_jvs_index(a0.take(i));
            lemma_jvs_index(a0.take(i + 1));
            assert(jvs(a0.take(i + 1)).drop_last() =~= jvs(a0.take(i)));
            assert(jvs(a0.take(i + 1)).last() == jv(a0[i]));
        }
        out = insert_by_date(out, e);
    }
    proof {
        assert(a0.take(a0.len() as int) =~= a0);
    }
    out
}

/// The bucket already created for `name`, if any.
#[verifier::loop_isolation(false)]
fn find_bucket(named: &Vec<(String, Vec<Json>)>, name: &String) -> (r: Option<usize>)
    ensures
        match r {
            Some(k) => k < named@.len() && named@[k as int].0@ == name@,
            None => forall|k: int| 0 <= k < named@.len() ==> (#[trigger] named@[k]).0@ != name@,
        },
{
    let mut k: usize = 0;
    while k < named.len()
        invariant
            0 <= k <= named@.len(),
            forall|j: int| 0 <= j < k ==> (#[trigger] named@[j]).0@ != name@,
        decreases named@.len() - k,
    {
        if crate::json::str_eq(named[k].0.as_str(), name.as_str()) {
            return Some(k);
        }
        k += 1;
    }
    None
}

/// The result document computed from the index document `doc` and the
/// timestamp `generated_at`, as [`transform_spec`] states.
#[verifier::loop_isolation(false)]
#[verifier::rlimit(30)]
pub fn transform(doc: Json, generated_at: String) -> (r: Json)
    ensures
        jv(r) == transform_spec(jv(doc), generated_at@),
{
    let entries: Vec<Json> = match doc.get("entries") {
        Some(Json::Arr(a)) => crate::json::duplicate_list(a),
        Some(v) => {
            proof {
                assert(!(jv(*v) is Arr));
            }
            Vec::new()
        },
        None => Vec::new(),
    };
    let ghost ent = entries_of(jv(doc));
    proof {
        lemma_jvs_index(entries@);
        assert(jvs(entries@) =~= ent);
    }

    let mut published: Vec<Json> = Vec::new();
    let mut i: usize = 0;
    while i < entries.len()
        invariant
            0 <= i <= entries@.len(),
            jvs(entries@) == ent,
            jvs(published@) == published_of(ent.take(i as int)),
        decreases entries@.len() - i,
    {
        let ghost pre = ent.take(i as int);
        let ghost nxt = ent.take(i + 1);
        let ghost pub0 = published@;
        let keep = !is_draft_exec(&entries[i]);
        if keep {
            let d = entries[i].duplicate();
            published.push(d);
        }
        proof {
            reveal(Seq::filter);
            lemma_jvs_index(entries@);
            assert(nxt.drop_last() =~= pre);
            assert(nxt.drop_last() == pre);
            assert(nxt.last() == ent[i as int]);
            assert(keep == !is_draft(ent[i as int]));
            lemma_jvs_index(pub0);
            lemma_jvs_index(published@);
            if keep {
                assert(jvs(published@) =~= jvs(pub0).push(jv(published@.last())));
            } else {
                assert(jvs(published@) == jvs(pub0));
            }
            assert(jvs(published@) =~= published_of(nxt));
        }
        i += 1;
    }
    let ghost p = jvs(published@);
    proof {
        assert(ent.take(ent.len() as int) =~= ent);
        assert(p == published_of(ent));
        lemma_jvs_index(published@);
    }

    let mut named: Vec<(String, Vec<Json>)> = Vec::new();
    let mut posts_items: Vec<Json> = Vec::new();
    let mut i: usize = 0;
    while i < published.len()
        invariant
            0 <= i <= published@.len(),
            jvs(published@) == p,
            p.len() == published@.len(),
            named@.len() == names_fo(p.take(i as int)).len(),
            forall|k: int|
                0 <= k < named@.len() ==> (#[trigger] named@[k]).0@ == names_fo(
                    p.take(i as int),
                )[k],
            forall|k: int| 0 <= k < named@.len() ==> (#[trigger] named@[k]).0@ != "posts"@,
            forall|k: int|
                0 <= k < named@.len() ==> jvs((#[trigger] named@[k]).1@) == bucket_of(
                    p.take(i as int),
                    named@[k].0@,
                ),
            jvs(posts_items@) == bucket_of(p.take(i as int), "posts"@),
        decreases published@.len() - i,
    {
        let ghost pre = p.take(i as int);
        let ghost nxt = p.take(i + 1);
        let name = collection_name(&published[i]);
        let item = published[i].duplicate();
        proof {
            reveal(Seq::filter);
            lemma_jvs_index(published@);
            assert(nxt.drop_last() =~= pre);
            assert(nxt.last() == p[i as int]);
            assert(jv(item) == p[i as int]);
            assert(name@ == coll_of(p[i as int]));
        }
        if crate::json::str_eq(name.as_str(), "posts") {
            let ghost posts0 = posts_items@;
            posts_items.push(item);
            proof {
                reveal(Seq::filter);
                lemma_jvs_index(posts0);
                lemma_jvs_index(posts_items@);
                assert(jvs(posts_items@) =~= jvs(posts0).push(p[i as int]));
                assert(bucket_of(nxt, "posts"@) =~= bucket_of(pre, "posts"@).push(p[i as int]));
                assert(names_fo(nxt) == names_fo(pre));
                assert forall|k: int| 0 <= k < named@.len() implies jvs(
                    (#[trigger] named@[k]).1@,
                ) == bucket_of(nxt, named@[k].0@) by {
                    assert(bucket_of(nxt, named@[k].0@) =~= bucket_of(pre, named@[k].0@));
                }
            }
        } else {
            proof {
                assert(name@ != "posts"@);
            }
            match find_bucket(&named, &name) {
                Some(k) => {
                    let ghost named0 = named@;
                    let pair = named.remove(k);
                    let (bname, mut items) = pair;
                    let ghost items0 = items@;
                    items.push(item);
                    named.insert(k, (bname, items));
                    proof {
                        reveal(Seq::filter);
                        lemma_names_fo(pre);
                        assert(named@ =~= named0.update(k as int, (bname, items)));
                        assert(names_fo(pre).contains(coll_of(p[i as int]))) by {
                            assert(names_fo(pre)[k as int] == named0[k as int].0@);
                        }
                        assert(names_fo(nxt) == names_fo(pre));
                        lemma_jvs_index(items0);
                        lemma_jvs_index(items@);
                        assert(jvs(items@) =~= jvs(items0).push(p[i as int]));
                        assert forall|t: int| 0 <= t < named@.len() implies (#[trigger] named@[t]).0@
                            == names_fo(nxt)[t] && named@[t].0@ != "posts"@ && jvs(named@[t].1@)
                            == bucket_of(nxt, named@[t].0@) by {
                            if t != k {
                                assert(named@[t] == named0[t]);
                                assert(named0[t].0@ != name@);
                                assert(bucket_of(nxt, named@[t].0@) =~= bucket_of(
                                    pre,
                                    named@[t].0@,
                                ));
                            } else {
                                assert(named@[t] == (bname, items));
                                assert(bucket_of(nxt, name@) =~= bucket_of(pre, name@).push(
                                    p[i as int],
                                ));
                            }
                        }
                        assert(bucket_of(nxt, "posts"@) =~= bucket_of(pre, "posts"@));
                    }
                },
                None => {
                    let ghost named0 = named@;
                    let mut items: Vec<Json> = Vec::new();
                    items.push(item);
                    named.push((name, items));
                    proof {
                        reveal(Seq::filter);
                        broadcast use vstd::seq_lib::group_filter_ensures;

                        lemma_names_fo(pre);
                        let old_named = named0;
                        assert(!names_fo(pre).contains(coll_of(p[i as int]))) by {
                            if names_fo(pre).contains(coll_of(p[i as int])) {
                                let t = choose|t: int|
                                    0 <= t < names_fo(pre).len() && names_fo(pre)[t] == coll_of(
                                        p[i as int],
                                    );
                                assert(old_named[t].0@ == names_fo(pre)[t]);
                            }
                        }
                        assert(names_fo(nxt) == names_fo(pre).push(coll_of(p[i as int])));
                        assert(bucket_of(pre, name@).len() == 0) by {
                            if bucket_of(pre, name@).len() > 0 {
                                lemma_filter_in_original(
                                    pre,
                                    |e: Jv| coll_of(e) == name@,
                                    0,
                                );
                                let j = choose|j: int|
                                    0 <= j < pre.len() && pre[j] == bucket_of(pre, name@)[0];
                                assert(coll_of(pre[j]) == name@);
                                assert(names_fo(pre).contains(coll_of(pre[j])));
                            }
                        }
                        lemma_jvs_index(items@);
                        assert forall|t: int| 0 <= t < named@.len() implies (#[trigger] named@[t]).0@
                            == names_fo(nxt)[t] && named@[t].0@ != "posts"@ && jvs(named@[t].1@)
                            == bucket_of(nxt, named@[t].0@) by {
                            if t < named@.len() - 1 {
                                assert(named@[t] == old_named[t]);
                                assert(old_named[t].0@ != name@);
                                assert(bucket_of(nxt, named@[t].0@) =~= bucket_of(
                                    pre,
                                    named@[t].0@,
                                ));
                            } else {
                                assert(named@[t] == (name, items));
                                assert(bucket_of(nxt, name@) =~= bucket_of(pre, name@).push(
                                    p[i as int],
                                ));
                                assert(jvs(items@) =~= bucket_of(nxt, name@));
                            }
                        }
                        assert(bucket_of(nxt, "posts"@) =~= bucket_of(pre, "posts"@));
                    }
                },
            }
        }
        i += 1;
    }
    let ghost names = names_fo(p);
    proof {
        assert(p.take(p.len() as int) =~= p);
    }

    let mut colls: Vec<(String, Json)> = Vec::new();
    while named.len() > 0
        invariant
            colls@.len() + named@.len() == names.len(),
            forall|t: int|
                0 <= t < colls@.len() ==> (#[trigger] colls@[t]).0@ == names[t] && jv(
                    colls@[t].1,
                ) == Jv::Arr(sort_desc(bucket_of(p, names[t]))),
            forall|k: int|
                0 <= k < named@.len() ==> (#[trigger] named@[k]).0@ == names[colls@.len() + k]
                    && jvs(named@[k].1@) == bucket_of(p, names[colls@.len() + k]),
        decreases named@.len(),
    {
        let pair = named.remove(0);
        let (nm, items) = pair;
        let ghost done = colls@.len() as int;
        let sorted = sort_by_date_desc(items);
        colls.push((nm, Json::Arr(sorted)));
        proof {
            assert(colls@.last() == (nm, Json::Arr(sorted)));
            assert(jv(Json::Arr(sorted)) == Jv::Arr(sort_desc(bucket_of(p, names[done]))));
        }
    }

    if posts_items.len() > 0 {
        proof {
            lemma_jvs_index(posts_items@);
            assert(bucket_of(p, "posts"@).len() > 0);
        }
        let sorted = sort_by_date_desc(posts_items);
        colls.push((posts_string(), Json::Arr(sorted)));
        proof {
            assert(coll_names(p) == names.push("posts"@));
        }
    } else {
        proof {
            lemma_jvs_index(posts_items@);
            assert(bucket_of(p, "posts"@).len() == 0);
            assert(coll_names(p) == names);
        }
    }
    proof {
        lemma_jv_fields_index(colls@);
        assert(jv_fields(colls@) =~= collections_of(p));
    }

    let mut fields: Vec<(String, Json)> = Vec::new();
    fields.push((String::from_str("collections"), Json::Obj(colls)));
    fields.push((String::from_str("entries"), Json::Arr(published)));
    fields.push((String::from_str("generated_at"), Json::Str(generated_at)));
    let result = Json::Obj(fields);
    proof {
        lemma_jv_fields_index(fields@);
        assert(jv_fields(fields@) =~= transform_spec(jv(doc), generated_at@)->Obj_0);
    }
    result
}

} // verus!
