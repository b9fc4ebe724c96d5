//! The canister analyzer: given a parsed manifest, counts the canister
//! entries and tallies them by their declared type label.

use vstd::prelude::*;
use crate::json::{Json, get_field, lookup_field};

verus! {

/// Why a manifest could not be processed.
#[derive(Clone, Copy, Debug, PartialEq, Eq, Structural)]
pub enum ManifestError {
    /// The manifest text is not well-formed JSON.
    Parse,
    /// The document has no `canisters` object field (absent, null, or of
    /// the wrong shape).
    MissingField,
}

/// The type label of one canister definition: the value of its `type`
/// field when that field is present and a string, and `"unknown"` when
/// it is absent, null, or not a string.
pub open spec fn type_label(def: Json) -> Seq<char> {
    match get_field(def, "type"@) {
        Some(Json::Str(s)) => s@,
        _ => "unknown"@,
    }
}

/// The type labels of the canister entries, one per entry, in order.
pub open spec fn labels_of(entries: Seq<(String, Json)>) -> Seq<Seq<char>> {
    entries.map_values(|e: (String, Json)| type_label(e.1))
}

/// How many times the label `l` occurs in `labels`.
pub open spec fn count_label(labels: Seq<Seq<char>>, l: Seq<char>) -> nat
    decreases labels.len(),
{
    if labels.len() == 0 {
        0
    } else {
        count_label(labels.drop_last(), l) + (if labels.last() == l {
            1nat
        } else {
            0nat
        })
    }
}

/// The sum of the counts held by the tally's buckets.
pub open spec fn sum_counts(t: Seq<(String, usize)>) -> int
    decreases t.len(),
{
    if t.len() == 0 {
        0
    } else {
        sum_counts(t.drop_last()) + t.last().1
    }
}

/// No two tally buckets carry the same label.
pub open spec fn tally_keys_distinct(t: Seq<(String, usize)>) -> bool {
    forall|i: int, j: int| #![trigger t[i], t[j]] 0 <= i < j < t.len() ==> t[i].0@ != t[j].0@
}

/// `t` is exactly the tally of `labels`: one bucket for each distinct
/// label that occurs, holding that label's number of occurrences, and
/// nothing else.
pub open spec fn is_tally_of(t: Seq<(String, usize)>, labels: Seq<Seq<char>>) -> bool {
    &&& tally_keys_distinct(t)
    &&& forall|i: int| #![trigger t[i]]
        0 <= i < t.len() ==> t[i].1 == count_label(labels, t[i].0@)
    &&& forall|i: int| #![trigger t[i]]
        0 <= i < t.len() ==> count_label(labels, t[i].0@) > 0
    &&& forall|l: Seq<char>|
        #[trigger] count_label(labels, l) > 0 ==> exists|i: int|
            0 <= i < t.len() && (#[trigger] t[i]).0@ == l
}

/// A label occurs at most as often as there are entries.
proof fn lemma_count_le_len(labels: Seq<Seq<char>>, l: Seq<char>)
    ensures
        count_label(labels, l) <= labels.len(),
    decreases labels.len(),
{
    if labels.len() > 0 {
        lemma_count_le_len(labels.drop_last(), l);
    }
}

/// Appending one label raises its own count by one and leaves every
/// other label's count unchanged.
proof fn lemma_count_push(labels: Seq<Seq<char>>, x: Seq<char>, l: Seq<char>)
    ensures
        count_label(labels.push(x), l) == count_label(labels, l) + (if x == l {
            1nat
        } else {
            0nat
        }),
{
    assert(labels.push(x).drop_last() =~= labels);
    assert(labels.push(x).last() == x);
}

/// Replacing bucket `k` changes the sum by the difference at `k`.
proof fn lemma_sum_update(t: Seq<(String, usize)>, k: int, v: (String, usize))
    requires
        0 <= k < t.len(),
    ensures
        sum_counts(t.update(k, v)) == sum_counts(t) - t[k].1 + v.1,
    decreases t.len(),
{
    let tu = t.update(k, v);
    if k == t.len() - 1 {
        assert(tu.drop_last() =~= t.drop_last());
        assert(tu.last() == v);
    } else {
        assert(tu.drop_last() =~= t.drop_last().update(k, v));
        assert(tu.last() == t.last());
        lemma_sum_update(t.drop_last(), k, v);
    }
}

/// Appending one bucket adds its count to the sum.
proof fn lemma_sum_push(t: Seq<(String, usize)>, v: (String, usize))
    ensures
        sum_counts(t.push(v)) == sum_counts(t) + v.1,
{
    assert(t.push(v).drop_last() =~= t);
    assert(t.push(v).last() == v);
}

/// A tally in which every bucket holds at least one unit has no more
/// buckets than the sum of its counts.
proof fn lemma_sum_ge_len(t: Seq<(String, usize)>)
    requires
        forall|i: int| #![trigger t[i]] 0 <= i < t.len() ==> t[i].1 >= 1,
    ensures
        sum_counts(t) >= t.len(),
    decreases t.len(),
{
    if t.len() > 0 {
        assert(forall|i: int| #![trigger t.drop_last()[i]]
            0 <= i < t.len() - 1 ==> t.drop_last()[i] == t[i]);
        lemma_sum_ge_len(t.drop_last());
    }
}

/// A tally in which no bucket holds more than one unit has at least as
/// many buckets as the sum of its counts.
proof fn lemma_sum_le_len(t: Seq<(String, usize)>)
    requires
        forall|i: int| #![trigger t[i]] 0 <= i < t.len() ==> t[i].1 <= 1,
    ensures
        sum_counts(t) <= t.len(),
    decreases t.len(),
{
    if t.len() > 0 {
        assert(forall|i: int| #![trigger t.drop_last()[i]]
            0 <= i < t.len() - 1 ==> t.drop_last()[i] == t[i]);
        lemma_sum_le_len(t.drop_last());
    }
}

/// When every bucket holds at least one unit and the counts sum to the
/// number of buckets, every bucket holds exactly one unit.
proof fn lemma_sum_eq_len_all_one(t: Seq<(String, usize)>)
    requires
        forall|i: int| #![trigger t[i]] 0 <= i < t.len() ==> t[i].1 >= 1,
        sum_counts(t) == t.len(),
    ensures
        forall|i: int| #![trigger t[i]] 0 <= i < t.len() ==> t[i].1 == 1,
    decreases t.len(),
{
    if t.len() > 0 {
        let td = t.drop_last();
        assert(forall|i: int| #![trigger td[i]] 0 <= i < td.len() ==> td[i] == t[i]);
        lemma_sum_ge_len(td);
        lemma_sum_eq_len_all_one(td);
        assert(forall|i: int| #![trigger t[i]]
            0 <= i < t.len() - 1 ==> t[i] == td[i]);
    }
}

/// A label that stands at position `i` occurs at least once.
proof fn lemma_occurs_count(labels: Seq<Seq<char>>, i: int)
    requires
        0 <= i < labels.len(),
    ensures
        count_label(labels, labels[i]) >= 1,
    decreases labels.len(),
{
    if i < labels.len() - 1 {
        assert(labels.drop_last()[i] == labels[i]);
        lemma_occurs_count(labels.drop_last(), i);
    }
}

/// A label that occurs at least once stands at some position.
proof fn lemma_count_occurs(labels: Seq<Seq<char>>, l: Seq<char>) -> (i: int)
    requires
        count_label(labels, l) >= 1,
    ensures
        0 <= i < labels.len() && labels[i] == l,
    decreases labels.len(),
{
    if labels.last() == l {
        labels.len() - 1
    } else {
        let i = lemma_count_occurs(labels.drop_last(), l);
        assert(labels.drop_last()[i] == labels[i]);
        i
    }
}

/// A label that stands at two positions occurs at least twice.
proof fn lemma_dup_count(labels: Seq<Seq<char>>, i: int, j: int)
    requires
        0 <= i < j < labels.len(),
        labels[i] == labels[j],
    ensures
        count_label(labels, labels[i]) >= 2,
    decreases labels.len(),
{
    assert(labels.drop_last()[i] == labels[i]);
    if j == labels.len() - 1 {
        lemma_occurs_count(labels.drop_last(), i);
    } else {
        assert(labels.drop_last()[j] == labels[j]);
        lemma_dup_count(labels.drop_last(), i, j);
    }
}

/// When the labels are pairwise distinct, no label occurs twice.
proof fn lemma_distinct_count_le_one(labels: Seq<Seq<char>>, l: Seq<char>)
    requires
        forall|i: int, j: int| 0 <= i < j < labels.len() ==> labels[i] != labels[j],
    ensures
        count_label(labels, l) <= 1,
    decreases labels.len(),
{
    if labels.len() > 0 {
        let ld = labels.drop_last();
        assert(forall|i: int| #![trigger ld[i]] 0 <= i < ld.len() ==> ld[i] == labels[i]);
        lemma_distinct_count_le_one(ld, l);
        if labels.last() == l && count_label(ld, l) >= 1 {
            let i = lemma_count_occurs(ld, l);
            assert(labels[i] == labels[labels.len() - 1]);
            assert(false);
        }
    }
}

/// An entry whose `type` field is absent, null, or not a string carries
/// the label `"unknown"`, and so is counted under that bucket.
pub proof fn lemma_unknown_label(entries: Seq<(String, Json)>, i: int)
    requires
        0 <= i < entries.len(),
        !(get_field(entries[i].1, "type"@) matches Some(v) && v is Str),
    ensures
        labels_of(entries)[i] == "unknown"@,
{
}

/// A tally of no entries has no buckets: an empty `canisters` object
/// yields a total of zero and an empty tally, not an error.
pub proof fn lemma_empty_tally(t: Seq<(String, usize)>, labels: Seq<Seq<char>>)
    requires
        is_tally_of(t, labels),
        labels.len() == 0,
    ensures
        t.len() == 0,
{
    if t.len() > 0 {
        assert(count_label(labels, t[0].0@) > 0);
        assert(false);
    }
}

/// A tally of the entries' type labels has at most as many buckets as
/// there are entries, and exactly as many when and only when the
/// entries' labels are pairwise distinct.
pub proof fn lemma_buckets_at_most_entries(t: Seq<(String, usize)>, labels: Seq<Seq<char>>)
    requires
        is_tally_of(t, labels),
        sum_counts(t) == labels.len(),
    ensures
        t.len() <= labels.len(),
        t.len() == labels.len() <==> (forall|i: int, j: int|
            0 <= i < j < labels.len() ==> labels[i] != labels[j]),
{
    lemma_sum_ge_len(t);
    if (forall|i: int, j: int| 0 <= i < j < labels.len() ==> labels[i] != labels[j]) {
        assert forall|i: int| #![trigger t[i]] 0 <= i < t.len() implies t[i].1 <= 1 by {
            lemma_distinct_count_le_one(labels, t[i].0@);
        }
        lemma_sum_le_len(t);
    }
    if t.len() == labels.len() {
        lemma_sum_eq_len_all_one(t);
        assert forall|i: int, j: int|
            0 <= i < j < labels.len() implies labels[i] != labels[j] by {
            if labels[i] == labels[j] {
                lemma_dup_count(labels, i, j);
                let b = choose|b: int|
                    0 <= b < t.len() && (#[trigger] t[b]).0@ == labels[i];
                assert(t[b].1 == count_label(labels, labels[i]));
                assert(false);
            }
        }
    }
}

/// The entries of the manifest's `canisters` field, when that field is
/// present and an object.
pub open spec fn canisters_field(doc: Json) -> Option<Seq<(String, Json)>> {
    match get_field(doc, "canisters"@) {
        Some(Json::Object(entries)) => Some(entries@),
        _ => None,
    }
}

/// The `canisters` object of the manifest, or the error that the
/// analysis reports when the field is absent or of the wrong shape.
pub fn canisters_of<'a>(doc: &'a Json) -> (r: Result<&'a Vec<(String, Json)>, ManifestError>)
    ensures
        match r {
            Ok(entries) => canisters_field(*doc) == Some(entries@),
            Err(e) => canisters_field(*doc) is None && e == ManifestError::MissingField,
        },
{
    match doc {
        Json::Object(top) => {
            let key = String::from_str("canisters");
            match lookup_field(top, &key) {
                Some(Json::Object(entries)) => Ok(entries),
                _ => Err(ManifestError::MissingField),
            }
        },
        _ => Err(ManifestError::MissingField),
    }
}

/// The type label of one canister definition, as executable code.
pub fn canister_type_label<'a>(def: &'a Json) -> (r: &'a str)
    ensures
        r@ == type_label(*def),
{
    match def {
        Json::Object(fields) => {
            let key = String::from_str("type");
            match lookup_field(fields, &key) {
                Some(Json::Str(s)) => s.as_str(),
                _ => "unknown",
            }
        },
        _ => "unknown",
    }
}

/// The index of the tally bucket that carries `label`, if one exists.
fn find_bucket(t: &Vec<(String, usize)>, label: &String) -> (r: Option<usize>)
    ensures
        match r {
            Some(k) => k < t.len() && t@[k as int].0@ == label@,
            None => forall|j: int| #![trigger t@[j]] 0 <= j < t@.len() ==> t@[j].0@ != label@,
        },
{
    let mut i: usize = 0;
    while i < t.len()
        invariant
            i <= t@.len(),
            forall|j: int| #![trigger t@[j]] 0 <= j < i ==> t@[j].0@ != label@,
        decreases t@.len() - i,
    {
        if t[i].0 == *label {
            return Some(i);
        }
        i += 1;
    }
    None
}

/// Counts the canister entries of the manifest and tallies them by
/// type label.
///
/// On success the total equals the number of entries of the `canisters`
/// object, the tally is exactly the tally of the entries' type labels,
/// the counts sum to the total, and there are no more buckets than
/// entries. The analysis fails, with the error that names the missing
/// field, exactly when the document has no `canisters` object field.
pub fn analyze_canisters(doc: &Json) -> (r: Result<(usize, Vec<(String, usize)>), ManifestError>)
    ensures
        match r {
            Ok((total, tally)) => {
                &&& canisters_field(*doc) matches Some(entries)
                &&& total == entries.len()
                &&& is_tally_of(tally@, labels_of(entries))
                &&& sum_counts(tally@) == total
                &&& tally@.len() <= total
            },
            Err(e) => canisters_field(*doc) is None && e == ManifestError::MissingField,
        },
{
    let canisters = match canisters_of(doc) {
        Ok(c) => c,
        Err(e) => {
            return Err(e);
        },
    };
    let total = canisters.len();
    let mut tally: Vec<(String, usize)> = Vec::new();
    let mut i: usize = 0;
    proof {
        assert(canisters@.take(0) =~= Seq::<(String, Json)>::empty());
    }
    while i < total
        invariant
            i <= total,
            total == canisters@.len(),
            is_tally_of(tally@, labels_of(canisters@.take(i as int))),
            sum_counts(tally@) == i,
        decreases total - i,
    {
        let ghost prev_labels = labels_of(canisters@.take(i as int));
        let label = canister_type_label(&canisters[i].1).to_owned();
        let ghost lab = label@;
        let ghost new_labels = labels_of(canisters@.take(i + 1int));
        proof {
            assert(canisters@.take(i + 1int)[i as int] == canisters@[i as int]);
            assert(new_labels =~= prev_labels.push(lab));
            lemma_count_push(prev_labels, lab, lab);
            lemma_count_le_len(prev_labels, lab);
        }
        match find_bucket(&tally, &label) {
            Some(k) => {
                let c = tally[k].1;
                let key = tally[k].0.clone();
                proof {
                    lemma_sum_update(tally@, k as int, (key, (c + 1) as usize));
                }
                let ghost old_tally = tally@;
                tally.set(k, (key, c + 1));
                proof {
                    assert forall|j: int| #![trigger tally@[j]]
                        0 <= j < tally@.len() implies tally@[j].1 == count_label(
                        new_labels,
                        tally@[j].0@,
                    ) && count_label(new_labels, tally@[j].0@) > 0 by {
                        lemma_count_push(prev_labels, lab, old_tally[j].0@);
                    }
                    assert forall|l: Seq<char>| #[trigger]
                        count_label(new_labels, l) > 0 implies exists|b: int|
                        0 <= b < tally@.len() && (#[trigger] tally@[b]).0@ == l by {
                        lemma_count_push(prev_labels, lab, l);
                        if l == lab {
                            assert(tally@[k as int].0@ == l);
                        } else {
                            let b = choose|b: int|
                                0 <= b < old_tally.len() && (#[trigger] old_tally[b]).0@ == l;
                            assert(tally@[b].0@ == l);
                        }
                    }
                }
            },
            None => {
                proof {
                    lemma_sum_push(tally@, (label, 1));
                }
                let ghost old_tally = tally@;
                tally.push((label, 1));
                proof {
                    assert(count_label(prev_labels, lab) == 0);
                    assert forall|j: int| #![trigger tally@[j]]
                        0 <= j < tally@.len() implies tally@[j].1 == count_label(
                        new_labels,
                        tally@[j].0@,
                    ) && count_label(new_labels, tally@[j].0@) > 0 by {
                        if j < old_tally.len() {
                            lemma_count_push(prev_labels, lab, old_tally[j].0@);
                        } else {
                            lemma_count_push(prev_labels, lab, lab);
                        }
                    }
                    assert forall|l: Seq<char>| #[trigger]
                        count_label(new_labels, l) > 0 implies exists|b: int|
                        0 <= b < tally@.len() && (#[trigger] tally@[b]).0@ == l by {
                        lemma_count_push(prev_labels, lab, l);
                        if l == lab {
                            assert(tally@[old_tally.len() as int].0@ == l);
                        } else {
                            let b = choose|b: int|
                                0 <= b < old_tally.len() && (#[trigger] old_tally[b]).0@ == l;
                            assert(tally@[b].0@ == l);
                        }
                    }
                }
            },
        }
        i += 1;
    }
    proof {
        assert(canisters@.take(total as int) =~= canisters@);
        lemma_sum_ge_len(tally@);
    }
    Ok((total, tally))
}

/// The `(name, type label)` pairs of the canister entries, in order,
/// for the report. Fails exactly as `analyze_canisters` does.
pub fn entry_labels(doc: &Json) -> (r: Result<Vec<(String, String)>, ManifestError>)
    ensures
        match r {
            Ok(pairs) => {
                &&& canisters_field(*doc) matches Some(entries)
                &&& pairs@.len() == entries.len()
                &&& forall|j: int| #![trigger pairs@[j]]
                    0 <= j < entries.len() ==> pairs@[j].0@ == entries[j].0@ && pairs@[j].1@
                        == type_label(entries[j].1)
            },
            Err(e) => canisters_field(*doc) is None && e == ManifestError::MissingField,
        },
{
    let canisters = match canisters_of(doc) {
        Ok(c) => c,
        Err(e) => {
            return Err(e);
        },
    };
    let mut pairs: Vec<(String, String)> = Vec::new();
    let mut i: usize = 0;
    while i < canisters.len()
        invariant
            i <= canisters@.len(),
            pairs@.len() == i,
            forall|j: int| #![trigger pairs@[j]]
                0 <= j < i ==> pairs@[j].0@ == canisters@[j].0@ && pairs@[j].1@ == type_label(
                    canisters@[j].1,
                ),
        decreases canisters@.len() - i,
    {
        let name = canisters[i].0.clone();
        let label = canister_type_label(&canisters[i].1).to_owned();
        pairs.push((name, label));
        i += 1;
    }
    Ok(pairs)
}

} // verus!
