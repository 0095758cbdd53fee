//! Changing the pools of the configuration.
//!
//! A pool is written with its labels in ascending order and without
//! repetitions, under an id that follows the rules for labels.

use crate::kv::option_str_view;
use crate::kv::option_view;
use crate::kv::string_views;
use crate::label::NameError;
use crate::label::validate_label;
use crate::label::validate_name_spec;
use crate::label::validate_pool_id;
use crate::text::chars_of;
use crate::text::lemma_text_le_antisymmetric;
use crate::text::lemma_text_le_total;
use crate::text::lemma_text_le_transitive;
use crate::text::text_le;
use crate::text::text_le_exec;
use vstd::prelude::*;
use vstd::string::StringExecFns;

verus! {

/// Why a pool is not written.
#[derive(Debug, Clone, Copy, PartialEq, Eq, Structural)]
pub enum PoolError {
    /// The pool id breaks a naming rule.
    InvalidPoolId(NameError),
    /// No labels were given.
    NoLabels,
    /// The label at `index` breaks a naming rule.
    InvalidLabel { index: usize, reason: NameError },
}

/// Strictly before, in the order of texts.
pub open spec fn text_lt(a: Seq<char>, b: Seq<char>) -> bool {
    text_le(a, b) && a != b
}

/// Whether `labels` are in ascending order without repetitions.
pub open spec fn is_strictly_sorted(labels: Seq<Seq<char>>) -> bool {
    forall|i: int, j: int| 0 <= i < j < labels.len() ==> text_lt(labels[i], labels[j])
}

/// The first label that breaks a naming rule, from `from` on, if any.
pub open spec fn first_invalid_label(labels: Seq<Seq<char>>, from: int) -> Option<
    (int, NameError),
>
    decreases labels.len() - from,
{
    if from < 0 || from >= labels.len() {
        None
    } else {
        match validate_name_spec(labels[from], crate::codec::utf8(labels[from]).len() as int) {
            Err(reason) => Some((from, reason)),
            Ok(_) => first_invalid_label(labels, from + 1),
        }
    }
}

/// The verdict on a request to write a pool: the id is checked first, then
/// that there are labels, then the labels in order.
pub open spec fn validate_pool_spec(pool_id: Seq<char>, labels: Seq<Seq<char>>) -> Result<
    (),
    PoolError,
> {
    match validate_name_spec(pool_id, crate::codec::utf8(pool_id).len() as int) {
        Err(reason) => Err(PoolError::InvalidPoolId(reason)),
        Ok(_) => if labels.len() == 0 {
            Err(PoolError::NoLabels)
        } else {
            match first_invalid_label(labels, 0) {
                Some((index, reason)) => Err(
                    PoolError::InvalidLabel { index: index as usize, reason },
                ),
                None => Ok(()),
            }
        },
    }
}

/// Checks a request to write a pool. See [`validate_pool_spec`].
#[verifier::loop_isolation(false)]
pub fn validate_pool(pool_id: &str, labels: &[String]) -> (r: Result<(), PoolError>)
    ensures
        r == validate_pool_spec(pool_id@, string_views(labels@)),
{
    match validate_pool_id(pool_id) {
        Err(reason) => {
            return Err(PoolError::InvalidPoolId(reason));
        },
        Ok(_) => {},
    }
    if labels.len() == 0 {
        return Err(PoolError::NoLabels);
    }
    let ghost views = string_views(labels@);
    let mut i: usize = 0;
    while i < labels.len()
        invariant
            i <= labels.len(),
            views == string_views(labels@),
            first_invalid_label(views, 0) == first_invalid_label(views, i as int),
        decreases labels.len() - i,
    {
        assert(views[i as int] == labels@[i as int]@);
        match validate_label(labels[i].as_str()) {
            Err(reason) => {
                return Err(PoolError::InvalidLabel { index: i, reason });
            },
            Ok(_) => {},
        }
        i += 1;
    }
    Ok(())
}

/// Whether the label `chars` comes before the label at `k`, or is equal to it.
fn label_le_at(chars: &[char], labels: &Vec<String>, k: usize) -> (r: bool)
    requires
        k < labels.len(),
    ensures
        r == text_le(chars@, string_views(labels@)[k as int]),
{
    let other = chars_of(labels[k].as_str());
    text_le_exec(chars, other.as_slice())
}

/// Puts `label` into the ascending list `out` unless it is there already.
fn insert_unique(out: &mut Vec<String>, label: String)
    requires
        is_strictly_sorted(string_views(old(out)@)),
    ensures
        is_strictly_sorted(string_views(final(out)@)),
        string_views(final(out)@).to_set() == string_views(old(out)@).to_set().insert(label@),
{
    let ghost before = string_views(out@);
    let chars = chars_of(label.as_str());
    let mut k: usize = 0;
    while k < out.len() && !label_le_at(chars.as_slice(), out, k)
        invariant
            k <= out.len(),
            out@ == old(out)@,
            chars@ == label@,
            before == string_views(out@),
            forall|j: int| 0 <= j < k ==> text_lt(before[j], label@),
        decreases out.len() - k,
    {
        proof {
            lemma_text_le_total(label@, before[k as int]);
        }
        k += 1;
    }
    assert(k < before.len() ==> text_le(label@, before[k as int]));
    let present = if k < out.len() {
        let other = chars_of(out[k].as_str());
        assert(before[k as int] == out@[k as int]@);
        text_le_exec(other.as_slice(), chars.as_slice())
    } else {
        false
    };
    if present {
        proof {
            lemma_text_le_antisymmetric(label@, before[k as int]);
            assert(before.to_set().contains(label@)) by {
                assert(before.contains(before[k as int]));
            }
            assert(before.to_set().insert(label@) =~= before.to_set());
        }
    } else {
        out.insert(k, label);
        let ghost after = string_views(out@);
        proof {
            assert(after =~= before.insert(k as int, label@));
            assert forall|i: int, j: int| 0 <= i < j < after.len() implies text_lt(
                after[i],
                after[j],
            ) by {
                if j == k {
                    assert(after[i] == before[i]);
                } else if i == k {
                    assert(after[j] == before[j - 1]);
                    assert(text_le(label@, before[k as int]));
                    lemma_text_le_total(before[k as int], before[k as int]);
                    if j - 1 > k {
                        assert(text_lt(before[k as int], before[j - 1]));
                        lemma_text_le_transitive(label@, before[k as int], before[j - 1]);
                        if label@ == before[j - 1] {
                            lemma_text_le_antisymmetric(before[k as int], before[j - 1]);
                        }
                    }
                } else if i < k && j > k {
                    assert(after[i] == before[i]);
                    assert(after[j] == before[j - 1]);
                } else if i < k {
                    assert(after[i] == before[i] && after[j] == before[j]);
                } else {
                    assert(after[i] == before[i - 1] && after[j] == before[j - 1]);
                }
            }
            assert(after.to_set() =~= before.to_set().insert(label@)) by {
                assert forall|x: Seq<char>| after.to_set().contains(x) implies before.to_set().insert(
                    label@,
                ).contains(x) by {
                    let i = choose|i: int| 0 <= i < after.len() && after[i] == x;
                    if i < k {
                        assert(before.contains(before[i]));
                    } else if i > k {
                        assert(before.contains(before[i - 1]));
                    }
                }
                assert forall|x: Seq<char>|
                    before.to_set().insert(label@).contains(x) implies after.to_set().contains(
                    x,
                ) by {
                    if x == label@ {
                        assert(after[k as int] == x);
                        assert(after.contains(after[k as int]));
                    } else {
                        let i = choose|i: int| 0 <= i < before.len() && before[i] == x;
                        if i < k {
                            assert(after[i] == x);
                            assert(after.contains(after[i]));
                        } else {
                            assert(after[i + 1] == x);
                            assert(after.contains(after[i + 1]));
                        }
                    }
                }
            }
        }
    }
}

/// The labels of a pool as they are written: in ascending order, each
/// once. The result holds exactly the labels that were given.
pub fn normalize_labels(labels: Vec<String>) -> (out: Vec<String>)
    ensures
        is_strictly_sorted(string_views(out@)),
        string_views(out@).to_set() == string_views(labels@).to_set(),
{
    let ghost views = string_views(labels@);
    let mut out: Vec<String> = Vec::new();
    let mut i: usize = 0;
    proof {
        assert(string_views(out@) =~= Seq::empty());
        assert(views.take(0) =~= Seq::empty());
        assert(string_views(out@).to_set() =~= views.take(0).to_set());
    }
    while i < labels.len()
        invariant
            i <= labels.len(),
            views == string_views(labels@),
            is_strictly_sorted(string_views(out@)),
            string_views(out@).to_set() == views.take(i as int).to_set(),
        decreases labels.len() - i,
    {
        let label = labels[i].clone();
        assert(label@ == views[i as int]);
        insert_unique(&mut out, label);
        proof {
            let next = views.take(i + 1);
            let prev = views.take(i as int);
            assert(next =~= prev.push(views[i as int]));
            assert(next.to_set() =~= prev.to_set().insert(views[i as int])) by {
                assert forall|x: Seq<char>| next.to_set().contains(x) implies prev.to_set().insert(
                    views[i as int],
                ).contains(x) by {
                    let j = choose|j: int| 0 <= j < next.len() && next[j] == x;
                    if j < i {
                        assert(prev.contains(prev[j]));
                    }
                }
                assert forall|x: Seq<char>|
                    prev.to_set().insert(views[i as int]).contains(x) implies next.to_set().contains(
                    x,
                ) by {
                    if x == views[i as int] {
                        assert(next[i as int] == x);
                        assert(next.contains(next[i as int]));
                    } else {
                        let j = choose|j: int| 0 <= j < prev.len() && prev[j] == x;
                        assert(next[j] == x);
                        assert(next.contains(next[j]));
                    }
                }
            }
        }
        i += 1;
    }
    assert(views.take(i as int) =~= views);
    out
}

/// The policy key of a pool that is written: a key that is given replaces
/// the pool's, a blank one removes it, and without one the pool keeps what
/// it had.
pub open spec fn merge_policy_key_spec(
    requested: Option<Seq<char>>,
    existing: Option<Seq<char>>,
) -> Option<Seq<char>> {
    match requested {
        Some(key) => if crate::config::is_blank_spec(key) {
            None
        } else {
            Some(key)
        },
        None => existing,
    }
}

/// Decides the policy key of a pool that is written.
pub fn merge_policy_key(requested: Option<&str>, existing: Option<String>) -> (r: Option<String>)
    ensures
        option_view(r) == merge_policy_key_spec(option_str_view(requested), option_view(existing)),
{
    match requested {
        Some(key) => {
            if crate::config::is_blank(key) {
                None
            } else {
                Some(String::from_str(key))
            }
        },
        None => existing,
    }
}

} // verus!
