use vstd::prelude::*;
use vstd::std_specs::iter::IteratorSpec;

verus! {

/// A key is disqualifying when it is identical to its own reversal.
pub open spec fn is_palindrome(s: Seq<char>) -> bool {
    s == s.reverse()
}

/// The characters of a string, one element each.
fn char_vec(s: &str) -> (r: Vec<char>)
    ensures
        r@ == s@,
{
    let mut out: Vec<char> = Vec::new();
    for c in it: s.chars()
        invariant
            it.seq() == s@,
            out@ == it.seq().take(it.index() as int),
    {
        out.push(c);
        assert(out@ == it.seq().take(it.index() as int + 1));
    }
    assert(out@ == s@);
    out
}

/// Whether `key` is identical to its own reversal.
pub fn is_palindrome_key(key: &str) -> (r: bool)
    ensures
        r == is_palindrome(key@),
{
    let cs = char_vec(key);
    let n = cs.len();
    let mut i: usize = 0;
    while i < n / 2
        invariant
            n == cs@.len(),
            cs@ == key@,
            i <= n / 2,
            forall|j: int| 0 <= j < i ==> #[trigger] cs@[j] == cs@[n - 1 - j],
        decreases n / 2 - i,
    {
        if cs[i] != cs[n - 1 - i] {
            assert(cs@.reverse()[i as int] == cs@[n - 1 - i]);
            return false;
        }
        i = i + 1;
    }
    assert forall|j: int| 0 <= j < n implies #[trigger] cs@[j] == cs@[n - 1 - j] by {
        let k = n - 1 - j;
        if j >= n / 2 && k != j {
            assert(0 <= k < i);
            assert(cs@[k] == cs@[n - 1 - k]);
        }
    }
    assert(cs@ =~= cs@.reverse());
    true
}

/// The label keys, in the order in which they are scanned.
pub open spec fn keys_of(labels: Seq<(String, String)>) -> Seq<Seq<char>> {
    labels.map_values(|p: (String, String)| p.0@)
}

/// The first disqualifying key in scan order, if any.
pub open spec fn first_palindrome(keys: Seq<Seq<char>>) -> Option<Seq<char>>
    decreases keys.len(),
{
    if keys.len() == 0 {
        None
    } else if is_palindrome(keys[0]) {
        Some(keys[0])
    } else {
        first_palindrome(keys.drop_first())
    }
}

/// Scanning up to a disqualifying key at `i` finds that key.
pub proof fn lemma_first_palindrome_at(keys: Seq<Seq<char>>, i: int)
    requires
        0 <= i < keys.len(),
        is_palindrome(keys[i]),
        forall|j: int| 0 <= j < i ==> !is_palindrome(#[trigger] keys[j]),
    ensures
        first_palindrome(keys) == Some(keys[i]),
    decreases i,
{
    if i > 0 {
        let rest = keys.drop_first();
        assert forall|j: int| 0 <= j < i - 1 implies !is_palindrome(#[trigger] rest[j]) by {
            assert(rest[j] == keys[j + 1]);
        }
        lemma_first_palindrome_at(rest, i - 1);
    }
}

/// The scan finds a key exactly when some key is disqualifying, and the key
/// it finds is disqualifying and is one of the keys.
pub proof fn lemma_first_palindrome_exists(keys: Seq<Seq<char>>)
    ensures
        first_palindrome(keys) is None <==> forall|j: int|
            0 <= j < keys.len() ==> !is_palindrome(#[trigger] keys[j]),
        first_palindrome(keys) matches Some(k) ==> is_palindrome(k) && keys.contains(k),
    decreases keys.len(),
{
    if keys.len() > 0 {
        let rest = keys.drop_first();
        lemma_first_palindrome_exists(rest);
        if !is_palindrome(keys[0]) {
            assert forall|j: int| 0 <= j < keys.len() && j > 0 implies #[trigger] keys[j]
                == rest[j - 1] by {}
            if first_palindrome(rest) is None {
                assert forall|j: int| 0 <= j < keys.len() implies !is_palindrome(
                    #[trigger] keys[j],
                ) by {
                    if j > 0 {
                        assert(keys[j] == rest[j - 1]);
                    }
                }
            } else {
                let k = first_palindrome(rest)->0;
                let t = choose|t: int| 0 <= t < rest.len() && rest[t] == k;
                assert(keys[t + 1] == k);
                let w = choose|w: int| 0 <= w < rest.len() && is_palindrome(rest[w]);
                assert(keys[w + 1] == rest[w]);
            }
        }
    }
}

/// Where the scan finds a key: at the returned index, after keys that are all
/// not disqualifying.
pub proof fn lemma_first_palindrome_index(keys: Seq<Seq<char>>) -> (i: int)
    ensures
        first_palindrome(keys) matches Some(k) ==> 0 <= i < keys.len() && keys[i] == k && forall|
            j: int,
        | 0 <= j < i ==> !is_palindrome(#[trigger] keys[j]),
    decreases keys.len(),
{
    if keys.len() == 0 || is_palindrome(keys[0]) {
        0
    } else {
        let rest = keys.drop_first();
        let i = lemma_first_palindrome_index(rest);
        assert forall|j: int| 0 < j < keys.len() implies #[trigger] keys[j] == rest[j - 1] by {}
        i + 1
    }
}

/// Code-point order on character sequences: the order of `String`'s `Ord`.
pub open spec fn key_lt(a: Seq<char>, b: Seq<char>) -> bool
    decreases a.len(),
{
    if b.len() == 0 {
        false
    } else if a.len() == 0 {
        true
    } else if a[0] != b[0] {
        (a[0] as u32) < (b[0] as u32)
    } else {
        key_lt(a.drop_first(), b.drop_first())
    }
}

/// The keys are in strictly increasing order, as a `BTreeMap` yields them.
pub open spec fn keys_sorted(keys: Seq<Seq<char>>) -> bool {
    forall|i: int, j: int| 0 <= i < j < keys.len() ==> key_lt(#[trigger] keys[i], #[trigger] keys[j])
}

/// Over keys in sorted order, the scan finds the least disqualifying key.
pub proof fn lemma_first_palindrome_least(keys: Seq<Seq<char>>)
    requires
        keys_sorted(keys),
    ensures
        first_palindrome(keys) matches Some(k) ==> forall|j: int|
            0 <= j < keys.len() && is_palindrome(#[trigger] keys[j]) ==> k == keys[j] || key_lt(
                k,
                keys[j],
            ),
{
    let i = lemma_first_palindrome_index(keys);
}

/// Over keys in sorted order, a key that is empty or of one character bounds
/// the key that the scan finds.
pub proof fn lemma_short_key_bounds_report(keys: Seq<Seq<char>>, t: int)
    requires
        keys_sorted(keys),
        0 <= t < keys.len(),
        keys[t].len() <= 1,
    ensures
        first_palindrome(keys) matches Some(k) && (k == keys[t] || key_lt(k, keys[t])),
{
    assert(keys[t] =~= keys[t].reverse());
    lemma_first_palindrome_exists(keys);
    lemma_first_palindrome_least(keys);
}

/// Adding labels never turns a rejection into an acceptance, and over keys
/// in sorted order the key reported is never larger than before.
pub proof fn lemma_more_keys_report_no_larger(keys1: Seq<Seq<char>>, keys2: Seq<Seq<char>>)
    requires
        keys_sorted(keys1),
        keys_sorted(keys2),
        forall|k: Seq<char>| keys1.contains(k) ==> keys2.contains(k),
        first_palindrome(keys1) is Some,
    ensures
        first_palindrome(keys2) matches Some(k2) && (k2 == first_palindrome(keys1)->0 || key_lt(
            k2,
            first_palindrome(keys1)->0,
        )),
{
    lemma_first_palindrome_exists(keys1);
    let k1 = first_palindrome(keys1)->0;
    assert(keys2.contains(k1));
    let t = choose|t: int| 0 <= t < keys2.len() && keys2[t] == k1;
    lemma_first_palindrome_exists(keys2);
    lemma_first_palindrome_least(keys2);
}

/// The first label key, in the order of `labels`, that is identical to its
/// own reversal.
pub fn has_palindrome_label(labels: &Vec<(String, String)>) -> (r: Option<String>)
    ensures
        match r {
            Some(k) => first_palindrome(keys_of(labels@)) == Some(k@),
            None => first_palindrome(keys_of(labels@)) is None,
        },
        keys_sorted(keys_of(labels@)) ==> (r matches Some(k) ==> forall|j: int|
            0 <= j < labels@.len() && is_palindrome(#[trigger] keys_of(labels@)[j]) ==> k@
                == keys_of(labels@)[j] || key_lt(k@, keys_of(labels@)[j])),
{
    let ghost keys = keys_of(labels@);
    let mut i: usize = 0;
    while i < labels.len()
        invariant
            keys == keys_of(labels@),
            i <= labels.len(),
            forall|j: int| 0 <= j < i ==> !is_palindrome(#[trigger] keys[j]),
        decreases labels.len() - i,
    {
        let key = &labels[i].0;
        if is_palindrome_key(key.as_str()) {
            proof {
                lemma_first_palindrome_at(keys, i as int);
                if keys_sorted(keys) {
                    lemma_first_palindrome_least(keys);
                }
            }
            return Some(key.clone());
        }
        i = i + 1;
    }
    proof {
        lemma_first_palindrome_exists(keys);
    }
    None
}

} // verus!
