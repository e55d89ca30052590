use vstd::prelude::*;

use crate::detector::{
    first_palindrome, has_palindrome_label, is_palindrome, keys_of, keys_sorted, lemma_first_palindrome_at,
    lemma_first_palindrome_exists,
};

verus! {

/// What the policy reads of a Pod: its name and its labels, one pair per
/// key, keys unique.
pub struct ResourceView {
    pub name: String,
    pub labels: Vec<(String, String)>,
}

impl ResourceView {
    /// No key occurs twice among the labels, and they are in key order.
    pub open spec fn wf(&self) -> bool {
        keys_of(self.labels@).no_duplicates() && keys_sorted(keys_of(self.labels@))
    }
}

/// The outcome of one evaluation.
pub enum Verdict {
    Accept,
    Reject(String),
}

impl View for Verdict {
    /// The reason of a rejection; `None` stands for acceptance.
    type V = Option<Seq<char>>;

    open spec fn view(&self) -> Option<Seq<char>> {
        match self {
            Verdict::Accept => None,
            Verdict::Reject(m) => Some(m@),
        }
    }
}

/// The reason given for rejecting the Pod `name` because of the label `key`.
pub open spec fn rejection_text(name: Seq<char>, key: Seq<char>) -> Seq<char> {
    "pod "@ + name + " with label "@ + key + " is not accepted"@
}

/// The verdict on a Pod named `name` whose label keys, in scan order, are
/// `keys`: the reason of the rejection, or `None` for acceptance.
pub open spec fn verdict_of(name: Seq<char>, keys: Seq<Seq<char>>) -> Option<Seq<char>> {
    match first_palindrome(keys) {
        Some(k) => Some(rejection_text(name, k)),
        None => None,
    }
}

/// Builds the reason given for rejecting the Pod `name` because of the
/// label `key`.
pub fn rejection_message(name: &str, key: &str) -> (r: String)
    ensures
        r@ == rejection_text(name@, key@),
{
    let mut m = String::from_str("pod ");
    m.append(name);
    m.append(" with label ");
    m.append(key);
    m.append(" is not accepted");
    m
}

/// Decides on a Pod: rejected, naming the first disqualifying label key, if
/// it has one; accepted otherwise.
pub fn decide(view: &ResourceView) -> (r: Verdict)
    ensures
        r@ == verdict_of(view.name@, keys_of(view.labels@)),
{
    match has_palindrome_label(&view.labels) {
        Some(key) => Verdict::Reject(rejection_message(view.name.as_str(), key.as_str())),
        None => Verdict::Accept,
    }
}

/// `part` occurs in `m` as a contiguous run of characters.
pub open spec fn mentions(m: Seq<char>, part: Seq<char>) -> bool {
    exists|s: int| 0 <= s && s + part.len() <= m.len() && #[trigger] m.subrange(s, s + part.len()) == part
}

/// The reason for a rejection mentions the Pod's name and the key.
proof fn lemma_rejection_text_mentions(name: Seq<char>, key: Seq<char>)
    ensures
        mentions(rejection_text(name, key), name),
        mentions(rejection_text(name, key), key),
{
    let m = rejection_text(name, key);
    let a = "pod "@;
    let b = " with label "@;
    let s1 = a.len() as int;
    let s2 = (a.len() + name.len() + b.len()) as int;
    assert(m.subrange(s1, s1 + name.len()) =~= name);
    assert(m.subrange(s2, s2 + key.len()) =~= key);
}

/// Empty keys and keys of one character are always disqualifying.
pub proof fn lemma_short_key_is_palindrome(key: Seq<char>)
    requires
        key.len() <= 1,
    ensures
        is_palindrome(key),
{
    assert(key =~= key.reverse());
}

/// A Pod none of whose label keys equals its own reversal is accepted.
pub proof fn lemma_accepts_without_palindrome(name: Seq<char>, keys: Seq<Seq<char>>)
    requires
        forall|j: int| 0 <= j < keys.len() ==> !is_palindrome(#[trigger] keys[j]),
    ensures
        verdict_of(name, keys) is None,
{
    lemma_first_palindrome_exists(keys);
}

/// A Pod with a label key equal to its own reversal is rejected. The reason
/// names the Pod and a disqualifying key of its labels; when `keys[i]` is the
/// only disqualifying key, the reason names that key.
pub proof fn lemma_rejects_with_palindrome(name: Seq<char>, keys: Seq<Seq<char>>, i: int)
    requires
        0 <= i < keys.len(),
        is_palindrome(keys[i]),
    ensures
        verdict_of(name, keys) is Some,
        mentions(verdict_of(name, keys)->0, name),
        exists|k: Seq<char>|
            #![trigger keys.contains(k)]
            is_palindrome(k) && keys.contains(k) && mentions(verdict_of(name, keys)->0, k),
        (forall|j: int| 0 <= j < keys.len() && j != i ==> !is_palindrome(#[trigger] keys[j]))
            ==> mentions(verdict_of(name, keys)->0, keys[i]),
{
    lemma_first_palindrome_exists(keys);
    let k = first_palindrome(keys)->0;
    lemma_rejection_text_mentions(name, k);
    if forall|j: int| 0 <= j < keys.len() && j != i ==> !is_palindrome(#[trigger] keys[j]) {
        assert forall|j: int| 0 <= j < i implies !is_palindrome(#[trigger] keys[j]) by {}
        lemma_first_palindrome_at(keys, i);
    }
}

} // verus!
