//! Metric labels, always kept sorted by key so that the same set of labels
//! yields the same series whatever order they were inserted in.

use vstd::prelude::*;
use vstd::string::StringSliceAdditionalSpecFns;

verus! {

/// Byte-wise lexicographic order: `a` sorts before or equal to `b`.
pub open spec fn lex_le(a: Seq<u8>, b: Seq<u8>) -> bool
    decreases a.len(),
{
    if a.len() == 0 {
        true
    } else if b.len() == 0 {
        false
    } else if a[0] < b[0] {
        true
    } else if a[0] > b[0] {
        false
    } else {
        lex_le(a.drop_first(), b.drop_first())
    }
}

/// Any two byte strings are ordered one way or the other.
pub proof fn lemma_lex_total(a: Seq<u8>, b: Seq<u8>)
    ensures
        lex_le(a, b) || lex_le(b, a),
    decreases a.len(),
{
    if a.len() > 0 && b.len() > 0 && a[0] == b[0] {
        lemma_lex_total(a.drop_first(), b.drop_first());
    }
}

/// The order is transitive.
pub proof fn lemma_lex_trans(a: Seq<u8>, b: Seq<u8>, c: Seq<u8>)
    requires
        lex_le(a, b),
        lex_le(b, c),
    ensures
        lex_le(a, c),
    decreases a.len(),
{
    if a.len() > 0 && b.len() > 0 && c.len() > 0 && a[0] == b[0] && b[0] == c[0] {
        lemma_lex_trans(a.drop_first(), b.drop_first(), c.drop_first());
    }
}

proof fn lemma_lex_skip(a: Seq<u8>, b: Seq<u8>, i: int)
    requires
        0 <= i <= a.len(),
        i <= b.len(),
        a.subrange(0, i) == b.subrange(0, i),
    ensures
        lex_le(a, b) == lex_le(a.subrange(i, a.len() as int), b.subrange(i, b.len() as int)),
    decreases i,
{
    if i > 0 {
        assert(a[0] == a.subrange(0, i)[0]);
        assert(b[0] == b.subrange(0, i)[0]);
        let a1 = a.drop_first();
        let b1 = b.drop_first();
        assert(a1.subrange(0, i - 1) =~= a.subrange(0, i).drop_first());
        assert(b1.subrange(0, i - 1) =~= b.subrange(0, i).drop_first());
        lemma_lex_skip(a1, b1, i - 1);
        assert(a1.subrange(i - 1, a1.len() as int) =~= a.subrange(i, a.len() as int));
        assert(b1.subrange(i - 1, b1.len() as int) =~= b.subrange(i, b.len() as int));
    } else {
        assert(a.subrange(0, a.len() as int) =~= a);
        assert(b.subrange(0, b.len() as int) =~= b);
    }
}

/// Whether `a` sorts before or equal to `b`, byte-wise.
pub fn bytes_lex_le(a: &[u8], b: &[u8]) -> (r: bool)
    ensures
        r == lex_le(a@, b@),
{
    let mut i: usize = 0;
    while i < a.len() && i < b.len()
        invariant
            i <= a.len(),
            i <= b.len(),
            a@.subrange(0, i as int) == b@.subrange(0, i as int),
        decreases a.len() - i,
    {
        if a[i] != b[i] {
            proof {
                lemma_lex_skip(a@, b@, i as int);
            }
            return a[i] < b[i];
        }
        assert(a@.subrange(0, i + 1) =~= a@.subrange(0, i as int).push(a@[i as int]));
        assert(b@.subrange(0, i + 1) =~= b@.subrange(0, i as int).push(b@[i as int]));
        i += 1;
    }
    proof {
        lemma_lex_skip(a@, b@, i as int);
    }
    a.len() <= b.len()
}

/// The label keys, as bytes, are in non-decreasing order.
pub open spec fn keys_sorted(labels: Seq<(&'static str, String)>) -> bool {
    forall|i: int, j: int|
        0 <= i < j < labels.len() ==> lex_le(
            (#[trigger] labels[i]).0.spec_bytes(),
            (#[trigger] labels[j]).0.spec_bytes(),
        )
}

/// `new` is `old` with the label (`key`, `value`) placed at `pos`: after
/// every label whose key sorts before or equal to `key`, before the others.
pub open spec fn inserted_at(
    old: Seq<(&'static str, String)>,
    new: Seq<(&'static str, String)>,
    key: &'static str,
    value: Seq<char>,
    pos: int,
) -> bool {
    &&& 0 <= pos <= old.len()
    &&& new == old.insert(pos, (key, new[pos].1))
    &&& new[pos].1@ == value
    &&& forall|i: int| 0 <= i < pos ==> lex_le((#[trigger] old[i]).0.spec_bytes(), key.spec_bytes())
    &&& forall|i: int|
        pos <= i < old.len() ==> !lex_le((#[trigger] old[i]).0.spec_bytes(), key.spec_bytes())
}

/// The labels hold a label with this key and value.
pub open spec fn has_label(labels: Seq<(&'static str, String)>, key: Seq<char>, value: Seq<char>) -> bool {
    exists|i: int| 0 <= i < labels.len() && (#[trigger] labels[i]).0@ == key && labels[i].1@ == value
}

/// Labels for metric emission, kept sorted by key.
#[derive(Debug, Default)]
pub struct MetricLabels(Vec<(&'static str, String)>);

impl View for MetricLabels {
    type V = Seq<(&'static str, String)>;

    closed spec fn view(&self) -> Seq<(&'static str, String)> {
        self.0@
    }
}

impl MetricLabels {
    #[verifier::type_invariant]
    spec fn inv(&self) -> bool {
        keys_sorted(self.0@)
    }

    /// No labels.
    pub fn new() -> (r: Self)
        ensures
            r@.len() == 0,
    {
        MetricLabels(Vec::new())
    }

    /// Adds a label, placed after every label whose key sorts before or equal
    /// to its key, so labels stay sorted and equal keys keep insertion order.
    pub fn insert(self, key: &'static str, value: &str) -> (r: Self)
        ensures
            keys_sorted(r@),
            exists|pos: int| #[trigger] inserted_at(self@, r@, key, value@, pos),
            r@.len() == self@.len() + 1,
            has_label(r@, key@, value@),
            forall|k: Seq<char>, v: Seq<char>| #[trigger] has_label(self@, k, v) ==> has_label(r@, k, v),
    {
        proof {
            use_type_invariant(&self);
        }
        let ghost old_labels = self@;
        let MetricLabels(mut labels) = self;
        let kb = key.as_bytes();
        let mut pos: usize = 0;
        while pos < labels.len() && bytes_lex_le(labels[pos].0.as_bytes(), kb)
            invariant
                pos <= labels@.len(),
                labels@ == old_labels,
                kb@ == key.spec_bytes(),
                forall|i: int|
                    0 <= i < pos ==> lex_le((#[trigger] labels@[i]).0.spec_bytes(), key.spec_bytes()),
            decreases labels.len() - pos,
        {
            pos += 1;
        }
        proof {
            // every label from `pos` on sorts strictly after the key
            assert forall|i: int| pos <= i < old_labels.len() implies !lex_le(
                (#[trigger] old_labels[i]).0.spec_bytes(),
                key.spec_bytes(),
            ) by {
                let kp = old_labels[pos as int].0.spec_bytes();
                assert(!lex_le(kp, key.spec_bytes()));
                if i > pos && lex_le(old_labels[i].0.spec_bytes(), key.spec_bytes()) {
                    assert(lex_le(kp, old_labels[i].0.spec_bytes()));
                    lemma_lex_trans(kp, old_labels[i].0.spec_bytes(), key.spec_bytes());
                }
            }
        }
        let entry: (&'static str, String) = (key, String::from_str(value));
        labels.insert(pos, entry);
        proof {
            let new = labels@;
            assert(new == old_labels.insert(pos as int, entry));
            assert forall|i: int, j: int| 0 <= i < j < new.len() implies lex_le(
                (#[trigger] new[i]).0.spec_bytes(),
                (#[trigger] new[j]).0.spec_bytes(),
            ) by {
                let kb2 = key.spec_bytes();
                if j < pos {
                    assert(new[i] == old_labels[i] && new[j] == old_labels[j]);
                } else if j == pos {
                    assert(new[i] == old_labels[i]);
                } else if i == pos {
                    assert(new[j] == old_labels[j - 1]);
                    lemma_lex_total(kb2, old_labels[j - 1].0.spec_bytes());
                } else if i < pos {
                    assert(new[i] == old_labels[i] && new[j] == old_labels[j - 1]);
                } else {
                    assert(new[i] == old_labels[i - 1] && new[j] == old_labels[j - 1]);
                }
            }
            assert(new[pos as int] == entry);
            assert(inserted_at(self@, new, key, value@, pos as int));
            old_labels.insert_ensures(pos as int, entry);
            assert(has_label(new, key@, value@));
            assert forall|k: Seq<char>, v: Seq<char>| #[trigger] has_label(old_labels, k, v) implies has_label(new, k, v) by {
                let i = choose|i: int| 0 <= i < old_labels.len() && (#[trigger] old_labels[i]).0@ == k && old_labels[i].1@ == v;
                if i < pos {
                    assert(new[i] == old_labels[i]);
                } else {
                    assert(new[i + 1] == old_labels[i]);
                }
            }
        }
        MetricLabels(labels)
    }

    /// The labels as (key, value) pairs, sorted by key.
    pub fn as_slice(&self) -> (r: Vec<(&str, &str)>)
        ensures
            keys_sorted(self@),
            r@.len() == self@.len(),
            forall|i: int|
                0 <= i < r@.len() ==> (#[trigger] r@[i]).0 == self@[i].0 && r@[i].1@ == self@[i].1@,
    {
        proof {
            use_type_invariant(self);
        }
        let mut out: Vec<(&str, &str)> = Vec::new();
        let mut i: usize = 0;
        while i < self.0.len()
            invariant
                i <= self.0@.len(),
                out@.len() == i,
                forall|j: int|
                    0 <= j < i ==> (#[trigger] out@[j]).0 == self.0@[j].0 && out@[j].1@
                        == self.0@[j].1@,
            decreases self.0.len() - i,
        {
            let (k, v) = &self.0[i];
            out.push((*k, v.as_str()));
            i += 1;
        }
        out
    }
}

} // verus!
