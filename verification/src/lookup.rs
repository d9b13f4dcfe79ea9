//! Finding a text in a list of texts: serial numbers, folder ids, names.

use vstd::prelude::*;

verus! {

/// The place of the first of `texts` equal to `text`; their number
/// where there is none.
pub open spec fn first_index(texts: Seq<Seq<char>>, text: Seq<char>) -> int
    decreases texts.len(),
{
    if texts.len() == 0 || texts[0] == text {
        0
    } else {
        1 + first_index(texts.skip(1), text)
    }
}

/// Whether `text` is among `texts`.
pub open spec fn known(texts: Seq<Seq<char>>, text: Seq<char>) -> bool {
    first_index(texts, text) < texts.len()
}

/// Where the first match stands: none before `i`, and at `i` a match or
/// the end.
pub proof fn lemma_first_index(texts: Seq<Seq<char>>, text: Seq<char>, i: int)
    requires
        0 <= i <= texts.len(),
        forall|j: int| 0 <= j < i ==> texts[j] != text,
        i < texts.len() ==> texts[i] == text,
    ensures
        first_index(texts, text) == i,
    decreases i,
{
    if i > 0 {
        let t = texts.skip(1);
        assert forall|j: int| 0 <= j < i - 1 implies t[j] != text by {
            assert(t[j] == texts[j + 1]);
        }
        lemma_first_index(t, text, i - 1);
    }
}

/// What the first match is: a place within bounds, a match where it is not
/// the end, and no match before it.
pub proof fn lemma_first_index_is_first(texts: Seq<Seq<char>>, text: Seq<char>)
    ensures
        0 <= first_index(texts, text) <= texts.len(),
        known(texts, text) ==> texts[first_index(texts, text)] == text,
        forall|j: int| 0 <= j < first_index(texts, text) ==> texts[j] != text,
    decreases texts.len(),
{
    if texts.len() > 0 && texts[0] != text {
        let t = texts.skip(1);
        lemma_first_index_is_first(t, text);
        assert forall|j: int| 0 <= j < first_index(texts, text) implies texts[j]
            != text by {
            if j > 0 {
                assert(t[j - 1] == texts[j]);
            }
        }
    }
}

/// A text that stands at `j` is known.
pub proof fn lemma_known_at(texts: Seq<Seq<char>>, j: int)
    requires
        0 <= j < texts.len(),
    ensures
        known(texts, texts[j]),
{
    lemma_first_index_is_first(texts, texts[j]);
}

/// A text that is known once one entry is taken out was known before.
pub proof fn lemma_removed_stays_known(texts: Seq<Seq<char>>, i: int, text: Seq<char>)
    requires
        0 <= i < texts.len(),
        known(texts.remove(i), text),
    ensures
        known(texts, text),
{
    let r = texts.remove(i);
    lemma_first_index_is_first(r, text);
    let j = first_index(r, text);
    let k = if j < i {
        j
    } else {
        j + 1
    };
    assert(texts[k] == text);
    lemma_first_index_is_first(texts, text);
}

} // verus!
