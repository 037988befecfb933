//! Small operations on text that the parsers share.

use vstd::prelude::*;

verus! {

/// The index of the first occurrence of `wanted` in `text`, or the length
/// of `text` where it does not occur.
pub open spec fn first_index(text: Seq<char>, wanted: char) -> int
    decreases text.len(),
{
    if text.len() == 0 {
        0
    } else if text[0] == wanted {
        0
    } else {
        1 + first_index(text.drop_first(), wanted)
    }
}

/// The text before and the text after the first occurrence of
/// `separator`; none where it does not occur.
pub open spec fn split_at_first(text: Seq<char>, separator: char) -> Option<
    (Seq<char>, Seq<char>),
> {
    let at = first_index(text, separator);
    if at == text.len() {
        None
    } else {
        Some((text.take(at), text.skip(at + 1)))
    }
}

/// `first_index` is the least index that holds `wanted`, and the length of
/// the text exactly where no index does.
pub proof fn lemma_first_index(text: Seq<char>, wanted: char)
    ensures
        0 <= first_index(text, wanted) <= text.len(),
        first_index(text, wanted) < text.len() ==> text[first_index(text, wanted)] == wanted,
        forall|j: int| 0 <= j < first_index(text, wanted) ==> text[j] != wanted,
    decreases text.len(),
{
    if text.len() > 0 && text[0] != wanted {
        let rest = text.drop_first();
        lemma_first_index(rest, wanted);
        assert forall|j: int| 0 <= j < first_index(text, wanted) implies text[j] != wanted by {
            if j > 0 {
                assert(text[j] == rest[j - 1]);
            }
        }
    }
}

/// An index that holds `wanted` with none before it that does is the
/// first index.
pub proof fn lemma_first_index_is(text: Seq<char>, wanted: char, at: int)
    requires
        0 <= at <= text.len(),
        at < text.len() ==> text[at] == wanted,
        forall|j: int| 0 <= j < at ==> text[j] != wanted,
    ensures
        first_index(text, wanted) == at,
{
    lemma_first_index(text, wanted);
}

/// Finds the first occurrence of `wanted`.
pub fn find_char(text: &str, wanted: char) -> (found: Option<usize>)
    ensures
        match found {
            Some(at) => at < text@.len() && first_index(text@, wanted) == at,
            None => first_index(text@, wanted) == text@.len(),
        },
{
    let len = text.unicode_len();
    let mut at: usize = 0;
    for c in it: text.chars()
        invariant
            at == it.index(),
            it.seq() == text@,
            len == text@.len(),
            forall|j: int| 0 <= j < at ==> text@[j] != wanted,
    {
        if c == wanted {
            proof {
                lemma_first_index_is(text@, wanted, at as int);
            }
            return Some(at);
        }
        at = at + 1;
    }
    proof {
        lemma_first_index_is(text@, wanted, text@.len() as int);
    }
    None
}

/// Splits the text at the first occurrence of `separator`, which belongs
/// to neither part.
pub fn split_once(text: &str, separator: char) -> (parts: Option<(String, String)>)
    ensures
        match parts {
            Some((head, tail)) => split_at_first(text@, separator) == Some((head@, tail@)),
            None => split_at_first(text@, separator) is None,
        },
{
    match find_char(text, separator) {
        None => None,
        Some(at) => {
            let len = text.unicode_len();
            let head = text.substring_char(0, at);
            let tail = text.substring_char(at + 1, len);
            assert(head@ =~= text@.take(at as int));
            assert(tail@ =~= text@.skip(at + 1));
            Some((String::from_str(head), String::from_str(tail)))
        },
    }
}

/// Whether two texts hold the same characters.
pub fn same_text(left: &str, right: &str) -> (same: bool)
    ensures
        same == (left@ == right@),
{
    String::from_str(left) == String::from_str(right)
}

/// What `to_lowercase` of std's `str` returns for a text: the lowercase
/// that Unicode defines, which depends on nothing but the text.
pub uninterp spec fn unicode_lowercase(text: Seq<char>) -> Seq<char>;

/// Lowers the case of a text with `to_lowercase` of std's `str`.
#[verifier::external_body]
pub(crate) fn lowercase(text: &str) -> (lowered: String)
    ensures
        lowered@ == unicode_lowercase(text@),
{
    text.to_lowercase()
}

} // verus!
