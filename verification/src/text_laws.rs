//! What the order of texts, trimming, and the names of paths come to, in terms
//! of characters, bytes and components alone.

use vstd::prelude::*;

use crate::path::Part;

verus! {

/// The order of texts is the order of a dictionary by code points: a text comes
/// before another exactly where it is a proper beginning of it, or has the
/// smaller character in the first place where they differ.
pub proof fn law_text_order(left: Seq<char>, right: Seq<char>)
    ensures
        crate::text::text_before(left, right) <==> {
            ||| left.len() < right.len() && left == right.take(left.len() as int)
            ||| exists|i: int|
                {
                    &&& 0 <= i < left.len() && i < right.len()
                    &&& left.take(i) == right.take(i)
                    &&& ((#[trigger] left[i]) as int) < right[i] as int
                }
        },
    decreases left.len(),
{
    if left.len() == 0 || right.len() == 0 {
        if left.len() == 0 {
            assert(left =~= right.take(0));
        }
    } else if left[0] != right[0] {
        assert(left.take(0) =~= right.take(0));
        if left.len() < right.len() && left == right.take(left.len() as int) {
            assert(left[0] == right.take(left.len() as int)[0]);
        }
        assert forall|i: int|
            0 <= i < left.len() && i < right.len() && left.take(i) == right.take(i) implies i
            == 0 by {
            if i > 0 {
                assert(left.take(i)[0] == right.take(i)[0]);
            }
        }
    } else {
        let l = left.drop_first();
        let r = right.drop_first();
        law_text_order(l, r);
        if l.len() < r.len() && l == r.take(l.len() as int) {
            assert(left =~= right.take(left.len() as int)) by {
                assert forall|k: int| 0 < k < left.len() implies left[k] == right[k] by {
                    assert(l[k - 1] == r.take(l.len() as int)[k - 1]);
                }
            }
        }
        if left.len() < right.len() && left == right.take(left.len() as int) {
            assert(l =~= r.take(l.len() as int)) by {
                assert forall|k: int| 0 <= k < l.len() implies l[k] == r[k] by {
                    assert(left[k + 1] == right.take(left.len() as int)[k + 1]);
                }
            }
        }
        assert forall|i: int|
            0 < i < left.len() && i < right.len() && left.take(i) == right.take(i)
                && (left[i] as int) < right[i] as int implies crate::text::text_before(l, r) by {
            assert(l.take(i - 1) =~= r.take(i - 1)) by {
                assert forall|k: int| 0 <= k < i - 1 implies l[k] == r[k] by {
                    assert(left.take(i)[k + 1] == right.take(i)[k + 1]);
                }
            }
            assert(l[i - 1] as int == left[i] as int && r[i - 1] as int == right[i] as int);
        }
        assert forall|i: int|
            0 <= i < l.len() && i < r.len() && l.take(i) == r.take(i) && ((#[trigger] l[i]) as int)
                < r[i] as int implies left.take(i + 1) == right.take(i + 1) && (left[i + 1] as int)
            < right[i + 1] as int by {
            assert(left.take(i + 1) =~= right.take(i + 1)) by {
                assert forall|k: int| 0 < k < i + 1 implies left[k] == right[k] by {
                    assert(l.take(i)[k - 1] == r.take(i)[k - 1]);
                }
            }
        }
    }
}

/// Trimming takes away the white space around a text, all of it and nothing
/// else: whatever stands between white space, and neither starts nor ends with
/// any, is what is left.
pub proof fn law_trim(before: Seq<char>, inner: Seq<char>, after: Seq<char>)
    requires
        forall|i: int| 0 <= i < before.len() ==> crate::text::white_space(#[trigger] before[i]),
        forall|i: int| 0 <= i < after.len() ==> crate::text::white_space(#[trigger] after[i]),
        inner.len() > 0 ==> !crate::text::white_space(inner[0]) && !crate::text::white_space(
            inner.last(),
        ),
    ensures
        crate::text::trimmed(before + inner + after) == inner,
{
    if inner.len() == 0 {
        assert(before + inner + after =~= (before + after) + Seq::<char>::empty());
        lemma_trimmed_start(before + after, Seq::empty());
        assert(inner =~= Seq::<char>::empty());
    } else {
        assert(before + inner + after =~= before + (inner + after));
        lemma_trimmed_start(before, inner + after);
        assert((inner + after)[0] == inner[0]);
        lemma_trimmed_end(inner, after);
    }
}

proof fn lemma_trimmed_start(before: Seq<char>, rest: Seq<char>)
    requires
        forall|i: int| 0 <= i < before.len() ==> crate::text::white_space(#[trigger] before[i]),
    ensures
        crate::text::trimmed_start(before + rest) == crate::text::trimmed_start(rest),
    decreases before.len(),
{
    if before.len() > 0 {
        assert((before + rest)[0] == before[0]);
        assert((before + rest).drop_first() =~= before.drop_first() + rest);
        assert forall|i: int| 0 <= i < before.drop_first().len() implies crate::text::white_space(
            #[trigger] before.drop_first()[i],
        ) by {
            assert(before.drop_first()[i] == before[i + 1]);
        }
        lemma_trimmed_start(before.drop_first(), rest);
    } else {
        assert(before + rest =~= rest);
    }
}

proof fn lemma_trimmed_end(inner: Seq<char>, after: Seq<char>)
    requires
        forall|i: int| 0 <= i < after.len() ==> crate::text::white_space(#[trigger] after[i]),
        inner.len() > 0,
        !crate::text::white_space(inner.last()),
    ensures
        crate::text::trimmed_end(inner + after) == inner,
    decreases after.len(),
{
    if after.len() > 0 {
        assert((inner + after).last() == after[after.len() - 1]);
        assert((inner + after).drop_last() =~= inner + after.drop_last());
        assert forall|i: int| 0 <= i < after.drop_last().len() implies crate::text::white_space(
            #[trigger] after.drop_last()[i],
        ) by {
            assert(after.drop_last()[i] == after[i]);
        }
        lemma_trimmed_end(inner, after.drop_last());
    } else {
        assert(inner + after =~= inner);
    }
}

/// White space is the space, the controls from tab to carriage return, the next
/// line, the no-break spaces, the spaces of the typographer and the separators
/// of lines and paragraphs.
pub proof fn law_white_space(character: char)
    ensures
        crate::text::white_space(character) <==> {
            ||| character == ' '
            ||| '\t' <= character && character <= '\r'
            ||| character == '\u{85}'
            ||| character == '\u{a0}' || character == '\u{202f}'
            ||| '\u{2000}' <= character && character <= '\u{200a}'
            ||| character == '\u{1680}' || character == '\u{205f}' || character == '\u{3000}'
            ||| character == '\u{2028}' || character == '\u{2029}'
        },
{
}

/// A path is a dotfile exactly where its last component is an ordinary name in
/// UTF-8 whose first byte is that of a dot.
pub proof fn law_hidden(text: Seq<u8>)
    ensures
        crate::path::hidden_text(text) <==> {
            let parts = crate::path::parts_of(text);
            &&& parts.len() > 0
            &&& parts.last() matches Part::Normal(name)
            &&& vstd::utf8::valid_utf8(name)
            &&& name.len() > 0
            &&& name[0] == 0x2e
        },
{
    let parts = crate::path::parts_of(text);
    if parts.len() > 0 {
        if let Part::Normal(name) = parts.last() {
            if vstd::utf8::valid_utf8(name) {
                if name.len() > 0 {
                    lemma_first_character(name);
                } else {
                    assert(vstd::utf8::decode_utf8(name).len() == 0);
                }
            }
        }
    }
}

proof fn lemma_first_character(name: Seq<u8>)
    requires
        vstd::utf8::valid_utf8(name),
        name.len() > 0,
    ensures
        vstd::utf8::decode_utf8(name).len() > 0,
        vstd::utf8::decode_utf8(name)[0] == '.' <==> name[0] == 0x2e,
{
    let first = name[0];
    let point = vstd::utf8::decode_first_scalar(name);
    assert(vstd::utf8::decode_utf8(name)[0] == point as char);
    if vstd::utf8::is_leading_byte_width_1(first) {
        assert((first & 0x7f) as u32 == first as u32) by (bit_vector)
            requires
                first <= 0x7f,
        ;
    } else if point as char == '.' {
        vstd::utf8::decode_utf8_first_scalar(name);
        assert(vstd::utf8::encode_scalar(0x2e).len() == 1);
        assert(vstd::utf8::take_first_scalar(name).len() > 1);
    }
}

/// What is shown for a path is its last component, where that is an ordinary
/// name, and else all of it.
pub proof fn law_shown(text: Seq<u8>, name: Seq<u8>)
    ensures
        ({
            let parts = crate::path::parts_of(text);
            &&& parts.len() > 0 && parts.last() == Part::Normal(name) ==> crate::path::shown_text(
                text,
            ) == crate::path::lossy_text(name)
            &&& parts.len() == 0 || !(parts.last() is Normal) ==> crate::path::shown_text(text)
                == crate::path::lossy_text(text)
        }),
{
}

/// Paths are ordered by what is shown for them, in lower case: two paths with
/// the same last name have the same place, wherever they lie.
pub proof fn law_key(text: Seq<u8>, name: Seq<u8>)
    ensures
        ({
            let parts = crate::path::parts_of(text);
            &&& parts.len() > 0 && parts.last() == Part::Normal(name) ==> crate::listing::key_text(
                text,
            ) == crate::text::lowercase(crate::path::lossy_text(name))
            &&& parts.len() == 0 || !(parts.last() is Normal) ==> crate::listing::key_text(text)
                == crate::text::lowercase(crate::path::lossy_text(text))
        }),
{
}

} // verus!
