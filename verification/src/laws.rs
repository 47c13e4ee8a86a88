//! What holds of the model across updates, stated over the mapping and
//! over what the model shows.

use crate::model::{
    lemma_preimages_bounded, lemma_preimages_insert, lemma_preimages_remove, preimages, rendered,
    rendering, updated, Cryptoquip, QuipView, RenderedChar, ERASE, PLACEHOLDER,
};
use crate::unicode::is_letter;
use vstd::prelude::*;
use vstd::set_lib::lemma_len_subset;

verus! {

/// Two models in order that hold the same mapping record the same count
/// for every image: the counts are a function of the mapping.
pub proof fn law_counts_follow_mapping(a: Cryptoquip, b: Cryptoquip, g: char)
    requires
        a.wf(),
        b.wf(),
        a@.mapping == b@.mapping,
    ensures
        a.use_count(g) == b.use_count(g),
        a.use_count(g) == preimages(a@.mapping, g).len(),
{
}

/// Erasing the guess for `p` a second time changes nothing: where `once`
/// is the model `start` after the first erasure and `twice` the model after
/// the second, both stand for the same ciphertext and mapping, record the
/// same counts, and show the same.
pub proof fn law_erase_is_idempotent(start: Cryptoquip, once: Cryptoquip, twice: Cryptoquip, p: char)
    requires
        start.wf(),
        once.wf(),
        twice.wf(),
        once@.ciphertext == start@.ciphertext,
        once@.mapping == updated(start@.mapping, p, ERASE),
        twice@.ciphertext == once@.ciphertext,
        twice@.mapping == updated(once@.mapping, p, ERASE),
    ensures
        twice@ == once@,
        forall|g: char| twice.use_count(g) == once.use_count(g),
        rendering(twice@) == rendering(once@),
{
    assert(twice@.mapping =~= once@.mapping);
    assert forall|g: char| twice.use_count(g) == once.use_count(g) by {
        law_counts_follow_mapping(twice, once, g);
    }
}

/// With no guesses, every letter of the ciphertext shows as the
/// placeholder and every other character as itself, none of them flagged.
pub proof fn law_cleared_shows_placeholders(v: QuipView, i: int)
    requires
        v.mapping == Map::<char, char>::empty(),
        0 <= i < v.ciphertext.len(),
    ensures
        rendering(v).len() == v.ciphertext.len(),
        is_letter(v.ciphertext[i]) ==> rendering(v)[i] == (RenderedChar {
            glyph: PLACEHOLDER,
            ambiguous: false,
        }),
        !is_letter(v.ciphertext[i]) ==> rendering(v)[i] == (RenderedChar {
            glyph: v.ciphertext[i],
            ambiguous: false,
        }),
{
}

/// Two distinct pre-images with the same image both show as that image,
/// flagged.
pub proof fn law_shared_image_is_flagged(m: Map<char, char>, p1: char, p2: char)
    requires
        p1 != p2,
        m.contains_key(p1),
        m.contains_key(p2),
        m[p1] == m[p2],
    ensures
        rendered(m, p1) == (RenderedChar { glyph: m[p1], ambiguous: true }),
        rendered(m, p2) == (RenderedChar { glyph: m[p1], ambiguous: true }),
{
    let g = m[p1];
    let both = set![p1, p2];
    lemma_preimages_bounded(m, g);
    assert(both.len() == 2);
    lemma_len_subset(both, preimages(m, g));
}

/// Where exactly two pre-images share the image `g`, giving one of them
/// another image, or none, leaves the other shown as `g` without the flag.
pub proof fn law_remap_drops_flag(m: Map<char, char>, p1: char, p2: char, post: char)
    requires
        p1 != p2,
        m.contains_key(p1),
        m.contains_key(p2),
        m[p1] == m[p2],
        forall|p: char| m.contains_key(p) && m[p] == m[p1] ==> p == p1 || p == p2,
        post != m[p1],
    ensures
        rendered(updated(m, p1, post), p2) == (RenderedChar { glyph: m[p2], ambiguous: false }),
{
    let g = m[p1];
    let after = updated(m, p1, post);
    assert(preimages(after, g) =~= set![p2]);
}

/// An update moves one pre-image: the image that `pre` had loses it, the
/// image that `pre` gets gains it, and every other image keeps the
/// pre-images it had.
pub proof fn law_update_moves_one_preimage(m: Map<char, char>, pre: char, post: char, g: char)
    ensures
        preimages(updated(m, pre, post), g) == if post != ERASE && g == post {
            preimages(m, g).insert(pre)
        } else {
            preimages(m, g).remove(pre)
        },
{
    let without = m.remove(pre);
    lemma_preimages_remove(m, pre, g);
    if post != ERASE {
        assert(m.insert(pre, post) =~= without.insert(pre, post));
        lemma_preimages_insert(without, pre, post, g);
    }
}

} // verus!
