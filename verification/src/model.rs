//! The substitution model: a ciphertext, the guessed letter-to-letter
//! mapping, and for each image letter the number of pre-images guessed for it.

use crate::unicode::is_letter;
use std::collections::HashMap;
use vstd::pervasive::unreached;
use vstd::prelude::*;
use vstd::set_lib::{lemma_int_range, lemma_len_subset, lemma_map_size_bound, set_int_range};

verus! {

/// The character that, given as an image, erases the guess for a pre-image.
pub const ERASE: char = '.';

/// The character shown in place of a ciphertext letter that has no guess yet.
pub const PLACEHOLDER: char = '.';

/// The pre-images that `m` sends to the image `g`.
pub open spec fn preimages(m: Map<char, char>, g: char) -> Set<char> {
    Set::new(|p: char| m.contains_key(p) && m[p] == g)
}

/// The mapping after one update: the guess for `pre` is erased when `post` is
/// the erase marker, and set to `post` otherwise.
pub open spec fn updated(m: Map<char, char>, pre: char, post: char) -> Map<char, char> {
    if post == ERASE {
        m.remove(pre)
    } else {
        m.insert(pre, post)
    }
}

/// What a model stands for: its ciphertext and its guessed mapping.
pub struct QuipView {
    pub ciphertext: Seq<char>,
    pub mapping: Map<char, char>,
}

/// One position of the ciphertext as shown through the guess.
#[derive(Clone, Copy, Debug, PartialEq, Eq, Structural)]
pub struct RenderedChar {
    /// The character to show.
    pub glyph: char,
    /// Whether the character is an image that several pre-images share.
    pub ambiguous: bool,
}

impl RenderedChar {
    /// What the ciphertext character `c` shows as, given its guess, if it
    /// has one, as the image with the number of pre-images of that image,
    /// and given whether `c` is a letter.
    pub open spec fn shown(c: char, guess: Option<(char, nat)>, letter: bool) -> RenderedChar {
        match guess {
            Some((image, uses)) => RenderedChar { glyph: image, ambiguous: uses > 1 },
            None => if letter {
                RenderedChar { glyph: PLACEHOLDER, ambiguous: false }
            } else {
                RenderedChar { glyph: c, ambiguous: false }
            },
        }
    }

    /// Computes [`RenderedChar::shown`].
    pub fn of(c: char, guess: Option<(char, u32)>, letter: bool) -> (r: RenderedChar)
        ensures
            r == RenderedChar::shown(
                c,
                match guess {
                    Some((image, uses)) => Some((image, uses as nat)),
                    None => None,
                },
                letter,
            ),
    {
        match guess {
            Some((image, uses)) => RenderedChar { glyph: image, ambiguous: uses > 1 },
            None => if letter {
                RenderedChar { glyph: PLACEHOLDER, ambiguous: false }
            } else {
                RenderedChar { glyph: c, ambiguous: false }
            },
        }
    }
}

/// The guess that `m` holds for `c`: its image, with the number of
/// pre-images that share that image.
pub open spec fn guess_for(m: Map<char, char>, c: char) -> Option<(char, nat)> {
    if m.contains_key(c) {
        Some((m[c], preimages(m, m[c]).len()))
    } else {
        None
    }
}

/// How the ciphertext character `c` shows through the mapping `m`: as its
/// image, flagged when another pre-image has the same image; unchanged
/// when it is no letter; as the placeholder when it is a letter without a
/// guess.
pub open spec fn rendered(m: Map<char, char>, c: char) -> RenderedChar {
    RenderedChar::shown(c, guess_for(m, c), is_letter(c))
}

/// The ciphertext shown through the mapping, position by position.
pub open spec fn rendering(v: QuipView) -> Seq<RenderedChar> {
    Seq::new(v.ciphertext.len(), |i: int| rendered(v.mapping, v.ciphertext[i]))
}

/// A ciphertext with the guesses made for it so far.
pub struct Cryptoquip {
    ciphertext: String,
    map: HashMap<u32, char>,
    key_count: HashMap<u32, u32>,
}

impl View for Cryptoquip {
    type V = QuipView;

    closed spec fn view(&self) -> QuipView {
        QuipView {
            ciphertext: self.ciphertext@,
            mapping: Map::new(
                |p: char| self.map@.contains_key(code(p)),
                |p: char| self.map@[code(p)],
            ),
        }
    }
}

/// The key under which the tables file a character.
spec fn code(c: char) -> u32 {
    c as u32
}

/// A character's key is its code point, so distinct characters have
/// distinct keys.
broadcast proof fn lemma_code(c: char)
    ensures
        #[trigger] code(c) as int == c as int,
        0 <= (c as int) < char_codes(),
        (c as int) as char == c,
{
}

/// One more than the largest code a character can have.
pub open spec fn char_codes() -> nat {
    0x11_0000
}

/// Every image has finitely many pre-images, no more than there are
/// characters.
pub proof fn lemma_preimages_bounded(m: Map<char, char>, g: char)
    ensures
        preimages(m, g).finite(),
        preimages(m, g).len() <= char_codes(),
{
    let codes = set_int_range(0, char_codes() as int);
    let of_code = |i: int| i as char;
    let chars = codes.map(of_code);
    lemma_int_range(0, char_codes() as int);
    lemma_map_size_bound(codes, chars, of_code);
    assert forall|p: char| preimages(m, g).contains(p) implies chars.contains(p) by {
        lemma_code(p);
        assert(codes.contains(p as int));
    }
    lemma_len_subset(preimages(m, g), chars);
}

/// Erasing the guess for `pre` takes `pre` out of the pre-images of its
/// image and leaves the pre-images of every other image as they were.
pub proof fn lemma_preimages_remove(m: Map<char, char>, pre: char, g: char)
    ensures
        preimages(m.remove(pre), g) == if m.contains_key(pre) && m[pre] == g {
            preimages(m, g).remove(pre)
        } else {
            preimages(m, g)
        },
{
}

/// Guessing `post` for a `pre` that has no guess adds `pre` to the
/// pre-images of `post` and leaves the pre-images of every other image as
/// they were.
pub proof fn lemma_preimages_insert(m: Map<char, char>, pre: char, post: char, g: char)
    requires
        !m.contains_key(pre),
    ensures
        preimages(m.insert(pre, post), g) == if g == post {
            preimages(m, g).insert(pre)
        } else {
            preimages(m, g)
        },
{
}

impl Cryptoquip {
    /// The recorded number of pre-images of `g`; an absent record counts as zero.
    pub closed spec fn use_count(&self, g: char) -> nat {
        if self.key_count@.contains_key(code(g)) {
            self.key_count@[code(g)] as nat
        } else {
            0
        }
    }

    /// The invariant of the model: only letters are mapped, only to letters,
    /// and the recorded count of every image is the number of pre-images
    /// currently mapped to it.
    pub open spec fn wf(&self) -> bool {
        &&& forall|p: char| #[trigger]
            self@.mapping.contains_key(p) ==> is_letter(p) && is_letter(self@.mapping[p])
        &&& forall|g: char| #[trigger] self.use_count(g) == preimages(self@.mapping, g).len()
    }

    /// A model of `c` with no guesses.
    pub fn new(c: &str) -> (q: Cryptoquip)
        ensures
            q.wf(),
            q@.ciphertext == c@,
            q@.mapping == Map::<char, char>::empty(),
    {
        let q = Cryptoquip {
            ciphertext: c.to_owned(),
            map: HashMap::new(),
            key_count: HashMap::new(),
        };
        proof {
            assert forall|g: char| #[trigger] q.use_count(g) == preimages(q@.mapping, g).len() by {
                assert(preimages(q@.mapping, g) =~= Set::<char>::empty());
            }
        }
        q
    }

    /// Drops every guess and keeps the ciphertext.
    pub fn reset_map(&mut self)
        ensures
            final(self).wf(),
            final(self)@.ciphertext == old(self)@.ciphertext,
            final(self)@.mapping == Map::<char, char>::empty(),
    {
        self.map.clear();
        self.key_count.clear();
        proof {
            assert forall|g: char| #[trigger]
                self.use_count(g) == preimages(self@.mapping, g).len() by {
                assert(preimages(self@.mapping, g) =~= Set::<char>::empty());
            }
        }
    }

    /// Drops every guess and takes `c` as the new ciphertext.
    pub fn reset(&mut self, c: &str)
        ensures
            final(self).wf(),
            final(self)@.ciphertext == c@,
            final(self)@.mapping == Map::<char, char>::empty(),
    {
        self.reset_map();
        let ghost cleared = *self;
        self.ciphertext = c.to_owned();
        proof {
            assert forall|g: char| #[trigger]
                self.use_count(g) == preimages(self@.mapping, g).len() by {
                assert(self.use_count(g) == cleared.use_count(g));
            }
        }
    }

    /// Changes the guess for the ciphertext letter `pre`: to the letter
    /// `post`, or to no guess where `post` is the erase marker.
    ///
    /// The count of the image that `pre` had, if any, goes down by one and
    /// the count of its new image, if any, goes up by one, so that the
    /// counts keep telling how many pre-images each image has.
    pub fn update(&mut self, pre: char, post: char)
        requires
            old(self).wf(),
            is_letter(pre),
            post == ERASE || is_letter(post),
        ensures
            final(self).wf(),
            final(self)@.ciphertext == old(self)@.ciphertext,
            final(self)@.mapping == updated(old(self)@.mapping, pre, post),
            post == ERASE && !old(self)@.mapping.contains_key(pre) ==> final(self)@.mapping
                == old(self)@.mapping,
            forall|g: char| #[trigger]
                final(self).use_count(g) == old(self).use_count(g) - (if old(
                    self,
                )@.mapping.contains_key(pre) && old(self)@.mapping[pre] == g {
                    1int
                } else {
                    0int
                }) + (if post != ERASE && g == post {
                    1int
                } else {
                    0int
                }),
    {
        broadcast use vstd::std_specs::hash::group_hash_axioms;
        broadcast use lemma_code;

        let ghost before = *self;
        let ghost m = self@.mapping;
        let ghost m0 = m.remove(pre);
        let k: u32 = pre as u32;
        let prev: Option<char> = match self.map.get(&k) {
            Some(p) => Some(*p),
            None => None,
        };
        match prev {
            Some(prior) => {
                let pk: u32 = prior as u32;
                proof {
                    lemma_preimages_bounded(m, prior);
                    assert(preimages(m, prior).contains(pre));
                    assert(self.use_count(prior) >= 1);
                }
                // The invariant rules out a missing record.
                let n: u32 = match self.key_count.get(&pk) {
                    Some(n) => *n,
                    None => unreached(),
                };
                self.key_count.insert(pk, n - 1);
            },
            None => {},
        }
        let ghost erased = *self;
        proof {
            assert forall|g: char| #[trigger] erased.use_count(g) == preimages(m0, g).len() by {
                lemma_preimages_remove(m, pre, g);
                lemma_preimages_bounded(m, g);
                assert(before.use_count(g) == preimages(m, g).len());
            }
        }
        if post != ERASE {
            let pk: u32 = post as u32;
            proof {
                lemma_preimages_bounded(m0, post);
                assert(erased.use_count(post) == preimages(m0, post).len());
            }
            let n: u32 = match self.key_count.get(&pk) {
                Some(n) => *n,
                None => 0,
            };
            self.key_count.insert(pk, n + 1);
            self.map.insert(k, post);
            proof {
                assert(m.insert(pre, post) =~= m0.insert(pre, post));
                assert(self@.mapping =~= m.insert(pre, post));
                assert forall|g: char| #[trigger]
                    self.use_count(g) == preimages(self@.mapping, g).len() by {
                    lemma_preimages_insert(m0, pre, post, g);
                    lemma_preimages_bounded(m0, g);
                    assert(erased.use_count(g) == preimages(m0, g).len());
                }
            }
        } else {
            self.map.remove(&k);
            proof {
                assert(self@.mapping =~= m0);
                assert forall|g: char| #[trigger]
                    self.use_count(g) == preimages(self@.mapping, g).len() by {
                    assert(erased.use_count(g) == preimages(m0, g).len());
                }
            }
        }
    }

    /// The ciphertext.
    pub fn ciphertext(&self) -> (c: &str)
        ensures
            c@ == self@.ciphertext,
    {
        self.ciphertext.as_str()
    }

    /// The image guessed for `pre`, if there is one.
    pub fn image_of(&self, pre: char) -> (image: Option<char>)
        ensures
            image == if self@.mapping.contains_key(pre) {
                Some(self@.mapping[pre])
            } else {
                None
            },
    {
        broadcast use vstd::std_specs::hash::group_hash_axioms;

        let k: u32 = pre as u32;
        match self.map.get(&k) {
            Some(p) => Some(*p),
            None => None,
        }
    }

    /// The number of pre-images whose guess is `image`.
    pub fn image_use_count(&self, image: char) -> (n: u32)
        requires
            self.wf(),
        ensures
            n == preimages(self@.mapping, image).len(),
    {
        broadcast use vstd::std_specs::hash::group_hash_axioms;

        let k: u32 = image as u32;
        proof {
            assert(self.use_count(image) == preimages(self@.mapping, image).len());
        }
        match self.key_count.get(&k) {
            Some(n) => *n,
            None => 0,
        }
    }

    /// The ciphertext shown through the guesses: one element for each
    /// character of the ciphertext, in order.
    pub fn render(&self) -> (out: Vec<RenderedChar>)
        requires
            self.wf(),
        ensures
            out@ == rendering(self@),
            out@.len() == self@.ciphertext.len(),
            forall|i: int|
                0 <= i < out@.len() ==> #[trigger] out@[i] == rendered(
                    self@.mapping,
                    self@.ciphertext[i],
                ),
    {
        let mut out: Vec<RenderedChar> = Vec::new();
        for c in it: self.ciphertext.as_str().chars()
            invariant
                self.wf(),
                it.seq() == self@.ciphertext,
                out@.len() == it.index(),
                forall|j: int|
                    0 <= j < out@.len() ==> out@[j] == rendered(
                        self@.mapping,
                        #[trigger] self@.ciphertext[j],
                    ),
        {
            let guess = match self.image_of(c) {
                Some(image) => Some((image, self.image_use_count(image))),
                None => None,
            };
            out.push(RenderedChar::of(c, guess, c.is_alphabetic()));
        }
        out
    }
}

} // verus!
