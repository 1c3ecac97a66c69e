//! Convert nonstandard `[v]` kana to standard `[b]` kana.

use vstd::prelude::*;

use crate::mapping::MappingQueue;
use crate::mapping::apply_mappings;
use crate::mapping::lemma_apply_mappings_empty_input;

verus! {

/// The queued mappings of the v-kana simplification: each v-row kana
/// syllable, hiragana and katakana, paired with its conventional b-row
/// approximation. The two-character syllables stand before the bare v-kana,
/// so that a lone v-kana is replaced only where no small vowel follows it.
pub open spec fn vu_to_bu_pairs() -> Seq<(Seq<char>, Seq<char>)> {
    seq![
        (("ゔぁ")@, ("ば")@),
        (("ゔぃ")@, ("び")@),
        (("ゔぇ")@, ("べ")@),
        (("ゔぉ")@, ("ぼ")@),
        (("ゔ")@, ("ぶ")@),
        (("ヴァ")@, ("バ")@),
        (("ヴィ")@, ("ビ")@),
        (("ヴェ")@, ("ベ")@),
        (("ヴォ")@, ("ボ")@),
        (("ヴ")@, ("ブ")@),
    ]
}

/// Build the v-kana simplification queue.
fn build_vu_to_bu() -> (q: MappingQueue<'static>)
    ensures
        q@ == vu_to_bu_pairs(),
{
    let q = MappingQueue::new()
        .push("ゔぁ", "ば")
        .push("ゔぃ", "び")
        .push("ゔぇ", "べ")
        .push("ゔぉ", "ぼ")
        .push("ゔ", "ぶ")
        .push("ヴァ", "バ")
        .push("ヴィ", "ビ")
        .push("ヴェ", "ベ")
        .push("ヴォ", "ボ")
        .push("ヴ", "ブ");
    proof {
        assert(q@ =~= vu_to_bu_pairs());
    }
    q
}

/// Map nonstandard `[v]` kana (\u{30f4}) to standard `[b]` kana (\u{30d6}).
///
/// Every occurrence of a v-row syllable is replaced by its b-row
/// counterpart; any other character passes through unchanged, and the
/// empty string stays empty.
pub fn vu_to_bu(input: &str) -> (r: String)
    ensures
        r@ == apply_mappings(input@, vu_to_bu_pairs()),
        input@.len() == 0 ==> r@.len() == 0,
{
    let q = build_vu_to_bu();
    let r = q.apply(input);
    proof {
        if input@.len() == 0 {
            assert(input@ =~= Seq::<char>::empty());
            lemma_apply_mappings_empty_input(vu_to_bu_pairs());
        }
    }
    r
}

} // verus!
