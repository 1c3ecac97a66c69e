//! Convert between hiragana and katakana.

use vstd::prelude::*;

use crate::mapping;
use crate::mapping::MappingQueue;
use crate::mapping::apply_mappings;
use crate::mapping::char_pairs;
use crate::mapping::lemma_apply_mappings_empty_input;

verus! {

/// Katakana unicode block plus repetition marks.
pub const KATAKANA: &'static str = "ァアィイゥウェエォオカガキギクグケゲコゴサザシジスズセゼソゾタダチヂッツヅテデトドナニヌネノハバパヒビピフブプヘベペホボポマミムメモャヤュユョヨラリルレロヮワヰヱヲンヴヵヶヽヾ";

/// Hiragana unicode block plus repetition marks, in the same order.
pub const HIRAGANA: &'static str = "ぁあぃいぅうぇえぉおかがきぎくぐけげこごさざしじすずせぜそぞただちぢっつづてでとどなにぬねのはばぱひびぴふぶぷへべぺほぼぽまみむめもゃやゅゆょよらりるれろゎわゐゑをんゔゕゖゝゞ";

/// Archaic hiragana: the yi syllable.
pub const YI_H: &'static str = "𛀆";

/// Archaic hiragana: the ye syllable.
pub const YE_H: &'static str = "𛀁";

/// Archaic hiragana: the w-row wu syllable.
pub const WU_H: &'static str = "𛄟";

/// Small-form hiragana ko.
pub const KO_H: &'static str = "𛄲";

/// Archaic katakana: the yi syllable.
pub const YI_K: &'static str = "𛄠";

/// Archaic katakana: the ye syllable.
pub const YE_K: &'static str = "𛄡";

/// Archaic katakana: the w-row wu syllable.
pub const WU_K: &'static str = "𛄢";

/// Small-form katakana ko.
pub const KO_K: &'static str = "𛅕";

/// The queued mappings from hiragana to katakana: the two kana tables
/// paired position by position, then the exception pairs.
///
/// The dakuten exceptions pair a katakana w-row character followed by the
/// combining voiced sound mark (two scalars, produced by the base-table
/// step from a decomposed hiragana spelling) with the precomposed katakana
/// character (one scalar). They act on the output of the base-table pairs
/// queued before them, so a decomposed hiragana w-row syllable ends as a
/// single precomposed katakana character.
pub open spec fn hira_to_kata_pairs() -> Seq<(Seq<char>, Seq<char>)> {
    char_pairs(HIRAGANA@, KATAKANA@) + seq![
        (("ヷ")@, ("ヷ")@),
        (("ヸ")@, ("ヸ")@),
        (("ヹ")@, ("ヹ")@),
        (("ヺ")@, ("ヺ")@),
        (YI_H@, YI_K@),
        (YE_H@, YE_K@),
        (WU_H@, WU_K@),
        (KO_H@, KO_K@),
    ]
}

/// The queued mappings from katakana to hiragana: the two kana tables
/// paired the other way round, then the exception pairs.
///
/// The dakuten exceptions pair each precomposed voiced katakana w-row
/// character (one scalar) with a hiragana base character followed by the
/// combining voiced sound mark (two scalars): hiragana has no precomposed
/// equivalent, so the decomposed spelling is the defined image.
pub open spec fn kata_to_hira_pairs() -> Seq<(Seq<char>, Seq<char>)> {
    char_pairs(KATAKANA@, HIRAGANA@) + seq![
        (("ヷ")@, ("わ゙")@),
        (("ヸ")@, ("ゐ゙")@),
        (("ヹ")@, ("ゑ゙")@),
        (("ヺ")@, ("を゙")@),
        (YI_K@, YI_H@),
        (YE_K@, YE_H@),
        (WU_K@, WU_H@),
        (KO_K@, KO_H@),
    ]
}

/// The two kana tables hold the same number of characters, so their
/// positional pairing exists.
proof fn lemma_tables_same_len()
    ensures
        HIRAGANA@.len() == KATAKANA@.len(),
{
    reveal_strlit("ぁあぃいぅうぇえぉおかがきぎくぐけげこごさざしじすずせぜそぞただちぢっつづてでとどなにぬねのはばぱひびぴふぶぷへべぺほぼぽまみむめもゃやゅゆょよらりるれろゎわゐゑをんゔゕゖゝゞ");
    reveal_strlit("ァアィイゥウェエォオカガキギクグケゲコゴサザシジスズセゼソゾタダチヂッツヅテデトドナニヌネノハバパヒビピフブプヘベペホボポマミムメモャヤュユョヨラリルレロヮワヰヱヲンヴヵヶヽヾ");
}

/// Build the hiragana-to-katakana queue.
fn build_hira_to_kata() -> (q: MappingQueue<'static>)
    ensures
        q@ == hira_to_kata_pairs(),
{
    proof {
        lemma_tables_same_len();
    }
    let q = MappingQueue::new()
        .extend(mapping::char_mappings(HIRAGANA, KATAKANA))
        .push("ヷ", "ヷ")
        .push("ヸ", "ヸ")
        .push("ヹ", "ヹ")
        .push("ヺ", "ヺ")
        .push(YI_H, YI_K)
        .push(YE_H, YE_K)
        .push(WU_H, WU_K)
        .push(KO_H, KO_K);
    proof {
        assert(q@ =~= hira_to_kata_pairs());
    }
    q
}

/// Build the katakana-to-hiragana queue.
fn build_kata_to_hira() -> (q: MappingQueue<'static>)
    ensures
        q@ == kata_to_hira_pairs(),
{
    proof {
        lemma_tables_same_len();
    }
    let q = MappingQueue::new()
        .extend(mapping::char_mappings(KATAKANA, HIRAGANA))
        .push("ヷ", "わ゙")
        .push("ヸ", "ゐ゙")
        .push("ヹ", "ゑ゙")
        .push("ヺ", "を゙")
        .push(YI_K, YI_H)
        .push(YE_K, YE_H)
        .push(WU_K, WU_H)
        .push(KO_K, KO_H);
    proof {
        assert(q@ =~= kata_to_hira_pairs());
    }
    q
}

/// Map hiragana to katakana.
///
/// Every table character is replaced by its positional partner and the
/// exception pairs then normalize decomposed w-row dakuten syllables to
/// their precomposed katakana form; any other character passes through
/// unchanged, and the empty string stays empty.
pub fn hira_to_kata(input: &str) -> (r: String)
    ensures
        r@ == apply_mappings(input@, hira_to_kata_pairs()),
        input@.len() == 0 ==> r@.len() == 0,
{
    let q = build_hira_to_kata();
    let r = q.apply(input);
    proof {
        if input@.len() == 0 {
            assert(input@ =~= Seq::<char>::empty());
            lemma_apply_mappings_empty_input(hira_to_kata_pairs());
        }
    }
    r
}

/// Map katakana to hiragana.
///
/// Every table character is replaced by its positional partner and the
/// exception pairs then spell each precomposed voiced w-row katakana
/// character as a hiragana base character plus combining mark; any other
/// character passes through unchanged, and the empty string stays empty.
pub fn kata_to_hira(input: &str) -> (r: String)
    ensures
        r@ == apply_mappings(input@, kata_to_hira_pairs()),
        input@.len() == 0 ==> r@.len() == 0,
{
    let q = build_kata_to_hira();
    let r = q.apply(input);
    proof {
        if input@.len() == 0 {
            assert(input@ =~= Seq::<char>::empty());
            lemma_apply_mappings_empty_input(kata_to_hira_pairs());
        }
    }
    r
}

} // verus!
