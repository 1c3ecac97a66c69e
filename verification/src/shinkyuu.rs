//! Convert between shinjitai and kyuujitai kanji forms.

use vstd::prelude::*;

use crate::mapping;
use crate::mapping::MappingQueue;
use crate::mapping::apply_mappings;
use crate::mapping::char_pairs;
use crate::mapping::lemma_apply_mappings_empty_input;

verus! {

/// Extended shinjitai (reformed forms outside the standard reform list)
/// that exist in Unicode.
pub const KAKUCHOU_SHINJITAI: &'static str = "欝焔噛侠躯屡渚蝉騨黛琢巽箪掴顛涜嚢溌醗莱遼蓮蝋攅枦爨舮輓靠胄皋倶呑嘘妍繋唖頴鴎撹麹鹸噛繍蒋醤掻祷屏并桝沪芦蝋弯鯵鴬蛎竃潅諌頚砿蕊賎壷砺梼涛迩蝿桧侭薮渓僣忰抬昿槞档椢檪渊珱畴筝緕褝譛輌鈬鈩鑚陦麸鼡祢巌槙靖遥卿腱筵";

/// Original kyuujitai form of each extended shinjitai above, in the same
/// order.
pub const KAKUCHOU_KYUUJITAI: &'static str = "鬱焰嚙俠軀屢渚蟬驒薰琢巽簞摑顚瀆囊潑醱萊遼蓮蠟攢櫨爨艫輓靠冑皐俱吞噓姸繫啞穎鷗攪麴鹼嚙繡蔣醬搔禱屛幷枡濾蘆蠟彎鰺鶯蠣竈灌諫頸礦蘂賤壺礪檮濤邇蠅檜儘藪溪僭悴擡曠櫳檔槶櫟淵瓔疇箏纃襌譖輛鐸鑪鑽隯麩鼠禰巖槇靖遙卿腱筵";

/// The queued mappings from extended shinjitai to kyuujitai: the two
/// character tables paired position by position.
pub open spec fn kakushin_to_kyuu_pairs() -> Seq<(Seq<char>, Seq<char>)> {
    char_pairs(KAKUCHOU_SHINJITAI@, KAKUCHOU_KYUUJITAI@)
}

/// The queued mappings from kyuujitai to extended shinjitai: the same two
/// tables paired the other way round.
pub open spec fn kyuu_to_kakushin_pairs() -> Seq<(Seq<char>, Seq<char>)> {
    char_pairs(KAKUCHOU_KYUUJITAI@, KAKUCHOU_SHINJITAI@)
}

/// The two tables hold the same number of characters, so their positional
/// pairing exists.
proof fn lemma_tables_same_len()
    ensures
        KAKUCHOU_SHINJITAI@.len() == KAKUCHOU_KYUUJITAI@.len(),
{
    reveal_strlit("欝焔噛侠躯屡渚蝉騨黛琢巽箪掴顛涜嚢溌醗莱遼蓮蝋攅枦爨舮輓靠胄皋倶呑嘘妍繋唖頴鴎撹麹鹸噛繍蒋醤掻祷屏并桝沪芦蝋弯鯵鴬蛎竃潅諌頚砿蕊賎壷砺梼涛迩蝿桧侭薮渓僣忰抬昿槞档椢檪渊珱畴筝緕褝譛輌鈬鈩鑚陦麸鼡祢巌槙靖遥卿腱筵");
    reveal_strlit("鬱焰嚙俠軀屢渚蟬驒薰琢巽簞摑顚瀆囊潑醱萊遼蓮蠟攢櫨爨艫輓靠冑皐俱吞噓姸繫啞穎鷗攪麴鹼嚙繡蔣醬搔禱屛幷枡濾蘆蠟彎鰺鶯蠣竈灌諫頸礦蘂賤壺礪檮濤邇蠅檜儘藪溪僭悴擡曠櫳檔槶櫟淵瓔疇箏纃襌譖輛鐸鑪鑽隯麩鼠禰巖槇靖遙卿腱筵");
}

/// Build the shinjitai-to-kyuujitai queue.
fn build_kakushin_to_kyuu() -> (q: MappingQueue<'static>)
    ensures
        q@ == kakushin_to_kyuu_pairs(),
{
    proof {
        lemma_tables_same_len();
    }
    let q = MappingQueue::new().extend(mapping::char_mappings(
        KAKUCHOU_SHINJITAI,
        KAKUCHOU_KYUUJITAI,
    ));
    proof {
        assert(q@ =~= kakushin_to_kyuu_pairs());
    }
    q
}

/// Build the kyuujitai-to-shinjitai queue.
fn build_kyuu_to_kakushin() -> (q: MappingQueue<'static>)
    ensures
        q@ == kyuu_to_kakushin_pairs(),
{
    proof {
        lemma_tables_same_len();
    }
    let q = MappingQueue::new().extend(mapping::char_mappings(
        KAKUCHOU_KYUUJITAI,
        KAKUCHOU_SHINJITAI,
    ));
    proof {
        assert(q@ =~= kyuu_to_kakushin_pairs());
    }
    q
}

/// Map extended shinjitai to their original kyuujitai form.
///
/// Every table character is replaced by its positional partner; any other
/// character passes through unchanged, and the empty string stays empty.
pub fn kakushin_to_kyuu(input: &str) -> (r: String)
    ensures
        r@ == apply_mappings(input@, kakushin_to_kyuu_pairs()),
        input@.len() == 0 ==> r@.len() == 0,
{
    let q = build_kakushin_to_kyuu();
    let r = q.apply(input);
    proof {
        if input@.len() == 0 {
            assert(input@ =~= Seq::<char>::empty());
            lemma_apply_mappings_empty_input(kakushin_to_kyuu_pairs());
        }
    }
    r
}

/// Map kyuujitai to their extended shinjitai form.
///
/// Every table character is replaced by its positional partner; any other
/// character passes through unchanged, and the empty string stays empty.
pub fn kyuu_to_kakushin(input: &str) -> (r: String)
    ensures
        r@ == apply_mappings(input@, kyuu_to_kakushin_pairs()),
        input@.len() == 0 ==> r@.len() == 0,
{
    let q = build_kyuu_to_kakushin();
    let r = q.apply(input);
    proof {
        if input@.len() == 0 {
            assert(input@ =~= Seq::<char>::empty());
            lemma_apply_mappings_empty_input(kyuu_to_kakushin_pairs());
        }
    }
    r
}

} // verus!
