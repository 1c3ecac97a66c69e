//! Simplification of the non-standard v-row kana to their b-row
//! approximations, hiragana and katakana alike.

use konbaato::vu_to_bu;

const VU_EXPECTED_BU: [(&str, &str); 10] = [
    ("ヴァイオリン", "バイオリン"),
    ("ヴィクトリー", "ビクトリー"),
    ("ラヴ", "ラブ"),
    ("ベートーヴェン", "ベートーベン"),
    ("ヴォイス", "ボイス"),
    ("ゔぁいおりん", "ばいおりん"),
    ("ゔぃくとりい", "びくとりい"),
    ("らゔ", "らぶ"),
    ("べえとおゔぇん", "べえとおべん"),
    ("ゔぉいす", "ぼいす"),
];

#[test]
fn vu_bu_mapping() {
    for (vu, expected_bu) in VU_EXPECTED_BU {
        assert_eq!(&vu_to_bu(vu), expected_bu);
    }
}
