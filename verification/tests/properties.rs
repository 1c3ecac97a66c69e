//! Properties of the public conversion functions on concrete inputs:
//! identity on the empty string, pass-through of unmapped characters,
//! round-trips of the hand-authored exception pairs, stability of the
//! double-hop kana normalization, and the headline scenarios.

use konbaato::hirakata::{HIRAGANA, KATAKANA};
use konbaato::shinkyuu::{KAKUCHOU_KYUUJITAI, KAKUCHOU_SHINJITAI};
use konbaato::{hira_to_kata, kakushin_to_kyuu, kata_to_hira, kyuu_to_kakushin, vu_to_bu};

#[test]
fn empty_input_all_functions() {
    assert_eq!(hira_to_kata(""), "");
    assert_eq!(kata_to_hira(""), "");
    assert_eq!(kyuu_to_kakushin(""), "");
    assert_eq!(kakushin_to_kyuu(""), "");
    assert_eq!(vu_to_bu(""), "");
}

#[test]
fn scenarios() {
    assert_eq!(hira_to_kata("かたかな"), "カタカナ");
    assert_eq!(kata_to_hira("ヒラガナ"), "ひらがな");
    assert_eq!(vu_to_bu("ヴァイオリン"), "バイオリン");
    assert_eq!(kyuu_to_kakushin("攪拌"), "撹拌");
    assert_eq!(kakushin_to_kyuu("撹拌"), "攪拌");
    assert_eq!(kakushin_to_kyuu("侭ならぬ"), "儘ならぬ");
    assert_eq!(hira_to_kata("ゐ"), "ヰ");
    assert_eq!(kata_to_hira("\u{30fa}"), "\u{3092}\u{3099}");
}

#[test]
fn pass_through_unmapped_characters() {
    assert_eq!(hira_to_kata("かabたc"), "カabタc");
    assert_eq!(kata_to_hira("カ1タ2ナ!"), "か1た2な!");
    assert_eq!(kyuu_to_kakushin("abc あいう ABC"), "abc あいう ABC");
    assert_eq!(vu_to_bu("violin ヴァ violin"), "violin バ violin");
}

#[test]
fn exception_pairs_round_trip() {
    let composite = [
        ("\u{308f}\u{3099}", "\u{30f7}"),
        ("\u{3090}\u{3099}", "\u{30f8}"),
        ("\u{3091}\u{3099}", "\u{30f9}"),
        ("\u{3092}\u{3099}", "\u{30fa}"),
    ];
    for (hira, kata) in composite {
        assert_eq!(&hira_to_kata(hira), kata);
        assert_eq!(&kata_to_hira(kata), hira);
    }
    let archaic = [
        ("𛀆", "𛄠"),
        ("𛀁", "𛄡"),
        ("𛄟", "𛄢"),
        ("𛄲", "𛅕"),
    ];
    for (hira, kata) in archaic {
        assert_eq!(&hira_to_kata(hira), kata);
        assert_eq!(&kata_to_hira(kata), hira);
    }
}

#[test]
fn double_hop_stability() {
    let inputs = [
        "",
        "かたかな",
        "カタカナ",
        "ヒラガナとひらがな",
        "\u{30f7}\u{30f8}\u{30f9}\u{30fa}",
        "\u{308f}\u{3099}\u{3092}\u{3099}",
        "mixed ascii と 漢字 123",
        "ヴヷゐゑをん",
        "𛄠𛄡𛄢𛅕",
    ];
    for input in inputs {
        let hira = kata_to_hira(input);
        let kata = hira_to_kata(&hira);
        let round_trip_hira = kata_to_hira(&kata);
        assert_eq!(hira, round_trip_hira);
    }
}

#[test]
fn kana_alphabet_bijection_every_position() {
    assert_eq!(HIRAGANA.chars().count(), KATAKANA.chars().count());
    for (hira, kata) in HIRAGANA.chars().zip(KATAKANA.chars()) {
        assert_eq!(hira_to_kata(&hira.to_string()), kata.to_string());
        assert_eq!(kata_to_hira(&kata.to_string()), hira.to_string());
    }
}

#[test]
fn kanji_alphabet_bijection_every_position() {
    assert_eq!(KAKUCHOU_SHINJITAI.chars().count(), KAKUCHOU_KYUUJITAI.chars().count());
    for (shin, kyuu) in KAKUCHOU_SHINJITAI.chars().zip(KAKUCHOU_KYUUJITAI.chars()) {
        assert_eq!(kyuu_to_kakushin(&kyuu.to_string()), shin.to_string());
        assert_eq!(kakushin_to_kyuu(&shin.to_string()), kyuu.to_string());
    }
}
