use sinonum::att_uniter::AttUniter;
use sinonum::att_uniter::OldAttUnits;
use sinonum::att_uniter::StdAttUnits;

#[test]
fn legacy_naming_examples() {
    assert_eq!("万", OldAttUnits::get_att_unit(1).join(""));
    assert_eq!("亿", OldAttUnits::get_att_unit(2).join(""));
    assert_eq!("万兆", OldAttUnits::get_att_unit(5).join(""));
    assert_eq!("万亿兆京垓杼", OldAttUnits::get_att_unit(63).join(""));
    assert_eq!(
        "兆京垓涧正载大数大数大数大数大数大数大数",
        OldAttUnits::get_att_unit(919324).join(""),
    );
}

#[test]
fn modern_naming_examples() {
    assert_eq!("万", StdAttUnits::get_att_unit(1).join(""));
    assert_eq!("亿", StdAttUnits::get_att_unit(2).join(""));
    assert_eq!("万亿", StdAttUnits::get_att_unit(3).join(""));
    assert_eq!("万亿亿亿", StdAttUnits::get_att_unit(7).join(""));
    assert_eq!("万亿亿亿亿", StdAttUnits::get_att_unit(9).join(""));
}

#[test]
fn naming_zero_is_empty() {
    assert!(OldAttUnits::get_att_unit(0).is_empty());
    assert!(StdAttUnits::get_att_unit(0).is_empty());
}

#[test]
fn naming_token_count_matches_bits_plus_remainder() {
    // 63 selects six low bits of the legacy alphabet and saturates nothing.
    assert_eq!(6, OldAttUnits::get_att_unit(63).len());
    // 919324 selects six low bits and repeats the last name seven times.
    assert_eq!(13, OldAttUnits::get_att_unit(919324).len());
    // Under the modern alphabet, 9 is one low bit plus four repeats.
    assert_eq!(5, StdAttUnits::get_att_unit(9).len());
}
