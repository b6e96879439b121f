use sinonum::att_uniter::OldAttUnits;
use sinonum::att_uniter::StdAttUnits;
use sinonum::config::AttMethod;
use sinonum::config::LiangOption;
use sinonum::config::YishiOption;
use sinonum::sinonum_impl;
use sinonum::sinonumify;
use sinonum::sinonumify_with;
use sinonum::Config;

fn plain() -> Config {
    Config { liang: LiangOption::Disable, yishi: YishiOption::Always }
}

#[test]
fn empty_and_zero_yield_zero_name() {
    assert_eq!("零", sinonumify::<OldAttUnits>("", plain()));
    assert_eq!("零", sinonumify::<OldAttUnits>("0", plain()));
    assert_eq!("零", sinonumify::<StdAttUnits>("0000", plain()));
}

#[test]
fn negative_prefix() {
    assert_eq!("负五", sinonumify::<OldAttUnits>("-5", plain()));
    assert_eq!("负一万二千三百四十五", sinonumify::<OldAttUnits>("-12345", plain()));
}

#[test]
fn plain_grouping() {
    assert_eq!("一万二千三百四十五", sinonumify::<OldAttUnits>("12345", plain()));
    assert_eq!(
        "一亿二千三百四十五万六千七百八十九",
        sinonumify::<StdAttUnits>("123456789", plain()),
    );
}

#[test]
fn embedded_zero_runs_collapse() {
    assert_eq!("一百零二", sinonumify::<OldAttUnits>("102", plain()));
    assert_eq!("一百万零二千零三", sinonumify::<OldAttUnits>("1002003", plain()));
}

#[test]
fn all_zero_group_emits_no_unit() {
    assert_eq!("一亿", sinonumify::<OldAttUnits>("100000000", plain()));
    assert_eq!("五万", sinonumify::<OldAttUnits>("50000", plain()));
}

#[test]
fn modern_alphabet_saturates() {
    assert_eq!("一十万亿", sinonumify::<StdAttUnits>("10000000000000", plain()));
}

#[test]
fn legacy_alphabet_stacks_units() {
    // Group index 18 selects the second and fifth legacy names.
    let huge = format!("1{}", "0".repeat(72));
    assert_eq!("一亿垓", sinonumify::<OldAttUnits>(&huge, plain()));
}

#[test]
fn translator_tokens() {
    let toks = sinonum_impl::<OldAttUnits>("102", true, YishiOption::Always);
    assert_eq!(vec!["一", "百", "零", "二", ""], toks);
}

#[test]
fn dispatch_matches_direct_calls() {
    let c = plain();
    assert_eq!(
        sinonumify::<OldAttUnits>("987654321", c),
        sinonumify_with(AttMethod::Old, "987654321", c),
    );
    assert_eq!(
        sinonumify::<StdAttUnits>("987654321", c),
        sinonumify_with(AttMethod::Std, "987654321", c),
    );
}

#[test]
fn formatting_is_deterministic() {
    let c = Config { liang: LiangOption::WithUnit, yishi: YishiOption::Avoid };
    let first = sinonumify::<OldAttUnits>("3052000178", c);
    let second = sinonumify::<OldAttUnits>("3052000178", c);
    assert_eq!(first, second);
}

#[test]
fn non_digit_characters_contribute_no_digit() {
    assert_eq!("一千二百四十", sinonumify::<OldAttUnits>("12a4", plain()));
}
