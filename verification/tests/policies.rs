use sinonum::att_uniter::OldAttUnits;
use sinonum::config::LiangOption;
use sinonum::config::YishiOption;
use sinonum::is_liang;
use sinonum::is_yishi;
use sinonum::sinonumify;
use sinonum::Config;

fn with(liang: LiangOption, yishi: YishiOption) -> Config {
    Config { liang, yishi }
}

#[test]
fn liang_disable_never_uses_liang() {
    let c = with(LiangOption::Disable, YishiOption::Always);
    assert_eq!("二万二千二百二十二", sinonumify::<OldAttUnits>("22222", c));
    let long = format!("2{}2", "0".repeat(21));
    let rendered = sinonumify::<OldAttUnits>(&long, c);
    assert_eq!("二百万兆零二", rendered);
    assert!(!rendered.contains('两'));
}

#[test]
fn liang_with_unit_substitutes_where_allowed() {
    let c = with(LiangOption::WithUnit, YishiOption::Always);
    assert_eq!("两万两千两百二十二", sinonumify::<OldAttUnits>("22222", c));
    assert_eq!("两", sinonumify::<OldAttUnits>("2", c));
    assert_eq!("负两", sinonumify::<OldAttUnits>("-2", c));
    assert_eq!("两万零二", sinonumify::<OldAttUnits>("20002", c));
    // A multi-name unit context weighs enough to allow a units-place 两.
    let long = format!("2{}2", "0".repeat(21));
    assert_eq!("两百万兆零两", sinonumify::<OldAttUnits>(&long, c));
}

#[test]
fn liang_just_number_rewrites_trailing_liang() {
    let c = with(LiangOption::JustNumber, YishiOption::Always);
    assert_eq!("二", sinonumify::<OldAttUnits>("2", c));
    assert_eq!("负二", sinonumify::<OldAttUnits>("-2", c));
    assert_eq!("两万两千两百二十二", sinonumify::<OldAttUnits>("22222", c));
    let long = format!("2{}2", "0".repeat(21));
    let rendered = sinonumify::<OldAttUnits>(&long, c);
    assert_eq!("两百万兆零二", rendered);
    assert!(!rendered.ends_with('两'));
}

#[test]
fn yishi_always_keeps_leading_one() {
    let c = with(LiangOption::Disable, YishiOption::Always);
    assert_eq!("一十三", sinonumify::<OldAttUnits>("13", c));
    assert_eq!("一百一十三", sinonumify::<OldAttUnits>("113", c));
    assert_eq!("一千零一十三", sinonumify::<OldAttUnits>("1013", c));
}

#[test]
fn yishi_except_head_elides_only_at_head() {
    let c = with(LiangOption::Disable, YishiOption::ExceptHead);
    assert_eq!("十三", sinonumify::<OldAttUnits>("13", c));
    assert_eq!("一百一十三", sinonumify::<OldAttUnits>("113", c));
    assert_eq!("一千零一十三", sinonumify::<OldAttUnits>("1013", c));
}

#[test]
fn yishi_avoid_elides_at_head_and_after_zero() {
    let c = with(LiangOption::Disable, YishiOption::Avoid);
    assert_eq!("十三", sinonumify::<OldAttUnits>("13", c));
    assert_eq!("负十三", sinonumify::<OldAttUnits>("-13", c));
    assert_eq!("一百一十三", sinonumify::<OldAttUnits>("113", c));
    assert_eq!("一千零十三", sinonumify::<OldAttUnits>("1013", c));
}

#[test]
fn yishi_rendering_is_stable_across_reruns() {
    let c = with(LiangOption::Disable, YishiOption::Always);
    let once = sinonumify::<OldAttUnits>("1013", c);
    let twice = sinonumify::<OldAttUnits>(&"1013".to_string(), c);
    assert_eq!(once, twice);
}

#[test]
fn is_liang_rule() {
    // Never at the tens place.
    assert!(!is_liang(true, 2, true));
    // At the units place only with a substantial unit context.
    assert!(!is_liang(true, 3, false));
    assert!(is_liang(true, 3, true));
    // Elsewhere whenever enabled.
    assert!(is_liang(true, 0, false));
    assert!(is_liang(true, 1, false));
    assert!(!is_liang(false, 0, true));
}

#[test]
fn is_yishi_rule() {
    // Only ever at the tens place.
    assert!(!is_yishi(YishiOption::Avoid, 1, true, true));
    // Always never elides.
    assert!(!is_yishi(YishiOption::Always, 2, true, true));
    // Avoid elides at the head or after a zero.
    assert!(is_yishi(YishiOption::Avoid, 2, true, false));
    assert!(is_yishi(YishiOption::Avoid, 2, false, true));
    assert!(!is_yishi(YishiOption::Avoid, 2, false, false));
    // ExceptHead elides at the head alone.
    assert!(is_yishi(YishiOption::ExceptHead, 2, false, true));
    assert!(!is_yishi(YishiOption::ExceptHead, 2, true, false));
}
