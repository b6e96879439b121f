//! Digit names, small-unit suffixes, and the two positional rules: when "两"
//! may stand for a two, and when the "一" of "一十" is elided.
use vstd::prelude::*;

use crate::config::YishiOption;

verus! {

/// The spelled-out name of the decimal digit `n` (0 through 9).
pub open spec fn spec_num(n: int) -> Seq<char> {
    if n == 0 {
        seq!['零']
    } else if n == 1 {
        seq!['一']
    } else if n == 2 {
        seq!['二']
    } else if n == 3 {
        seq!['三']
    } else if n == 4 {
        seq!['四']
    } else if n == 5 {
        seq!['五']
    } else if n == 6 {
        seq!['六']
    } else if n == 7 {
        seq!['七']
    } else if n == 8 {
        seq!['八']
    } else {
        seq!['九']
    }
}

/// The suffix of a sub-position within a 4-digit group: thousands, hundreds,
/// tens, and the bare units place.
pub open spec fn spec_pre_unit(phase: int) -> Seq<char> {
    if phase == 0 {
        seq!['千']
    } else if phase == 1 {
        seq!['百']
    } else if phase == 2 {
        seq!['十']
    } else {
        Seq::<char>::empty()
    }
}

/// The alternate name of the digit two.
pub open spec fn liang_tok() -> Seq<char> {
    seq!['两']
}

/// The prefix marking a negative number.
pub open spec fn fu_tok() -> Seq<char> {
    seq!['负']
}

/// Whether a two at sub-position `pre_unit_place` is written "两":
/// "两" is allowed only when enabled, never at the tens place, and at the
/// units place only when the preceding unit context is substantial
/// (`only_liang`).
pub open spec fn spec_is_liang(enable_liang: bool, pre_unit_place: int, only_liang: bool) -> bool {
    enable_liang && pre_unit_place != 2 && (pre_unit_place != 3 || only_liang)
}

/// Whether the "一" of a "一十" at sub-position `pre_unit_place` is elided:
/// only at the tens place, and there only when the policy asks to avoid
/// "一十" after a zero or at the head, or to elide it at the head alone.
pub open spec fn spec_is_yishi(
    yishi: YishiOption,
    pre_unit_place: int,
    had_zero: bool,
    is_head: bool,
) -> bool {
    pre_unit_place == 2 && ((yishi == YishiOption::Avoid && (had_zero || is_head)) || (yishi
        == YishiOption::ExceptHead && is_head))
}

/// Decide whether the current digit two is written "两".
pub fn is_liang(enable_liang: bool, pre_unit_place: usize, only_liang: bool) -> (r: bool)
    ensures
        r == spec_is_liang(enable_liang, pre_unit_place as int, only_liang),
{
    enable_liang && pre_unit_place != 2 && (pre_unit_place != 3 || only_liang)
}

/// Decide whether the "一" of the current "一十" is elided.
pub fn is_yishi(yishi: YishiOption, pre_unit_place: usize, had_zero: bool, is_head: bool) -> (r:
    bool)
    ensures
        r == spec_is_yishi(yishi, pre_unit_place as int, had_zero, is_head),
{
    pre_unit_place == 2 && ((yishi == YishiOption::Avoid && (had_zero || is_head)) || (yishi
        == YishiOption::ExceptHead && is_head))
}

/// The spelled-out name of digit `n` as an executable string slice.
pub(crate) fn digit_name(n: u8) -> (r: &'static str)
    requires
        n <= 9,
    ensures
        r@ == spec_num(n as int),
{
    proof {
        reveal_strlit("零");
        reveal_strlit("一");
        reveal_strlit("二");
        reveal_strlit("三");
        reveal_strlit("四");
        reveal_strlit("五");
        reveal_strlit("六");
        reveal_strlit("七");
        reveal_strlit("八");
        reveal_strlit("九");
    }
    match n {
        0 => "零",
        1 => "一",
        2 => "二",
        3 => "三",
        4 => "四",
        5 => "五",
        6 => "六",
        7 => "七",
        8 => "八",
        _ => "九",
    }
}

/// The sub-position suffix as an executable string slice.
pub(crate) fn pre_unit_str(phase: usize) -> (r: &'static str)
    requires
        phase <= 3,
    ensures
        r@ == spec_pre_unit(phase as int),
{
    proof {
        reveal_strlit("千");
        reveal_strlit("百");
        reveal_strlit("十");
        reveal_strlit("");
    }
    match phase {
        0 => "千",
        1 => "百",
        2 => "十",
        _ => "",
    }
}

} // verus!
