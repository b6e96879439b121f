//! Proved properties of the renderer: shape facts about the big-unit naming
//! function, and guarantees the stylistic policies give over every input.
use vstd::prelude::*;

use crate::att_uniter::naming;
use crate::att_uniter::naming_rec;
use crate::att_uniter::naming_weight;
use crate::att_uniter::old_units;
use crate::att_uniter::std_units;
use crate::boundary_next;
use crate::boundary_out;
use crate::config::Config;
use crate::config::LiangOption;
use crate::config::YishiOption;
use crate::digit_next;
use crate::digit_out;
use crate::digit_token;
use crate::digit_val;
use crate::format_spec;
use crate::init_state;
use crate::is_digit_char;
use crate::translate;
use crate::translate_from;
use crate::util::fu_tok;
use crate::util::liang_tok;
use crate::util::spec_is_liang;
use crate::util::spec_is_yishi;
use crate::util::spec_num;
use crate::util::spec_pre_unit;
use crate::TransState;

verus! {

/// No token of `ts` is the token `bad`.
pub open spec fn tokens_avoid(ts: Seq<Seq<char>>, bad: Seq<char>) -> bool {
    forall|k: int| 0 <= k < ts.len() ==> #[trigger] ts[k] != bad
}

/// No character of `cs` is `bad`.
pub open spec fn no_char(cs: Seq<char>, bad: char) -> bool {
    forall|k: int| 0 <= k < cs.len() ==> #[trigger] cs[k] != bad
}

/// No token of `ts` contains the character `bad`.
pub open spec fn tokens_without_char(ts: Seq<Seq<char>>, bad: char) -> bool {
    forall|k: int| 0 <= k < ts.len() ==> no_char(#[trigger] ts[k], bad)
}

/// No two consecutive tokens of `ts` are both the zero name.
pub open spec fn no_adjacent_zero(ts: Seq<Seq<char>>) -> bool {
    forall|k: int|
        0 < k < ts.len() ==> !(#[trigger] ts[k] == spec_num(0) && ts[k - 1] == spec_num(0))
}

/// Every tens suffix in `ts` directly follows a nonempty token.
pub open spec fn ten_preceded(ts: Seq<Seq<char>>) -> bool {
    forall|k: int|
        0 <= k < ts.len() && #[trigger] ts[k] == spec_pre_unit(2) ==> k > 0 && ts[k - 1].len() > 0
}

proof fn lemma_naming_rec_len(units: Seq<Seq<char>>, cur: nat, i: nat)
    ensures
        naming_rec(units, cur, i).len() == naming_weight(units.len(), cur, i),
    decreases units.len() - i, cur,
{
    if units.len() == 0 {
    } else if i + 1 < units.len() {
        lemma_naming_rec_len(units, cur / 2, i + 1);
    } else if cur > 0 {
        lemma_naming_rec_len(units, (cur - 1) as nat, i);
    }
}

/// The naming of `place` yields exactly one token per set low bit plus one
/// per saturating repeat, so the count of its tokens equals that bit
/// population plus the remainder.
pub proof fn lemma_naming_len(units: Seq<Seq<char>>, place: nat)
    requires
        units.len() >= 1,
    ensures
        naming(units, place).len() == naming_weight(units.len(), place, 0),
{
    lemma_naming_rec_len(units, place, 0);
}

/// Between two magnitude indices, the one whose bit population plus
/// saturating remainder is no larger never names more tokens.
pub proof fn lemma_naming_len_monotone(units: Seq<Seq<char>>, p1: nat, p2: nat)
    requires
        units.len() >= 1,
        naming_weight(units.len(), p1, 0) <= naming_weight(units.len(), p2, 0),
    ensures
        naming(units, p1).len() <= naming(units, p2).len(),
{
    lemma_naming_rec_len(units, p1, 0);
    lemma_naming_rec_len(units, p2, 0);
}

proof fn lemma_naming_rec_zero(units: Seq<Seq<char>>, i: nat)
    ensures
        naming_rec(units, 0, i) == Seq::<Seq<char>>::empty(),
    decreases units.len() - i,
{
    if units.len() != 0 && i + 1 < units.len() {
        lemma_naming_rec_zero(units, i + 1);
        assert(naming_rec(units, 0, i) =~= Seq::<Seq<char>>::empty());
    }
}

/// Magnitude index zero names nothing, under any alphabet: the
/// least-significant group never carries a magnitude suffix.
pub proof fn lemma_naming_zero(units: Seq<Seq<char>>)
    ensures
        naming(units, 0) == Seq::<Seq<char>>::empty(),
{
    lemma_naming_rec_zero(units, 0);
}

/// Every token that `naming` emits is one of the alphabet's names, so none
/// of them is a token the alphabet avoids.
proof fn lemma_naming_avoid(units: Seq<Seq<char>>, cur: nat, i: nat, bad: Seq<char>)
    requires
        tokens_avoid(units, bad),
    ensures
        tokens_avoid(naming_rec(units, cur, i), bad),
    decreases units.len() - i, cur,
{
    let r = naming_rec(units, cur, i);
    if units.len() == 0 {
    } else if i + 1 < units.len() {
        lemma_naming_avoid(units, cur / 2, i + 1, bad);
        let rest = naming_rec(units, cur / 2, i + 1);
        assert forall|k: int| 0 <= k < r.len() implies #[trigger] r[k] != bad by {
            if cur % 2 == 1 {
                if k == 0 {
                    assert(r[0] == units[i as int]);
                } else {
                    assert(r[k] == rest[k - 1]);
                }
            } else {
                assert(r[k] == rest[k]);
            }
        }
    } else if cur > 0 {
        lemma_naming_avoid(units, (cur - 1) as nat, i, bad);
        let rest = naming_rec(units, (cur - 1) as nat, i);
        assert forall|k: int| 0 <= k < r.len() implies #[trigger] r[k] != bad by {
            if k == 0 {
                assert(r[0] == units.last());
            } else {
                assert(r[k] == rest[k - 1]);
            }
        }
    }
}

/// Every token that `naming` emits is one of the alphabet's names, so a
/// character absent from all the names is absent from all of them.
proof fn lemma_naming_without_char(units: Seq<Seq<char>>, cur: nat, i: nat, bad: char)
    requires
        tokens_without_char(units, bad),
    ensures
        tokens_without_char(naming_rec(units, cur, i), bad),
    decreases units.len() - i, cur,
{
    let r = naming_rec(units, cur, i);
    if units.len() == 0 {
    } else if i + 1 < units.len() {
        lemma_naming_without_char(units, cur / 2, i + 1, bad);
        let rest = naming_rec(units, cur / 2, i + 1);
        assert forall|k: int| 0 <= k < r.len() implies no_char(#[trigger] r[k], bad) by {
            if cur % 2 == 1 {
                if k == 0 {
                    assert(r[0] == units[i as int]);
                } else {
                    assert(r[k] == rest[k - 1]);
                }
            } else {
                assert(r[k] == rest[k]);
            }
        }
    } else if cur > 0 {
        lemma_naming_without_char(units, (cur - 1) as nat, i, bad);
        let rest = naming_rec(units, (cur - 1) as nat, i);
        assert forall|k: int| 0 <= k < r.len() implies no_char(#[trigger] r[k], bad) by {
            if k == 0 {
                assert(r[0] == units.last());
            } else {
                assert(r[k] == rest[k - 1]);
            }
        }
    }
}

proof fn lemma_tf_no_adj_zero(
    s: Seq<char>,
    i: nat,
    j: nat,
    st: TransState,
    el: bool,
    yi: YishiOption,
    units: Seq<Seq<char>>,
)
    requires
        tokens_avoid(units, spec_num(0)),
    ensures
        no_adjacent_zero(translate_from(s, i, j, st, el, yi, units)),
    decreases s.len() - i,
{
    let r = translate_from(s, i, j, st, el, yi, units);
    if i >= s.len() {
    } else if !is_digit_char(s[i as int]) {
        lemma_tf_no_adj_zero(s, i + 1, j, st, el, yi, units);
    } else {
        let n = digit_val(s[i as int]);
        let rem = s.len() - 1 - j;
        let phase = 3 - rem % 4;
        let st1 = digit_next(n, phase, st);
        let d = digit_out(n, phase, st, el, yi);
        let b = if rem % 4 == 0 {
            boundary_out((rem / 4) as nat, st1, units)
        } else {
            Seq::<Seq<char>>::empty()
        };
        let st2 = if rem % 4 == 0 {
            boundary_next((rem / 4) as nat, st1, units)
        } else {
            st1
        };
        let e = d + b;
        let rest = translate_from(s, i + 1, j + 1, st2, el, yi, units);
        lemma_tf_no_adj_zero(s, i + 1, j + 1, st2, el, yi, units);
        if rem % 4 == 0 {
            lemma_naming_avoid(units, (rem / 4) as nat, 0, spec_num(0));
        }
        assert(r =~= e + rest);
        assert(spec_num(0) == seq!['零']);
        assert(n != 0 ==> digit_token(n, phase, st, el, yi) != spec_num(0)) by {
            if n != 0 {
                if n == 1 && spec_is_yishi(yi, phase, st.had_zero, st.is_head) {
                    assert(digit_token(n, phase, st, el, yi).len() == 0);
                } else if n == 2 && spec_is_liang(el, phase, st.is_head || st.unit_run > 1) {
                    assert(digit_token(n, phase, st, el, yi)[0] == '两');
                } else {
                    assert(digit_token(n, phase, st, el, yi) == spec_num(n));
                    assert(spec_num(n)[0] != '零');
                }
            }
        }
        assert(spec_pre_unit(phase) != spec_num(0)) by {
            if phase == 0 {
                assert(spec_pre_unit(0)[0] == '千');
            } else if phase == 1 {
                assert(spec_pre_unit(1)[0] == '百');
            } else if phase == 2 {
                assert(spec_pre_unit(2)[0] == '十');
            } else {
                assert(spec_pre_unit(phase).len() == 0);
            }
        }
        assert forall|k: int| 1 <= k < e.len() implies #[trigger] e[k] != spec_num(0) by {
            if k < d.len() {
                assert(d[d.len() - 1] == spec_pre_unit(phase));
                if k < d.len() - 1 {
                    assert(d[k] == digit_token(n, phase, st, el, yi));
                }
            } else {
                assert(e[k] == b[k - d.len()]);
            }
        }
        assert forall|k: int|
            0 < k < r.len() implies !(#[trigger] r[k] == spec_num(0) && r[k - 1] == spec_num(
            0,
        )) by {
            if k < e.len() {
                assert(r[k] == e[k]);
            } else if k == e.len() {
                if e.len() > 1 {
                    assert(r[k - 1] == e[e.len() - 1]);
                } else if e.len() == 1 {
                    assert(r[0] == e[0]);
                    if d.len() == 0 {
                        assert(e[0] == b[0]);
                    } else {
                        assert(d.len() >= 2);
                    }
                }
            } else {
                assert(r[k] == rest[k - e.len()]);
                assert(r[k - 1] == rest[k - 1 - e.len()]);
            }
        }
    }
}

/// A run of zero digits never renders more than one consecutive zero-name
/// token, as long as no alphabet name is itself the zero name.
pub proof fn lemma_no_adjacent_zero_names(
    s: Seq<char>,
    el: bool,
    yi: YishiOption,
    units: Seq<Seq<char>>,
)
    requires
        tokens_avoid(units, spec_num(0)),
    ensures
        no_adjacent_zero(translate(s, el, yi, units)),
{
    lemma_tf_no_adj_zero(s, 0, 0, init_state(), el, yi, units);
}

proof fn lemma_tf_all_zero(
    s: Seq<char>,
    i: nat,
    j: nat,
    st: TransState,
    el: bool,
    yi: YishiOption,
    units: Seq<Seq<char>>,
)
    requires
        !st.had_part,
        forall|k: int| i <= k < s.len() && is_digit_char(#[trigger] s[k]) ==> digit_val(s[k]) == 0,
    ensures
        translate_from(s, i, j, st, el, yi, units) == Seq::<Seq<char>>::empty(),
    decreases s.len() - i,
{
    if i >= s.len() {
    } else if !is_digit_char(s[i as int]) {
        lemma_tf_all_zero(s, i + 1, j, st, el, yi, units);
    } else {
        let n = digit_val(s[i as int]);
        let rem = s.len() - 1 - j;
        let phase = 3 - rem % 4;
        let st1 = digit_next(n, phase, st);
        if rem % 4 == 0 {
            let st2 = boundary_next((rem / 4) as nat, st1, units);
            lemma_tf_all_zero(s, i + 1, j + 1, st2, el, yi, units);
            assert(translate_from(s, i, j, st, el, yi, units) =~= Seq::<Seq<char>>::empty());
        } else {
            lemma_tf_all_zero(s, i + 1, j + 1, st1, el, yi, units);
            assert(translate_from(s, i, j, st, el, yi, units) =~= Seq::<Seq<char>>::empty());
        }
    }
}

/// An input whose digits are all zero renders no tokens at all: merged
/// zeros leave only a pending marker, and an all-zero group never emits a
/// unit name.
pub proof fn lemma_all_zero_silent(s: Seq<char>, el: bool, yi: YishiOption, units: Seq<Seq<char>>)
    requires
        forall|k: int| 0 <= k < s.len() && is_digit_char(#[trigger] s[k]) ==> digit_val(s[k]) == 0,
    ensures
        translate(s, el, yi, units) == Seq::<Seq<char>>::empty(),
{
    lemma_tf_all_zero(s, 0, 0, init_state(), el, yi, units);
}

/// An unsigned input that is empty, or holds no nonzero digit, renders as
/// exactly the zero name, under every configuration and alphabet.
pub proof fn lemma_degenerate_input_zero_name(s: Seq<char>, config: Config, units: Seq<Seq<char>>)
    requires
        s.len() == 0 || s[0] != '-',
        forall|k: int| 0 <= k < s.len() && is_digit_char(#[trigger] s[k]) ==> digit_val(s[k]) == 0,
    ensures
        format_spec(s, config, units) == spec_num(0),
{
    lemma_all_zero_silent(s, config.liang != LiangOption::Disable, config.yishi, units);
    assert(Seq::<Seq<char>>::empty().flatten() =~= Seq::<char>::empty());
    assert(spec_num(0).last() == '零');
}

proof fn lemma_flatten_no_char(ts: Seq<Seq<char>>, bad: char)
    requires
        tokens_without_char(ts, bad),
    ensures
        no_char(ts.flatten(), bad),
    decreases ts.len(),
{
    if ts.len() > 0 {
        assert forall|k: int| 0 <= k < ts.drop_first().len() implies no_char(
            #[trigger] ts.drop_first()[k],
            bad,
        ) by {
            assert(ts.drop_first()[k] == ts[k + 1]);
        }
        lemma_flatten_no_char(ts.drop_first(), bad);
        assert(no_char(ts[0], bad));
        assert(ts.flatten() == ts[0] + ts.drop_first().flatten());
        assert forall|k: int| 0 <= k < ts.flatten().len() implies #[trigger] ts.flatten()[k]
            != bad by {
            if k < ts[0].len() {
                assert(ts.flatten()[k] == ts[0][k]);
            } else {
                assert(ts.flatten()[k] == ts.drop_first().flatten()[k - ts[0].len()]);
            }
        }
    }
}

proof fn lemma_tf_tokens_no_liang(
    s: Seq<char>,
    i: nat,
    j: nat,
    st: TransState,
    yi: YishiOption,
    units: Seq<Seq<char>>,
)
    requires
        tokens_without_char(units, '两'),
    ensures
        tokens_without_char(translate_from(s, i, j, st, false, yi, units), '两'),
    decreases s.len() - i,
{
    let r = translate_from(s, i, j, st, false, yi, units);
    if i >= s.len() {
    } else if !is_digit_char(s[i as int]) {
        lemma_tf_tokens_no_liang(s, i + 1, j, st, yi, units);
    } else {
        let n = digit_val(s[i as int]);
        let rem = s.len() - 1 - j;
        let phase = 3 - rem % 4;
        let st1 = digit_next(n, phase, st);
        let d = digit_out(n, phase, st, false, yi);
        let b = if rem % 4 == 0 {
            boundary_out((rem / 4) as nat, st1, units)
        } else {
            Seq::<Seq<char>>::empty()
        };
        let st2 = if rem % 4 == 0 {
            boundary_next((rem / 4) as nat, st1, units)
        } else {
            st1
        };
        let rest = translate_from(s, i + 1, j + 1, st2, false, yi, units);
        lemma_tf_tokens_no_liang(s, i + 1, j + 1, st2, yi, units);
        if rem % 4 == 0 {
            lemma_naming_without_char(units, (rem / 4) as nat, 0, '两');
        }
        assert(r =~= (d + b) + rest);
        assert(!spec_is_liang(false, phase, st.is_head || st.unit_run > 1));
        assert forall|k: int| 0 <= k < d.len() implies no_char(#[trigger] d[k], '两') by {
            assert(d[d.len() - 1] == spec_pre_unit(phase));
            if st.had_zero && k == 0 {
                assert(d[0] == spec_num(0));
            } else if k < d.len() - 1 {
                assert(d[k] == digit_token(n, phase, st, false, yi));
            }
        }
        assert forall|k: int| 0 <= k < r.len() implies no_char(#[trigger] r[k], '两') by {
            if k < d.len() {
                assert(r[k] == d[k]);
            } else if k < d.len() + b.len() {
                assert(r[k] == b[k - d.len()]);
            } else {
                assert(r[k] == rest[k - d.len() - b.len()]);
            }
        }
    }
}

/// With Liang `Disable`, the rendered numeral never contains the character
/// "两", as long as no alphabet name contains it.
pub proof fn lemma_disable_no_liang(s: Seq<char>, config: Config, units: Seq<Seq<char>>)
    requires
        config.liang == LiangOption::Disable,
        tokens_without_char(units, '两'),
    ensures
        no_char(format_spec(s, config, units), '两'),
{
    let negative = s.len() > 0 && s[0] == '-';
    let digits = if negative {
        s.drop_first()
    } else {
        s
    };
    let toks = translate(digits, false, config.yishi, units);
    lemma_tf_tokens_no_liang(digits, 0, 0, init_state(), config.yishi, units);
    lemma_flatten_no_char(toks, '两');
    let body = toks.flatten();
    let filled = if body.len() == 0 {
        spec_num(0)
    } else {
        body
    };
    let signed = if negative {
        fu_tok() + filled
    } else {
        filled
    };
    assert(format_spec(s, config, units) == signed);
    assert forall|k: int| 0 <= k < signed.len() implies #[trigger] signed[k] != '两' by {
        if negative {
            if k == 0 {
                assert(signed[0] == '负');
            } else {
                assert(signed[k] == filled[k - 1]);
            }
        } else {
            assert(signed[k] == filled[k]);
        }
    }
}

/// With Liang `JustNumber`, the rendered numeral is never empty and never
/// ends in "两": a trailing "两" is rewritten to "二".
pub proof fn lemma_just_number_no_trailing_liang(
    s: Seq<char>,
    config: Config,
    units: Seq<Seq<char>>,
)
    requires
        config.liang == LiangOption::JustNumber,
    ensures
        format_spec(s, config, units).len() > 0,
        format_spec(s, config, units).last() != '两',
{
    let negative = s.len() > 0 && s[0] == '-';
    let digits = if negative {
        s.drop_first()
    } else {
        s
    };
    let body = translate(digits, true, config.yishi, units).flatten();
    let filled = if body.len() == 0 {
        spec_num(0)
    } else {
        body
    };
    let signed = if negative {
        fu_tok() + filled
    } else {
        filled
    };
    assert(signed.len() > 0);
    if signed.last() == '两' {
        assert(format_spec(s, config, units) == signed.drop_last().push('二'));
    } else {
        assert(format_spec(s, config, units) == signed);
    }
}

proof fn lemma_tf_ten_preceded(
    s: Seq<char>,
    i: nat,
    j: nat,
    st: TransState,
    el: bool,
    units: Seq<Seq<char>>,
)
    requires
        tokens_avoid(units, spec_pre_unit(2)),
    ensures
        ten_preceded(translate_from(s, i, j, st, el, YishiOption::Always, units)),
        translate_from(s, i, j, st, el, YishiOption::Always, units).len() > 0 ==> translate_from(
            s,
            i,
            j,
            st,
            el,
            YishiOption::Always,
            units,
        )[0] != spec_pre_unit(2),
    decreases s.len() - i,
{
    let yi = YishiOption::Always;
    let r = translate_from(s, i, j, st, el, yi, units);
    if i >= s.len() {
    } else if !is_digit_char(s[i as int]) {
        lemma_tf_ten_preceded(s, i + 1, j, st, el, units);
    } else {
        let n = digit_val(s[i as int]);
        let rem = s.len() - 1 - j;
        let phase = 3 - rem % 4;
        let st1 = digit_next(n, phase, st);
        let d = digit_out(n, phase, st, el, yi);
        let b = if rem % 4 == 0 {
            boundary_out((rem / 4) as nat, st1, units)
        } else {
            Seq::<Seq<char>>::empty()
        };
        let st2 = if rem % 4 == 0 {
            boundary_next((rem / 4) as nat, st1, units)
        } else {
            st1
        };
        let e = d + b;
        let rest = translate_from(s, i + 1, j + 1, st2, el, yi, units);
        lemma_tf_ten_preceded(s, i + 1, j + 1, st2, el, units);
        if rem % 4 == 0 {
            lemma_naming_avoid(units, (rem / 4) as nat, 0, spec_pre_unit(2));
        }
        assert(r =~= e + rest);
        assert(!spec_is_yishi(yi, phase, st.had_zero, st.is_head));
        if n != 0 {
            assert(digit_token(n, phase, st, el, yi).len() > 0) by {
                if n == 2 && spec_is_liang(el, phase, st.is_head || st.unit_run > 1) {
                    assert(digit_token(n, phase, st, el, yi) == liang_tok());
                } else {
                    assert(digit_token(n, phase, st, el, yi) == spec_num(n));
                }
            }
        }
        assert(spec_pre_unit(2) == seq!['十']);
        assert(spec_num(0)[0] == '零');
        assert(liang_tok()[0] == '两');
        assert(n != 0 ==> digit_token(n, phase, st, el, yi)[0] != '十') by {
            if n != 0 && !(n == 2 && spec_is_liang(el, phase, st.is_head || st.unit_run > 1)) {
                assert(digit_token(n, phase, st, el, yi) == spec_num(n));
            }
        }
        assert forall|k: int|
            0 <= k < r.len() && #[trigger] r[k] == spec_pre_unit(2) implies k > 0 && r[k
            - 1].len() > 0 by {
            if k < e.len() {
                assert(r[k] == e[k]);
                if k < d.len() {
                    assert(d[k] == e[k]);
                    assert(d[d.len() - 1] == spec_pre_unit(phase));
                    if st.had_zero && k == 0 {
                        assert(d[0] == spec_num(0));
                        assert(false);
                    } else if k < d.len() - 1 {
                        assert(d[k] == digit_token(n, phase, st, el, yi));
                        assert(false);
                    } else {
                        assert(k == d.len() - 1);
                        assert(spec_pre_unit(phase) == spec_pre_unit(2));
                        assert(phase == 2) by {
                            if phase == 0 {
                                assert(spec_pre_unit(0)[0] == '千');
                            } else if phase == 1 {
                                assert(spec_pre_unit(1)[0] == '百');
                            } else if phase == 3 {
                                assert(spec_pre_unit(3).len() == 0);
                            }
                        }
                        assert(k > 0);
                        assert(r[k - 1] == d[k - 1]);
                        assert(d[k - 1] == digit_token(n, phase, st, el, yi));
                    }
                } else {
                    assert(e[k] == b[k - d.len()]);
                    assert(false);
                }
            } else {
                assert(r[k] == rest[k - e.len()]);
                if k - e.len() == 0 {
                    assert(rest[0] != spec_pre_unit(2));
                } else {
                    assert(r[k - 1] == rest[k - 1 - e.len()]);
                }
            }
        }
        if r.len() > 0 {
            assert(r[0] != spec_pre_unit(2)) by {
                if e.len() > 0 {
                    assert(r[0] == e[0]);
                    if d.len() > 0 {
                        assert(e[0] == d[0]);
                        if st.had_zero {
                            assert(d[0] == spec_num(0));
                        } else {
                            assert(d[0] == digit_token(n, phase, st, el, yi));
                        }
                    } else {
                        assert(e[0] == b[0]);
                    }
                } else {
                    assert(r[0] == rest[0]);
                }
            }
        }
    }
}

/// With Yishi `Always`, every rendered tens sub-position is preceded by an
/// explicit digit token, never the empty elision, as long as no alphabet
/// name is itself the tens suffix.
pub proof fn lemma_always_ten_preceded(s: Seq<char>, el: bool, units: Seq<Seq<char>>)
    requires
        tokens_avoid(units, spec_pre_unit(2)),
    ensures
        ten_preceded(translate(s, el, YishiOption::Always, units)),
{
    lemma_tf_ten_preceded(s, 0, 0, init_state(), el, units);
}

/// The legacy alphabet's names: none is the zero name, none is the tens
/// suffix, and none contains the character "两".
pub proof fn lemma_old_units_clean()
    ensures
        tokens_avoid(old_units(), spec_num(0)),
        tokens_avoid(old_units(), spec_pre_unit(2)),
        tokens_without_char(old_units(), '两'),
{
    let u = old_units();
    assert forall|k: int| 0 <= k < u.len() implies #[trigger] u[k] != spec_num(0) && u[k]
        != spec_pre_unit(2) && no_char(u[k], '两') by {
        assert(u[k][0] != '零');
        assert(u[k][0] != '十');
        assert forall|m: int| 0 <= m < u[k].len() implies #[trigger] u[k][m] != '两' by {
            assert(u[k].len() <= 4);
        }
    }
}

/// The modern alphabet's names: none is the zero name, none is the tens
/// suffix, and none contains the character "两".
pub proof fn lemma_std_units_clean()
    ensures
        tokens_avoid(std_units(), spec_num(0)),
        tokens_avoid(std_units(), spec_pre_unit(2)),
        tokens_without_char(std_units(), '两'),
{
    let u = std_units();
    assert forall|k: int| 0 <= k < u.len() implies #[trigger] u[k] != spec_num(0) && u[k]
        != spec_pre_unit(2) && no_char(u[k], '两') by {
        assert(u[k][0] != '零');
        assert(u[k][0] != '十');
        assert forall|m: int| 0 <= m < u[k].len() implies #[trigger] u[k][m] != '两' by {
            assert(u[k].len() == 1);
        }
    }
}

} // verus!
