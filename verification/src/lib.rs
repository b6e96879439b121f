//! Renders a decimal digit string (optionally signed) into its traditional
//! Chinese-numeral spelling, with big-unit names (万, 亿, 兆, …) and two
//! stylistic controls: the use of "两" for "two", and the elision of the
//! leading "一" in "一十".
//!
//! The digit translator walks the input left to right, groups digits into
//! 4-digit blocks, merges runs of zero into at most one pending "零", and
//! appends a block's big-unit name only when the block held a nonzero digit.
use vstd::prelude::*;

pub mod att_uniter;
pub mod config;
pub mod lemmas;
pub mod util;

use vstd::string::StrSliceExecFns;
use vstd::string::StringExecFns;

use att_uniter::AttUniter;
use att_uniter::OldAttUnits;
use att_uniter::StdAttUnits;
use att_uniter::naming;
use att_uniter::old_units;
use att_uniter::std_units;
use att_uniter::token_views;
pub use config::Config;
use config::AttMethod;
use config::LiangOption;
use config::YishiOption;
use util::digit_name;
use util::fu_tok;
pub use util::is_liang;
pub use util::is_yishi;
use util::liang_tok;
use util::pre_unit_str;
use util::spec_is_liang;
use util::spec_is_yishi;
use util::spec_num;
use util::spec_pre_unit;

verus! {

/// Whether `c` is an ASCII decimal digit; every other character contributes
/// no digit to the translation.
pub open spec fn is_digit_char(c: char) -> bool {
    48 <= c as int <= 57
}

/// The value of the ASCII decimal digit `c`.
pub open spec fn digit_val(c: char) -> int {
    c as int - 48
}

/// The translator's scan state, threaded left to right over the digits:
/// a zero digit seen but not yet rendered, whether the current 4-digit group
/// has produced a nonzero digit, whether nothing has been rendered yet, and
/// the weight of the most recently emitted unit context.
pub struct TransState {
    pub had_zero: bool,
    pub had_part: bool,
    pub is_head: bool,
    pub unit_run: nat,
}

/// The scan state before any digit is seen.
pub open spec fn init_state() -> TransState {
    TransState { had_zero: false, had_part: false, is_head: true, unit_run: 0 }
}

/// In every reachable scan state, a group with a nonzero digit has already
/// rendered something, and its unit context weight is at most one.
pub open spec fn st_wf(st: TransState) -> bool {
    st.had_part ==> (!st.is_head && st.unit_run <= 1)
}

/// The rendering of a nonzero digit `n`: its plain name, except that a one
/// at the tens place may be elided and a two may be written "两".
pub open spec fn digit_token(
    n: int,
    phase: int,
    st: TransState,
    enable_liang: bool,
    yishi: YishiOption,
) -> Seq<char> {
    if n == 1 && spec_is_yishi(yishi, phase, st.had_zero, st.is_head) {
        Seq::<char>::empty()
    } else if n == 2 && spec_is_liang(enable_liang, phase, st.is_head || st.unit_run > 1) {
        liang_tok()
    } else {
        spec_num(n)
    }
}

/// The tokens one digit emits: nothing for a zero; otherwise a pending "零"
/// if one is owed, the digit's rendering, and its sub-position suffix.
pub open spec fn digit_out(
    n: int,
    phase: int,
    st: TransState,
    enable_liang: bool,
    yishi: YishiOption,
) -> Seq<Seq<char>> {
    if n == 0 {
        Seq::<Seq<char>>::empty()
    } else {
        (if st.had_zero {
            seq![spec_num(0)]
        } else {
            Seq::<Seq<char>>::empty()
        }) + seq![digit_token(n, phase, st, enable_liang, yishi), spec_pre_unit(phase)]
    }
}

/// The scan state after one digit: a zero only marks a pending "零"; a
/// nonzero digit clears it, marks the group nonempty, and resets the unit
/// context weight.
pub open spec fn digit_next(n: int, phase: int, st: TransState) -> TransState {
    if n == 0 {
        TransState { had_zero: true, ..st }
    } else {
        TransState {
            had_zero: false,
            had_part: true,
            is_head: false,
            unit_run: if phase != 3 {
                1 as nat
            } else {
                0 as nat
            },
        }
    }
}

/// The tokens a group boundary emits: the group's big-unit names if the
/// group held a nonzero digit, nothing otherwise.
pub open spec fn boundary_out(place: nat, st: TransState, units: Seq<Seq<char>>) -> Seq<Seq<char>> {
    if st.had_part {
        naming(units, place)
    } else {
        Seq::<Seq<char>>::empty()
    }
}

/// The scan state after a group boundary: an emitting boundary starts a new
/// group and adds the emitted unit names to the unit context weight.
pub open spec fn boundary_next(place: nat, st: TransState, units: Seq<Seq<char>>) -> TransState {
    if st.had_part {
        TransState { had_part: false, unit_run: st.unit_run + naming(units, place).len(), ..st }
    } else {
        st
    }
}

/// The tokens emitted from character position `i` on, where `j` digits have
/// already been consumed. A digit's sub-position and its group's magnitude
/// index follow from how many digit slots remain after it; a boundary falls
/// after every digit that closes a 4-digit group.
pub open spec fn translate_from(
    s: Seq<char>,
    i: nat,
    j: nat,
    st: TransState,
    enable_liang: bool,
    yishi: YishiOption,
    units: Seq<Seq<char>>,
) -> Seq<Seq<char>>
    recommends
        i <= s.len(),
        j <= i,
    decreases s.len() - i,
{
    if i >= s.len() {
        Seq::<Seq<char>>::empty()
    } else if !is_digit_char(s[i as int]) {
        translate_from(s, i + 1, j, st, enable_liang, yishi, units)
    } else {
        let n = digit_val(s[i as int]);
        let rem = s.len() - 1 - j;
        let phase = 3 - rem % 4;
        let out = digit_out(n, phase, st, enable_liang, yishi);
        let st1 = digit_next(n, phase, st);
        if rem % 4 == 0 {
            let place = (rem / 4) as nat;
            out + boundary_out(place, st1, units) + translate_from(
                s,
                i + 1,
                j + 1,
                boundary_next(place, st1, units),
                enable_liang,
                yishi,
                units,
            )
        } else {
            out + translate_from(s, i + 1, j + 1, st1, enable_liang, yishi, units)
        }
    }
}

/// The full token sequence for the digit string `s` (sign already stripped).
pub open spec fn translate(
    s: Seq<char>,
    enable_liang: bool,
    yishi: YishiOption,
    units: Seq<Seq<char>>,
) -> Seq<Seq<char>> {
    translate_from(s, 0, 0, init_state(), enable_liang, yishi, units)
}

/// The rendered numeral for the raw input `s`: a leading minus sign becomes
/// the "负" prefix, an empty rendering falls back to the zero name, and
/// under `JustNumber` a final "两" is rewritten to "二".
pub open spec fn format_spec(s: Seq<char>, config: Config, units: Seq<Seq<char>>) -> Seq<char> {
    let negative = s.len() > 0 && s[0] == '-';
    let digits = if negative {
        s.drop_first()
    } else {
        s
    };
    let body = translate(digits, config.liang != LiangOption::Disable, config.yishi,
        units).flatten();
    let filled = if body.len() == 0 {
        spec_num(0)
    } else {
        body
    };
    let signed = if negative {
        fu_tok() + filled
    } else {
        filled
    };
    if config.liang == LiangOption::JustNumber && signed.len() > 0 && signed.last() == '两' {
        signed.drop_last().push('二')
    } else {
        signed
    }
}

/// The executable scan state, paired with the tokens emitted so far.
/// `unit_run` stores the unit context weight capped at two, which is all the
/// "两" rule ever inspects.
struct Translator {
    out: Vec<&'static str>,
    had_zero: bool,
    had_part: bool,
    head: bool,
    unit_run: usize,
}

impl Translator {
    /// The executable state realizes the scan state `st`.
    spec fn abstracts(self, st: TransState) -> bool {
        &&& self.had_zero == st.had_zero
        &&& self.had_part == st.had_part
        &&& self.head == st.is_head
        &&& !st.is_head ==> self.unit_run == (if st.unit_run <= 2 {
            st.unit_run
        } else {
            2 as nat
        })
    }

    fn new() -> (t: Translator)
        ensures
            t.abstracts(init_state()),
            token_views(t.out@) == Seq::<Seq<char>>::empty(),
    {
        let t = Translator {
            out: Vec::new(),
            had_zero: false,
            had_part: false,
            head: true,
            unit_run: 0,
        };
        proof {
            assert(token_views(t.out@) =~= Seq::<Seq<char>>::empty());
        }
        t
    }

    /// Consume one digit of value `n` at sub-position `phase`.
    fn digit_step(
        &mut self,
        n: u8,
        phase: usize,
        enable_liang: bool,
        yishi: YishiOption,
        Ghost(st): Ghost<TransState>,
    )
        requires
            old(self).abstracts(st),
            n <= 9,
            phase <= 3,
        ensures
            final(self).abstracts(digit_next(n as int, phase as int, st)),
            st_wf(st) ==> st_wf(digit_next(n as int, phase as int, st)),
            token_views(final(self).out@) == token_views(old(self).out@) + digit_out(
                n as int,
                phase as int,
                st,
                enable_liang,
                yishi,
            ),
    {
        proof {
            reveal_strlit("零");
            reveal_strlit("两");
            reveal_strlit("");
        }
        if n == 0 {
            self.had_zero = true;
            proof {
                assert(token_views(self.out@) =~= token_views(self.out@) + digit_out(
                    n as int,
                    phase as int,
                    st,
                    enable_liang,
                    yishi,
                ));
            }
        } else {
            let ghost base = self.out@;
            if self.had_zero {
                self.out.push("零");
            }
            let tok: &'static str = if n == 1 && is_yishi(yishi, phase, self.had_zero, self.head) {
                ""
            } else if n == 2 && is_liang(enable_liang, phase, self.head || self.unit_run > 1) {
                "两"
            } else {
                digit_name(n)
            };
            proof {
                assert((st.is_head || st.unit_run > 1) == (self.head || self.unit_run > 1)) by {
                    if !st.is_head {
                        assert(self.unit_run > 1 <==> st.unit_run > 1);
                    }
                }
                assert(tok@ == digit_token(n as int, phase as int, st, enable_liang, yishi));
            }
            self.out.push(tok);
            self.out.push(pre_unit_str(phase));
            self.had_zero = false;
            self.had_part = true;
            self.head = false;
            self.unit_run = if phase != 3 {
                1
            } else {
                0
            };
            proof {
                assert(token_views(self.out@) =~~= token_views(base) + digit_out(
                    n as int,
                    phase as int,
                    st,
                    enable_liang,
                    yishi,
                ));
            }
        }
    }

    /// Close a 4-digit group whose magnitude index is `place`, appending its
    /// big-unit names if the group produced anything.
    fn boundary_step<U: AttUniter>(&mut self, place: usize, Ghost(st): Ghost<TransState>)
        requires
            old(self).abstracts(st),
            st_wf(st),
        ensures
            final(self).abstracts(boundary_next(place as nat, st, U::spec_units())),
            st_wf(boundary_next(place as nat, st, U::spec_units())),
            token_views(final(self).out@) == token_views(old(self).out@) + boundary_out(
                place as nat,
                st,
                U::spec_units(),
            ),
    {
        if self.had_part {
            self.had_part = false;
            let mut att = U::get_att_unit(place);
            let ghost base = self.out@;
            let ghost att_view = att@;
            let al = att.len();
            self.out.append(&mut att);
            self.unit_run = if al >= 2 {
                2
            } else if self.unit_run + al >= 2 {
                2
            } else {
                self.unit_run + al
            };
            proof {
                assert(naming(U::spec_units(), place as nat).len() == al);
                assert(token_views(self.out@) =~= token_views(base) + token_views(att_view));
            }
        } else {
            proof {
                assert(token_views(self.out@) =~= token_views(self.out@) + boundary_out(
                    place as nat,
                    st,
                    U::spec_units(),
                ));
            }
        }
    }
}

/// Translate a digit string (sign already stripped) into the ordered token
/// sequence of its Chinese-numeral spelling under the alphabet `U`.
/// Characters that are not decimal digits contribute no digit.
#[verifier::rlimit(80)]
pub fn sinonum_impl<U: AttUniter>(num_str: &str, enable_liang: bool, yishi: YishiOption) -> (res:
    Vec<&'static str>)
    ensures
        token_views(res@) == translate(num_str@, enable_liang, yishi, U::spec_units()),
{
    let ghost s = num_str@;
    let ghost units = U::spec_units();
    let l = num_str.unicode_len();
    let mut t = Translator::new();
    let ghost mut st = init_state();
    let mut i: usize = 0;
    let mut j: usize = 0;
    while i < l
        invariant
            s == num_str@,
            units == U::spec_units(),
            l == s.len(),
            i <= l,
            j <= i,
            t.abstracts(st),
            st_wf(st),
            token_views(t.out@) + translate_from(
                s,
                i as nat,
                j as nat,
                st,
                enable_liang,
                yishi,
                units,
            ) == translate(s, enable_liang, yishi, units),
        decreases l - i,
    {
        let c = num_str.get_char(i);
        let u = c as u32;
        if 48 <= u && u <= 57 {
            let n = (u - 48) as u8;
            let rem = l - 1 - j;
            let phase = 3 - rem % 4;
            let ghost st0 = st;
            let ghost before = t.out@;
            t.digit_step(n, phase, enable_liang, yishi, Ghost(st));
            proof {
                st = digit_next(n as int, phase as int, st0);
            }
            if rem % 4 == 0 {
                let ghost st1 = st;
                t.boundary_step::<U>(rem / 4, Ghost(st));
                proof {
                    st = boundary_next((rem / 4) as nat, st1, units);
                }
            }
            proof {
                assert(is_digit_char(s[i as int]));
                assert(digit_val(s[i as int]) == n as int);
                assert(s.len() - 1 - (j as int) == rem as int);
                if rem % 4 == 0 {
                    assert(translate_from(s, i as nat, j as nat, st0, enable_liang, yishi, units)
                        == digit_out(n as int, phase as int, st0, enable_liang, yishi)
                        + boundary_out(
                        (rem / 4) as nat,
                        digit_next(n as int, phase as int, st0),
                        units,
                    ) + translate_from(s, (i + 1) as nat, (j + 1) as nat, st, enable_liang, yishi,
                        units,
                    ));
                } else {
                    assert(translate_from(s, i as nat, j as nat, st0, enable_liang, yishi, units)
                        == digit_out(n as int, phase as int, st0, enable_liang, yishi)
                        + translate_from(s, (i + 1) as nat, (j + 1) as nat, st, enable_liang, yishi,
                        units,
                    ));
                }
                assert(token_views(t.out@) + translate_from(
                    s,
                    (i + 1) as nat,
                    (j + 1) as nat,
                    st,
                    enable_liang,
                    yishi,
                    units,
                ) =~~= token_views(before) + translate_from(
                    s,
                    i as nat,
                    j as nat,
                    st0,
                    enable_liang,
                    yishi,
                    units,
                ));
            }
            j = j + 1;
        } else {
            proof {
                assert(!is_digit_char(s[i as int]));
                assert(translate_from(s, i as nat, j as nat, st, enable_liang, yishi, units)
                    == translate_from(s, (i + 1) as nat, j as nat, st, enable_liang, yishi, units));
            }
        }
        i = i + 1;
    }
    proof {
        assert(translate_from(s, i as nat, j as nat, st, enable_liang, yishi, units)
            =~~= Seq::<Seq<char>>::empty());
        assert(token_views(t.out@) =~~= translate(s, enable_liang, yishi, units));
    }
    t.out
}

/// Concatenate rendered tokens into one string.
fn join_tokens(ts: &Vec<&'static str>) -> (res: String)
    ensures
        res@ == token_views(ts@).flatten(),
{
    let mut res = String::new();
    let mut i: usize = 0;
    proof {
        assert(token_views(ts@).take(0).flatten() =~= Seq::<char>::empty());
    }
    while i < ts.len()
        invariant
            i <= ts@.len(),
            res@ == token_views(ts@).take(i as int).flatten(),
        decreases ts@.len() - i,
    {
        let ghost tv = token_views(ts@);
        res.append(ts[i]);
        proof {
            assert(tv.take(i as int + 1) =~= tv.take(i as int).push(tv[i as int]));
            tv.take(i as int).lemma_flatten_push(tv[i as int]);
        }
        i = i + 1;
    }
    proof {
        assert(token_views(ts@).take(ts@.len() as int) =~= token_views(ts@));
    }
    res
}

/// Render the decimal digit string `num_str` under the alphabet `U` and the
/// policies of `config`. A leading minus sign becomes the "负" prefix, an
/// input with no rendered digits yields the zero name, and under
/// `JustNumber` a final "两" is rewritten to "二".
pub fn sinonumify<U: AttUniter>(num_str: &str, config: Config) -> (res: String)
    ensures
        res@ == format_spec(num_str@, config, U::spec_units()),
{
    proof {
        reveal_strlit("负");
        reveal_strlit("零");
        reveal_strlit("二");
    }
    let l = num_str.unicode_len();
    let negative = if l > 0 {
        num_str.get_char(0) == '-'
    } else {
        false
    };
    let rest: &str = if negative {
        num_str.substring_char(1, l)
    } else {
        num_str
    };
    proof {
        if negative {
            assert(rest@ =~= num_str@.drop_first());
        }
    }
    let toks = sinonum_impl::<U>(rest, config.liang != LiangOption::Disable, config.yishi);
    let body = join_tokens(&toks);
    let mut out = String::new();
    if negative {
        out.append("负");
    }
    if body.as_str().is_empty() {
        out.append("零");
    } else {
        out.append(body.as_str());
    }
    let ghost signed: Seq<char> = if negative {
        fu_tok() + (if body@.len() == 0 {
            spec_num(0)
        } else {
            body@
        })
    } else {
        if body@.len() == 0 {
            spec_num(0)
        } else {
            body@
        }
    };
    proof {
        assert(out@ =~= signed);
    }
    if config.liang == LiangOption::JustNumber {
        let n2 = out.as_str().unicode_len();
        if n2 > 0 {
            let last = out.as_str().get_char(n2 - 1);
            if last == '两' {
                let head = out.as_str().substring_char(0, n2 - 1);
                let mut fixed = head.to_owned();
                fixed.append("二");
                proof {
                    assert(fixed@ =~= signed.drop_last().push('二'));
                    assert(fixed@ =~= format_spec(num_str@, config, U::spec_units()));
                }
                return fixed;
            }
        }
    }
    proof {
        assert(out@ =~= format_spec(num_str@, config, U::spec_units()));
    }
    out
}

/// Render `num_str` under the alphabet that `method` selects.
pub fn sinonumify_with(method: AttMethod, num_str: &str, config: Config) -> (res: String)
    ensures
        method == AttMethod::Old ==> res@ == format_spec(num_str@, config, old_units()),
        method == AttMethod::Std ==> res@ == format_spec(num_str@, config, std_units()),
{
    match method {
        AttMethod::Old => sinonumify::<OldAttUnits>(num_str, config),
        AttMethod::Std => sinonumify::<StdAttUnits>(num_str, config),
    }
}

} // verus!
