//! Big-unit naming: maps a magnitude index (a count of stacked 4-digit-group
//! scales) to the ordered unit names that compose it, under a chosen unit
//! alphabet. Because each alphabet entry's magnitude is the square of the
//! cumulative magnitude before it, the binary expansion of the index selects
//! the names directly; magnitudes beyond the alphabet's range repeat the
//! largest name.
use vstd::prelude::*;

verus! {

/// The character sequences of a vector of unit-name tokens.
pub open spec fn token_views(ts: Seq<&'static str>) -> Seq<Seq<char>> {
    ts.map_values(|t: &'static str| t@)
}

/// The unit names selected while scanning `cur` bit by bit from entry `i`
/// upward: while entries below the last remain, the low bit of `cur` decides
/// whether the entry at `i` is emitted; once only the last entry remains,
/// it is repeated `cur` more times.
pub open spec fn naming_rec(units: Seq<Seq<char>>, cur: nat, i: nat) -> Seq<Seq<char>>
    decreases units.len() - i, cur,
{
    if units.len() == 0 {
        Seq::<Seq<char>>::empty()
    } else if i + 1 < units.len() {
        (if cur % 2 == 1 {
            seq![units[i as int]]
        } else {
            Seq::<Seq<char>>::empty()
        }) + naming_rec(units, cur / 2, i + 1)
    } else if cur > 0 {
        seq![units.last()] + naming_rec(units, (cur - 1) as nat, i)
    } else {
        Seq::<Seq<char>>::empty()
    }
}

/// The ordered unit names for magnitude index `place` under `units`:
/// the entries whose bit is set in the low bits of `place`, in ascending
/// order, then the last entry repeated once for each remaining high unit.
pub open spec fn naming(units: Seq<Seq<char>>, place: nat) -> Seq<Seq<char>>
    recommends
        units.len() >= 1,
{
    naming_rec(units, place, 0)
}

/// The number of names `naming` yields: the bit population of the low bits
/// of `cur` plus the saturating remainder, counted from entry `i`.
pub open spec fn naming_weight(units_len: nat, cur: nat, i: nat) -> nat
    decreases units_len - i, cur,
{
    if units_len == 0 {
        0
    } else if i + 1 < units_len {
        (if cur % 2 == 1 {
            1 as nat
        } else {
            0 as nat
        }) + naming_weight(units_len, cur / 2, i + 1)
    } else if cur > 0 {
        1 + naming_weight(units_len, (cur - 1) as nat, i)
    } else {
        0
    }
}

/// A big-unit alphabet: an ordered, fixed list of magnitude names whose
/// entries each square the cumulative magnitude before them, the last name
/// saturating for all further magnitudes.
pub trait AttUniter {
    /// The alphabet's names, index 0 the smallest.
    spec fn spec_units() -> Seq<Seq<char>>;

    /// The alphabet holds at least one name: the naming algorithm needs a
    /// saturating fallback.
    proof fn units_wf()
        ensures
            Self::spec_units().len() >= 1,
    ;

    /// The ordered unit names for magnitude index `place`.
    fn get_att_unit(place: usize) -> (res: Vec<&'static str>)
        ensures
            token_views(res@) == naming(Self::spec_units(), place as nat),
    ;
}

/// Emit the unit names for `place` by scanning its bits against `units`.
fn build_att_unit(units: &Vec<&'static str>, place: usize) -> (res: Vec<&'static str>)
    requires
        units@.len() >= 1,
    ensures
        token_views(res@) == naming(token_views(units@), place as nat),
{
    let ghost uv: Seq<Seq<char>> = token_views(units@);
    let k = units.len() - 1;
    let mut res: Vec<&'static str> = Vec::new();
    let mut cur: usize = place;
    let mut i: usize = 0;
    proof {
        assert(token_views(res@) =~= Seq::<Seq<char>>::empty());
    }
    while i < k
        invariant
            uv == token_views(units@),
            uv.len() >= 1,
            k == units@.len() - 1,
            i <= k,
            token_views(res@) + naming_rec(uv, cur as nat, i as nat) == naming(uv, place as nat),
        decreases k - i,
    {
        assert(naming_rec(uv, cur as nat, i as nat) == (if cur as nat % 2 == 1 {
            seq![uv[i as int]]
        } else {
            Seq::<Seq<char>>::empty()
        }) + naming_rec(uv, (cur / 2) as nat, (i + 1) as nat));
        if cur % 2 == 1 {
            let ghost old_res = res@;
            res.push(units[i]);
            proof {
                assert(token_views(res@) =~= token_views(old_res).push(units@[i as int]@));
                assert(token_views(res@) + naming_rec(uv, (cur / 2) as nat, (i + 1) as nat)
                    =~= naming(uv, place as nat));
            }
        } else {
            proof {
                assert(token_views(res@) + naming_rec(uv, (cur / 2) as nat, (i + 1) as nat)
                    =~= naming(uv, place as nat));
            }
        }
        cur = cur / 2;
        i = i + 1;
    }
    while cur > 0
        invariant
            uv == token_views(units@),
            uv.len() >= 1,
            k == units@.len() - 1,
            i == k,
            token_views(res@) + naming_rec(uv, cur as nat, i as nat) == naming(uv, place as nat),
        decreases cur,
    {
        assert(naming_rec(uv, cur as nat, i as nat) == seq![uv.last()] + naming_rec(
            uv,
            (cur - 1) as nat,
            i as nat,
        ));
        let ghost old_res = res@;
        res.push(units[k]);
        proof {
            assert(units@[k as int]@ == uv.last());
            assert(token_views(res@) =~= token_views(old_res).push(uv.last()));
            assert(token_views(res@) + naming_rec(uv, (cur - 1) as nat, i as nat) =~= naming(
                uv,
                place as nat,
            ));
        }
        cur = cur - 1;
    }
    proof {
        assert(naming_rec(uv, 0, i as nat) =~= Seq::<Seq<char>>::empty());
        assert(token_views(res@) =~= naming(uv, place as nat));
    }
    res
}

/// The legacy alphabet's names: each entry's magnitude is the square of the
/// cumulative magnitude before it, ending in the saturating 大数.
pub open spec fn old_units() -> Seq<Seq<char>> {
    seq![
        seq!['万'],
        seq!['亿'],
        seq!['兆'],
        seq!['京'],
        seq!['垓'],
        seq!['杼'],
        seq!['穰'],
        seq!['沟'],
        seq!['涧'],
        seq!['正'],
        seq!['载'],
        seq!['极'],
        seq!['恒', '河', '沙'],
        seq!['阿', '僧', '祇'],
        seq!['那', '由', '他'],
        seq!['不', '可', '思', '议'],
        seq!['无', '量'],
        seq!['大', '数'],
    ]
}

/// The modern alphabet's names: everything beyond 亿² repeats 亿.
pub open spec fn std_units() -> Seq<Seq<char>> {
    seq![seq!['万'], seq!['亿']]
}

/// The legacy alphabet's names as executable string slices.
fn old_units_vec() -> (v: Vec<&'static str>)
    ensures
        token_views(v@) == old_units(),
{
    let mut v: Vec<&'static str> = Vec::new();
    v.push("万");
    v.push("亿");
    v.push("兆");
    v.push("京");
    v.push("垓");
    v.push("杼");
    v.push("穰");
    v.push("沟");
    v.push("涧");
    v.push("正");
    v.push("载");
    v.push("极");
    v.push("恒河沙");
    v.push("阿僧祇");
    v.push("那由他");
    v.push("不可思议");
    v.push("无量");
    v.push("大数");
    proof {
        reveal_strlit("万");
        reveal_strlit("亿");
        reveal_strlit("兆");
        reveal_strlit("京");
        reveal_strlit("垓");
        reveal_strlit("杼");
        reveal_strlit("穰");
        reveal_strlit("沟");
        reveal_strlit("涧");
        reveal_strlit("正");
        reveal_strlit("载");
        reveal_strlit("极");
        reveal_strlit("恒河沙");
        reveal_strlit("阿僧祇");
        reveal_strlit("那由他");
        reveal_strlit("不可思议");
        reveal_strlit("无量");
        reveal_strlit("大数");
        assert(token_views(v@) =~~= old_units());
    }
    v
}

/// The modern alphabet's names as executable string slices.
fn std_units_vec() -> (v: Vec<&'static str>)
    ensures
        token_views(v@) == std_units(),
{
    let mut v: Vec<&'static str> = Vec::new();
    v.push("万");
    v.push("亿");
    proof {
        reveal_strlit("万");
        reveal_strlit("亿");
        assert(token_views(v@) =~~= std_units());
    }
    v
}

/// The legacy 18-name alphabet.
pub struct OldAttUnits;

impl AttUniter for OldAttUnits {
    open spec fn spec_units() -> Seq<Seq<char>> {
        old_units()
    }

    proof fn units_wf() {
    }

    fn get_att_unit(place: usize) -> (res: Vec<&'static str>) {
        let units = old_units_vec();
        build_att_unit(&units, place)
    }
}

/// The modern 2-name alphabet.
pub struct StdAttUnits;

impl AttUniter for StdAttUnits {
    open spec fn spec_units() -> Seq<Seq<char>> {
        std_units()
    }

    proof fn units_wf() {
    }

    fn get_att_unit(place: usize) -> (res: Vec<&'static str>) {
        let units = std_units_vec();
        build_att_unit(&units, place)
    }
}

} // verus!
