//! Splitting a CSS value such as `1.5rem` into its number and its unit.
use vstd::prelude::*;
use crate::text::{before_suffix, chars_of, is_digit, is_suffix, string_of_chars};

verus! {

/// The units a dimension can have, in the order they are tried.
pub open spec fn dimension_units() -> Seq<Seq<char>> {
    seq![
        "px"@, "rem"@, "em"@, "vh"@, "vw"@, "vmin"@, "vmax"@, "%"@, "pt"@, "pc"@, "in"@, "cm"@, "mm"@,
        "ch"@, "ex"@, "s"@, "ms"@, "deg"@, "rad"@, "turn"@, "grad"@,
    ]
}

/// Whether `t` can be the number of a dimension: not empty, and only digits,
/// dots and minus signs.
pub open spec fn is_number_part(t: Seq<char>) -> bool {
    &&& t.len() > 0
    &&& forall|i: int| 0 <= i < t.len() ==> is_digit(#[trigger] t[i]) || t[i] == '.' || t[i] == '-'
}

/// The number and unit of `s`, trying the units from the `k`-th on: the first
/// unit that `s` ends with and that leaves a number before it.
pub open spec fn dimension_from(s: Seq<char>, k: int) -> Option<(Seq<char>, Seq<char>)>
    decreases dimension_units().len() - k,
{
    if k < 0 || k >= dimension_units().len() {
        None
    } else {
        let u = dimension_units()[k];
        if is_suffix(u, s) && is_number_part(before_suffix(u, s)) {
            Some((before_suffix(u, s), u))
        } else {
            dimension_from(s, k + 1)
        }
    }
}

/// The number and unit of a dimension value.
pub open spec fn dimension(s: Seq<char>) -> Option<(Seq<char>, Seq<char>)> {
    dimension_from(s, 0)
}

fn unit_at(k: usize) -> (r: &'static str)
    requires
        k < 21,
    ensures
        r@ == dimension_units()[k as int],
{
    match k {
        0 => "px",
        1 => "rem",
        2 => "em",
        3 => "vh",
        4 => "vw",
        5 => "vmin",
        6 => "vmax",
        7 => "%",
        8 => "pt",
        9 => "pc",
        10 => "in",
        11 => "cm",
        12 => "mm",
        13 => "ch",
        14 => "ex",
        15 => "s",
        16 => "ms",
        17 => "deg",
        18 => "rad",
        19 => "turn",
        _ => "grad",
    }
}

fn number_part_of(v: &Vec<char>, to: usize) -> (r: bool)
    requires
        to <= v@.len(),
    ensures
        r == is_number_part(v@.subrange(0, to as int)),
{
    if to == 0 {
        return false;
    }
    let mut i: usize = 0;
    while i < to
        invariant
            i <= to <= v@.len(),
            forall|j: int| 0 <= j < i ==> is_digit(#[trigger] v@[j]) || v@[j] == '.' || v@[j] == '-',
        decreases to - i,
    {
        let c = v[i];
        if !(('0' <= c && c <= '9') || c == '.' || c == '-') {
            assert(v@.subrange(0, to as int)[i as int] == c);
            return false;
        }
        i = i + 1;
    }
    assert forall|j: int| 0 <= j < to implies is_digit(#[trigger] v@.subrange(0, to as int)[j]) || v@.subrange(0, to as int)[j] == '.' || v@.subrange(0, to as int)[j] == '-' by {
        assert(v@.subrange(0, to as int)[j] == v@[j]);
    }
    true
}

/// Splits a value such as `1.5rem` into its number `1.5` and unit `rem`;
/// `None` when it is no such value.
pub fn parse_dimension(s: &str) -> (r: Option<(String, &'static str)>)
    ensures
        r matches Some((n, u)) ==> dimension(s@) == Some((n@, u@)),
        r is None ==> dimension(s@) is None,
{
    let v = chars_of(s);
    let mut k: usize = 0;
    while k < 21
        invariant
            k <= 21,
            v@ == s@,
            dimension(s@) == dimension_from(s@, k as int),
        decreases 21 - k,
    {
        let u = unit_at(k);
        let uv = chars_of(u);
        if uv.len() <= v.len() {
            let cut = v.len() - uv.len();
            let mut same = true;
            let mut j: usize = 0;
            while j < uv.len()
                invariant
                    j <= uv@.len(),
                    cut + uv@.len() == v@.len(),
                    v@.len() <= usize::MAX,
                    same <==> forall|q: int| 0 <= q < j ==> v@[cut + q] == uv@[q],
                decreases uv@.len() - j,
            {
                if v[cut + j] != uv[j] {
                    same = false;
                }
                j = j + 1;
            }
            proof {
                if same {
                    assert(v@.subrange(cut as int, v@.len() as int) =~= uv@);
                } else {
                    if is_suffix(u@, s@) {
                        let q = choose|q: int| 0 <= q < uv@.len() && v@[cut + q] != uv@[q];
                        assert(v@.subrange(cut as int, v@.len() as int)[q] == v@[cut + q]);
                    }
                }
            }
            if same {
                let num_ok = number_part_of(&v, cut);
                proof {
                    assert(before_suffix(u@, s@) =~= v@.subrange(0, cut as int));
                }
                if num_ok {
                    return Some((string_of_chars(&v, 0, cut), u));
                }
            }
        }
        k = k + 1;
    }
    None
}

} // verus!
