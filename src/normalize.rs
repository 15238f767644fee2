use vstd::prelude::*;
use vstd::string::StrSliceExecFns;
use vstd::string::StringExecFns;

verus! {

/// Truncating conversion of an area in square miles to square kilometres (factor 2.58999).
pub open spec fn square_km_of(square_miles: int) -> int {
    if square_miles >= 0 {
        (square_miles * 258999) / 100000
    } else {
        -(((-square_miles) * 258999) / 100000)
    }
}

/// `v` brought into the range of `i32`, as a saturating cast does.
pub open spec fn saturate_i32(v: int) -> i32 {
    if v > i32::MAX {
        i32::MAX
    } else if v < i32::MIN {
        i32::MIN
    } else {
        v as i32
    }
}

/// An optional area in square miles, converted to square kilometres.
pub open spec fn area_km_of(area: Option<i32>) -> Option<i32> {
    match area {
        Some(a) => Some(saturate_i32(square_km_of(a as int))),
        None => None,
    }
}

/// One row of the regions file.
#[derive(Clone, Debug, PartialEq, Eq)]
pub struct UsState {
    pub state_type: String,
    pub name: String,
    pub abbreviation: String,
    pub capital: Option<String>,
    pub population: Option<i32>,
    /// Area in square miles.
    pub area: Option<i32>,
}

impl UsState {
    /// The area in square kilometres, truncated; absent when the area is absent.
    pub fn area_in_square_km(&self) -> (r: Option<i32>)
        ensures
            r == area_km_of(self.area),
    {
        match self.area {
            None => None,
            Some(a) => {
                let magnitude: u64 = if a >= 0 {
                    a as u64
                } else {
                    (-(a as i64)) as u64
                };
                let km: u64 = magnitude * 258999 / 100000;
                if a >= 0 {
                    if km > i32::MAX as u64 {
                        Some(i32::MAX)
                    } else {
                        Some(km as i32)
                    }
                } else {
                    if km > 2147483648u64 {
                        Some(i32::MIN)
                    } else {
                        Some((-(km as i64)) as i32)
                    }
                }
            },
        }
    }
}

/// `p` left-padded with `0` to at least two characters.
pub open spec fn pad2(p: Seq<char>) -> Seq<char> {
    if p.len() == 0 {
        seq!['0', '0']
    } else if p.len() == 1 {
        seq!['0'] + p
    } else {
        p
    }
}

/// `s` has exactly two `/`, at positions `i < j`.
pub open spec fn slash_shape(s: Seq<char>, i: int, j: int) -> bool {
    &&& 0 <= i < j < s.len()
    &&& s[i] == '/'
    &&& s[j] == '/'
    &&& forall|k: int| 0 <= k < s.len() && k != i && k != j ==> s[k] != '/'
}

/// The `Y-MM-DD` form of a date written `M/D/Y` with separators at `i` and `j`.
pub open spec fn iso_date_of(s: Seq<char>, i: int, j: int) -> Seq<char> {
    s.subrange(j + 1, s.len() as int) + seq!['-'] + pad2(s.subrange(0, i)) + seq!['-'] + pad2(
        s.subrange(i + 1, j),
    )
}

fn append_padded(out: &mut String, part: &str)
    ensures
        final(out)@ == old(out)@ + pad2(part@),
{
    let n = part.unicode_len();
    if n == 0 {
        out.append("00");
        proof {
            reveal_strlit("00");
        }
    } else if n == 1 {
        out.append("0");
        proof {
            reveal_strlit("0");
        }
        out.append(part);
    } else {
        out.append(part);
    }
    assert(final(out)@ =~= old(out)@ + pad2(part@));
}

/// Rewrites a date given as `M/D/Y` into `Y-MM-DD`; any other shape gives `None`.
pub fn parse_date(d: &str) -> (r: Option<String>)
    ensures
        r is Some <==> exists|i: int, j: int| slash_shape(d@, i, j),
        forall|i: int, j: int| slash_shape(d@, i, j) ==> (r matches Some(t) && t@ == iso_date_of(d@, i, j)),
{
    let n = d.unicode_len();
    let mut count: usize = 0;
    let mut first: usize = 0;
    let mut second: usize = 0;
    let mut k: usize = 0;
    while k < n
        invariant
            n == d@.len(),
            k <= n,
            count <= 3,
            count <= k,
            count >= 1 ==> first < k && d@[first as int] == '/',
            count >= 2 ==> first < second < k && d@[second as int] == '/',
            count == 0 ==> forall|x: int| 0 <= x < k ==> d@[x] != '/',
            count == 1 ==> forall|x: int| 0 <= x < k && x != first ==> d@[x] != '/',
            count == 2 ==> forall|x: int| 0 <= x < k && x != first && x != second ==> d@[x] != '/',
            count == 3 ==> exists|x: int| 0 <= x < k && x != first && x != second && d@[x] == '/',
        decreases n - k,
    {
        if d.get_char(k) == '/' {
            if count == 0 {
                first = k;
                count = 1;
            } else if count == 1 {
                second = k;
                count = 2;
            } else if count == 2 {
                count = 3;
            }
        }
        k = k + 1;
    }
    if count != 2 {
        if count == 3 {
            assert forall|i: int, j: int| !slash_shape(d@, i, j) by {
                if slash_shape(d@, i, j) {
                    let x = choose|x: int| 0 <= x < n && x != first && x != second && d@[x] == '/';
                    assert(x == i || x == j);
                    assert(first == i || first == j);
                    assert(second == i || second == j);
                }
            }
        } else {
            assert forall|i: int, j: int| !slash_shape(d@, i, j) by {
                if slash_shape(d@, i, j) {
                    assert(d@[j] == '/');
                }
            }
        }
        return None;
    }
    let mut out = String::from_str(d.substring_char(second + 1, n));
    out.append("-");
    append_padded(&mut out, d.substring_char(0, first));
    out.append("-");
    append_padded(&mut out, d.substring_char(first + 1, second));
    proof {
        reveal_strlit("-");
        assert(slash_shape(d@, first as int, second as int));
        assert(out@ =~= iso_date_of(d@, first as int, second as int));
        assert forall|i: int, j: int| slash_shape(d@, i, j) implies i == first && j == second by {
            assert(d@[first as int] == '/');
            assert(d@[second as int] == '/');
        }
    }
    Some(out)
}

} // verus!

verus! {

/// One row of the turbines file, with its decimal columns held in fixed point:
/// `project_capacity_milli` in thousandths of a megawatt, the model's lengths and
/// areas in thousandths, and the coordinates in millionths of a degree.
#[derive(Clone, Debug, PartialEq, Eq)]
pub struct TurbineInput {
    pub t_state: String,
    pub t_county: String,
    pub p_name: String,
    pub p_tnum: i32,
    pub p_cap_milli: Option<i32>,
    pub t_manu: String,
    pub t_model: String,
    pub t_cap: Option<i32>,
    pub t_hh_milli: Option<i64>,
    pub t_rd_milli: Option<i64>,
    pub t_rsa_milli: Option<i64>,
    pub t_ttlh_milli: Option<i64>,
    pub retrofit: u8,
    pub retrofit_year: Option<i32>,
    pub t_conf_atr: u8,
    pub t_conf_loc: u8,
    pub t_img_date: String,
    pub t_img_srce: String,
    pub xlong_micro: i64,
    pub ylat_micro: i64,
}

} // verus!
