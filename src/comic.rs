//! One published comic, as the remote API describes it.

use vstd::prelude::*;

use crate::decimal::{decimal, digits_in, parse_digits, push_decimal};
use crate::file::chars_of;
use vstd::arithmetic::div_mod::{
    lemma_fundamental_div_mod, lemma_fundamental_div_mod_converse, lemma_mod_pos_bound,
};

verus! {

/// One published comic: immutable once built, replaced wholesale on refresh.
#[derive(Clone, Debug)]
pub struct Comic {
    pub num: u32,
    pub day: i32,
    pub month: i32,
    pub year: i32,
    pub link: Option<String>,
    pub news: Option<String>,
    pub alt: String,
    pub title: String,
    pub safe_title: String,
    pub transcript: Option<String>,
    pub img_url: String,
    pub img_len: Option<usize>,
}

/// The days from 1970-01-01 to day `d` of month `m` (1 is January) of year
/// `y` in the proleptic Gregorian calendar; days beyond the month carry on.
pub open spec fn days_from_civil(y: int, m: int, d: int) -> int {
    let y2 = if m <= 2 {
        y - 1
    } else {
        y
    };
    let era = y2 / 400;
    let yoe = y2 - era * 400;
    let mp = if m > 2 {
        m - 3
    } else {
        m + 9
    };
    let doy = (153 * mp + 2) / 5 + d - 1;
    let doe = yoe * 365 + yoe / 4 - yoe / 100 + doy;
    era * 146097 + doe - 719468
}

/// The seconds since the epoch (leap seconds not counted) at `hour`:00:00
/// UTC of day `day` of month `month` (1 is January) of year `year`; months
/// outside the year carry into it.
pub open spec fn posix_seconds(year: int, month: int, day: int, hour: int) -> int {
    days_from_civil(year + (month - 1) / 12, (month - 1) % 12 + 1, day) * 86400 + hour * 3600
}

/// The hour of the day at which a comic is timestamped.
pub const PUBLICATION_HOUR: i64 = 12;

const BOUND: i64 = 0x100_0000_0000;

/// Floor division and its remainder: `(a / d, a % d)` with the remainder in
/// `0..d`.
fn div_floor(a: i64, d: i64) -> (r: (i64, i64))
    requires
        0 < d <= 1000,
        -BOUND <= a <= BOUND,
    ensures
        r.0 == a as int / d as int,
        r.1 == a as int % d as int,
{
    if a >= 0 {
        let ua = a as u64;
        let ud = d as u64;
        let q = ua / ud;
        let rem = ua % ud;
        proof {
            lemma_fundamental_div_mod(ua as int, ud as int);
            lemma_mod_pos_bound(ua as int, ud as int);
            assert(q * ud == ud * q) by (nonlinear_arith);
            lemma_fundamental_div_mod_converse(a as int, d as int, q as int, rem as int);
        }
        (q as i64, rem as i64)
    } else {
        let na = (-a) as u64;
        let ud = d as u64;
        let q = (na + ud - 1) / ud;
        let rem0 = (na + ud - 1) % ud;
        proof {
            lemma_fundamental_div_mod((na + ud - 1) as int, ud as int);
            lemma_mod_pos_bound((na + ud - 1) as int, ud as int);
            assert(q * ud == ud * q) by (nonlinear_arith);
            assert(q * ud <= na + ud - 1);
            assert(q * ud >= na);
            assert(q <= BOUND) by (nonlinear_arith)
                requires
                    q * ud <= na + ud - 1,
                    ud >= 1,
                    na <= BOUND,
                    q >= 0,
            ;
            assert(q * ud <= BOUND + 1000);
        }
        let qi = q as i64;
        let rem = a + qi * d;
        proof {
            assert(qi * d == q * ud);
            assert(a == (-(qi as int)) * d + rem) by (nonlinear_arith)
                requires
                    rem == a + qi * d,
            ;
            lemma_fundamental_div_mod_converse(a as int, d as int, -(qi as int), rem as int);
        }
        (-qi, rem)
    }
}

/// The days from 1970-01-01 to day `d` of month `m` (1 is January) of year `y`.
fn days_from_civil_exec(y: i64, m: i64, d: i64) -> (r: i64)
    requires
        -0x2_0000_0000 <= y <= 0x2_0000_0000,
        1 <= m <= 12,
        -0x1_0000_0000 <= d <= 0x1_0000_0000,
    ensures
        r == days_from_civil(y as int, m as int, d as int),
        -0x1000_0000_0000 <= r <= 0x1000_0000_0000,
{
    let y2 = if m <= 2 {
        y - 1
    } else {
        y
    };
    let (era, yoe) = div_floor(y2, 400);
    let mp = if m > 2 {
        m - 3
    } else {
        m + 9
    };
    let (q5, _) = div_floor(153 * mp + 2, 5);
    let doy = q5 + d - 1;
    let (q4, _) = div_floor(yoe, 4);
    let (q100, _) = div_floor(yoe, 100);
    proof {
        lemma_fundamental_div_mod(y2 as int, 400);
        assert(era * 400 <= y2 && y2 < era * 400 + 400);
        assert(-21474837int <= era <= 21474837int) by (nonlinear_arith)
            requires
                era * 400 <= y2,
                y2 < era * 400 + 400,
                -0x2_0000_0001 <= y2 <= 0x2_0000_0000,
        ;
        assert(yoe == y2 - era * 400);
        assert(q5 <= 1000);
        assert(q4 <= 100 && q100 <= 4);
        assert(-21474837 * 146097 <= era * 146097 <= 21474837 * 146097) by (nonlinear_arith)
            requires
                -21474837int <= era <= 21474837int,
        ;
    }
    era * 146097 + (yoe * 365 + q4 - q100 + doy) - 719468
}

/// The decimal rendering of an integer, with a leading `-` when negative,
/// padded with zeros to at least `width` digits.
pub open spec fn signed_padded(v: int, width: nat) -> Seq<char> {
    let mag: nat = if v < 0 {
        (-v) as nat
    } else {
        v as nat
    };
    let digits = decimal(mag);
    let zeros = Seq::new((if digits.len() < width {
        width - digits.len()
    } else {
        0
    }) as nat, |i: int| '0');
    (if v < 0 {
        seq!['-']
    } else {
        Seq::empty()
    }) + zeros + digits
}

/// Appends `v` as `signed_padded(v, width)` does.
fn push_signed_padded(s: &mut String, v: i32, width: usize)
    requires
        width <= 4,
    ensures
        final(s)@ == old(s)@ + signed_padded(v as int, width as nat),
{
    proof {
        reveal_strlit("-");
        reveal_strlit("0");
    }
    let ghost start = s@;
    if v < 0 {
        s.append("-");
    }
    let mag: u32 = if v < 0 {
        (-(v as i64)) as u32
    } else {
        v as u32
    };
    let n = crate::decimal::decimal_len(mag);
    let ghost signed = s@;
    let mut k: usize = n;
    while k < width
        invariant
            n == decimal(mag as nat).len(),
            n <= k,
            k <= width || k == n,
            width <= 4,
            s@ == signed + Seq::new((k - n) as nat, |i: int| '0'),
        decreases width - k,
    {
        proof {
            reveal_strlit("0");
        }
        s.append("0");
        k = k + 1;
        assert(s@ =~= signed + Seq::new((k - n) as nat, |i: int| '0'));
    }
    push_decimal(s, mag);
    proof {
        let zeros = Seq::new((if n < width {
            width - n
        } else {
            0
        }) as nat, |i: int| '0');
        assert(Seq::new((k - n) as nat, |i: int| '0') =~= zeros);
    }
    assert(final(s)@ =~= old(s)@ + signed_padded(v as int, width as nat));
}

/// The 32-bit integer that `s` spells: an optional sign, then one or more
/// decimal digits.
pub open spec fn int_in(s: Seq<char>) -> Option<i32> {
    let signed = s.len() > 0 && (s[0] == '-' || s[0] == '+');
    let digits = if signed {
        s.drop_first()
    } else {
        s
    };
    match digits_in(digits) {
        None => None,
        Some(m) => {
            let v = if signed && s[0] == '-' {
                -(m as int)
            } else {
                m as int
            };
            if i32::MIN <= v <= i32::MAX {
                Some(v as i32)
            } else {
                None
            }
        },
    }
}

/// Reads the 32-bit integer that `s` spells.
pub fn parse_i32(s: &str) -> (r: Option<i32>)
    ensures
        r == int_in(s@),
{
    let v = chars_of(s);
    let len = v.len();
    let signed = len > 0 && (v[0] == '-' || v[0] == '+');
    let negative = signed && v[0] == '-';
    let start: usize = if signed {
        1
    } else {
        0
    };
    proof {
        if signed {
            assert(v@.subrange(1, len as int) =~= s@.drop_first());
        } else {
            assert(v@.subrange(0, len as int) =~= s@);
        }
    }
    match parse_digits(&v, start, len) {
        None => None,
        Some(m) => {
            if negative {
                if m <= 0x8000_0000 {
                    Some((-(m as i64)) as i32)
                } else {
                    None
                }
            } else if m <= 0x7fff_ffff {
                Some(m as i32)
            } else {
                None
            }
        },
    }
}

/// Which date field of a remote record is no integer.
#[derive(Clone, Copy, Debug, PartialEq, Eq, Structural)]
pub enum DateFieldError {
    Day,
    Month,
    Year,
}

/// `None` for an empty text.
pub open spec fn none_if_empty(s: String) -> Option<String> {
    if s@.len() == 0 {
        None
    } else {
        Some(s)
    }
}

fn none_if_empty_exec(s: String) -> (r: Option<String>)
    ensures
        r == none_if_empty(s),
{
    if s.as_str().is_empty() {
        None
    } else {
        Some(s)
    }
}

impl Comic {
    /// Builds a comic from the fields of a remote record: the date fields
    /// are integers in text, and an empty link or news item is none.
    pub fn from_api(
        num: u32,
        day: &str,
        month: &str,
        year: &str,
        link: String,
        news: String,
        alt: String,
        title: String,
        safe_title: String,
        transcript: Option<String>,
        img: String,
    ) -> (r: Result<Comic, DateFieldError>)
        ensures
            int_in(day@) is None ==> r == Err::<Comic, DateFieldError>(DateFieldError::Day),
            int_in(day@) is Some && int_in(month@) is None ==> r == Err::<Comic, DateFieldError>(
                DateFieldError::Month,
            ),
            int_in(day@) is Some && int_in(month@) is Some && int_in(year@) is None ==> r == Err::<
                Comic,
                DateFieldError,
            >(DateFieldError::Year),
            int_in(day@) is Some && int_in(month@) is Some && int_in(year@) is Some ==> r == Ok::<
                Comic,
                DateFieldError,
            >(
                Comic {
                    num,
                    day: int_in(day@).unwrap(),
                    month: int_in(month@).unwrap(),
                    year: int_in(year@).unwrap(),
                    link: none_if_empty(link),
                    news: none_if_empty(news),
                    alt,
                    title,
                    safe_title,
                    transcript,
                    img_url: img,
                    img_len: None,
                },
            ),
    {
        let day = match parse_i32(day) {
            Some(d) => d,
            None => return Err(DateFieldError::Day),
        };
        let month = match parse_i32(month) {
            Some(m) => m,
            None => return Err(DateFieldError::Month),
        };
        let year = match parse_i32(year) {
            Some(y) => y,
            None => return Err(DateFieldError::Year),
        };
        Ok(
            Comic {
                num,
                day,
                month,
                year,
                link: none_if_empty_exec(link),
                news: none_if_empty_exec(news),
                alt,
                title,
                safe_title,
                transcript,
                img_url: img,
                img_len: None,
            },
        )
    }

    /// The publication date as `YYYY-MM-DD`.
    pub open spec fn isodate_of(self) -> Seq<char> {
        signed_padded(self.year as int, 4) + seq!['-'] + signed_padded(self.month as int, 2)
            + seq!['-'] + signed_padded(self.day as int, 2)
    }

    /// The publication time: noon UTC of the publication day, in seconds
    /// since the epoch.
    pub open spec fn time_of(self) -> int {
        posix_seconds(self.year as int, self.month as int, self.day as int, PUBLICATION_HOUR as int)
    }

    /// The publication date as `YYYY-MM-DD`.
    pub fn isodate(&self) -> (r: String)
        ensures
            r@ == self.isodate_of(),
    {
        proof {
            reveal_strlit("-");
        }
        let mut s = String::new();
        push_signed_padded(&mut s, self.year, 4);
        s.append("-");
        push_signed_padded(&mut s, self.month, 2);
        s.append("-");
        push_signed_padded(&mut s, self.day, 2);
        assert(s@ =~= self.isodate_of());
        s
    }

    /// The publication time: noon UTC of the publication day, in seconds
    /// since the epoch.
    pub fn time(&self) -> (r: i64)
        ensures
            r == self.time_of(),
    {
        let (carry, mon) = div_floor(self.month as i64 - 1, 12);
        let days = days_from_civil_exec(self.year as i64 + carry, mon + 1, self.day as i64);
        days * 86400 + PUBLICATION_HOUR * 3600
    }
}

} // verus!
