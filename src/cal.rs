//! Reading the numeric arguments of a calendar program.

use vstd::prelude::*;
use vstd::string::*;

verus! {

/// Relies on `str::parse` through `FromStr`: `Some` with the value when the
/// text parses as a `T`, `None` otherwise.
#[verifier::external_body]
pub(crate) fn parse_text<T: std::str::FromStr>(val: &str) -> (r: Option<T>) {
    val.parse::<T>().ok()
}

/// `Invalid integer "<text>"`.
pub open spec fn invalid_integer(text: Seq<char>) -> Seq<char> {
    seq!['I', 'n', 'v', 'a', 'l', 'i', 'd', ' ', 'i', 'n', 't', 'e', 'g', 'e', 'r', ' ', '"']
        + text + seq!['"']
}

/// Parses `val` as an integer of type `T`; on failure the error reads
/// `Invalid integer "<val>"`.
pub fn parse_int<T: std::str::FromStr>(val: &str) -> (r: Result<T, String>)
    ensures
        r matches Err(e) ==> e@ == invalid_integer(val@),
{
    match parse_text::<T>(val) {
        Some(v) => Ok(v),
        None => {
            let mut msg = String::new();
            msg.append("Invalid integer \"");
            msg.append(val);
            msg.append("\"");
            proof {
                reveal_strlit("Invalid integer \"");
                reveal_strlit("\"");
                assert(msg@ =~= invalid_integer(val@));
            }
            Err(msg)
        },
    }
}

/// The month and year to show. `-y` shows the whole current year; with
/// neither a month nor a year given, the current month is shown; a month
/// given alone is of the current year.
pub fn resolve_month_year(
    month: Option<u32>,
    year: Option<i32>,
    show_year: bool,
    today_month: u32,
    today_year: i32,
) -> (r: (Option<u32>, i32))
    ensures
        r == if show_year {
            (None::<u32>, today_year)
        } else if month is None && year is None {
            (Some(today_month), today_year)
        } else {
            (
                month,
                match year {
                    Some(y) => y,
                    None => today_year,
                },
            )
        },
{
    if show_year {
        (None, today_year)
    } else if month.is_none() && year.is_none() {
        (Some(today_month), today_year)
    } else {
        (
            month,
            match year {
                Some(y) => y,
                None => today_year,
            },
        )
    }
}

/// `year "<text>" not in the range 1 through 9999`.
pub open spec fn year_range_error(text: Seq<char>) -> Seq<char> {
    "year \""@ + text + "\" not in the range 1 through 9999"@
}

/// `month "<text>" not in the range 1 through 12`.
pub open spec fn month_range_error(text: Seq<char>) -> Seq<char> {
    "month \""@ + text + "\" not in the range 1 through 12"@
}

/// `Invalid month "<text>"`.
pub open spec fn invalid_month(text: Seq<char>) -> Seq<char> {
    "Invalid month \""@ + text + "\""@
}

/// `head` quoted with `text` and closed by `tail`.
fn quoted(head: &str, text: &str, tail: &str) -> (r: String)
    ensures
        r@ == head@ + text@ + tail@,
{
    let mut msg = String::new();
    msg.append(head);
    msg.append(text);
    msg.append(tail);
    assert(msg@ =~= head@ + text@ + tail@);
    msg
}

/// What `parse_year` returns once `year` went through `parse_int`: the
/// parse error as it is, the year when it lies in 1 through 9999, a range
/// error otherwise.
pub fn check_year(parsed: Result<i32, String>, year: &str) -> (r: Result<i32, String>)
    ensures
        match parsed {
            Err(e) => r == Err::<i32, String>(e),
            Ok(y) => if 1 <= y <= 9999 {
                r == Ok::<i32, String>(y)
            } else {
                r matches Err(e) && e@ == year_range_error(year@)
            },
        },
{
    match parsed {
        Err(e) => Err(e),
        Ok(y) => if 1 <= y && y <= 9999 {
            Ok(y)
        } else {
            proof {
                reveal_strlit("year \"");
                reveal_strlit("\" not in the range 1 through 9999");
            }
            Err(quoted("year \"", year, "\" not in the range 1 through 9999"))
        },
    }
}

/// Parses a year from 1 through 9999.
pub fn parse_year(year: &str) -> (r: Result<i32, String>)
    ensures
        r matches Ok(y) ==> 1 <= y <= 9999,
        r matches Err(e) ==> e@ == invalid_integer(year@) || e@ == year_range_error(year@),
{
    check_year(parse_int::<i32>(year), year)
}

pub uninterp spec fn lower_of(s: Seq<char>) -> Seq<char>;

/// Relies on `str::to_lowercase`: the result depends on the characters
/// alone, and the empty string stays empty.
#[verifier::external_body]
pub(crate) fn lowercase(s: &str) -> (r: String)
    ensures
        r@ == lower_of(s@),
        s@.len() == 0 ==> r@.len() == 0,
{
    s.to_lowercase()
}

/// The English name of month `i`, counted from 0 for January.
pub open spec fn month_name_of(i: int) -> Seq<char> {
    if i == 0 {
        "January"@
    } else if i == 1 {
        "February"@
    } else if i == 2 {
        "March"@
    } else if i == 3 {
        "April"@
    } else if i == 4 {
        "May"@
    } else if i == 5 {
        "June"@
    } else if i == 6 {
        "July"@
    } else if i == 7 {
        "August"@
    } else if i == 8 {
        "September"@
    } else if i == 9 {
        "October"@
    } else if i == 10 {
        "November"@
    } else {
        "December"@
    }
}

fn month_name(i: usize) -> (r: &'static str)
    requires
        i < 12,
    ensures
        r@ == month_name_of(i as int),
{
    match i {
        0 => "January",
        1 => "February",
        2 => "March",
        3 => "April",
        4 => "May",
        5 => "June",
        6 => "July",
        7 => "August",
        8 => "September",
        9 => "October",
        10 => "November",
        _ => "December",
    }
}

/// Whether `prefix` begins `s`.
fn starts_with(s: &str, prefix: &str) -> (r: bool)
    ensures
        r == prefix@.is_prefix_of(s@),
{
    let n = prefix.unicode_len();
    let m = s.unicode_len();
    if n > m {
        return false;
    }
    let mut i: usize = 0;
    while i < n
        invariant
            n == prefix@.len(),
            m == s@.len(),
            n <= m,
            i <= n,
            forall|j: int| 0 <= j < i ==> prefix@[j] == s@[j],
        decreases n - i,
    {
        if prefix.get_char(i) != s.get_char(i) {
            return false;
        }
        i = i + 1;
    }
    true
}

/// The months among the first `n` whose lowercase name begins with `lower`.
pub open spec fn months_matching(lower: Seq<char>, n: int) -> Seq<int>
    decreases n,
{
    if n <= 0 {
        Seq::empty()
    } else if lower.is_prefix_of(lower_of(month_name_of(n - 1))) {
        months_matching(lower, n - 1).push(n - 1)
    } else {
        months_matching(lower, n - 1)
    }
}

proof fn lemma_months_matching_range(lower: Seq<char>, n: int)
    ensures
        months_matching(lower, n).len() <= if n > 0 { n } else { 0 },
        forall|j: int|
            0 <= j < months_matching(lower, n).len() ==> 0 <= #[trigger] months_matching(
                lower,
                n,
            )[j] < n,
    decreases n,
{
    if n > 0 {
        lemma_months_matching_range(lower, n - 1);
    }
}

/// The month whose lowercase name is the only one that `lower` begins:
/// its number from 1 for January, or `None` when no name or several do.
pub fn month_by_name(lower: &str) -> (r: Option<u32>)
    ensures
        months_matching(lower@, 12).len() == 1 ==> r == Some((months_matching(lower@, 12)[0] + 1) as u32),
        months_matching(lower@, 12).len() != 1 ==> r is None,
        r matches Some(m) ==> 1 <= m <= 12,
{
    let mut found: usize = 0;
    let mut count: usize = 0;
    let mut i: usize = 0;
    while i < 12
        invariant
            i <= 12,
            count == months_matching(lower@, i as int).len(),
            count <= i,
            count > 0 ==> found == months_matching(lower@, i as int)[0],
            found < 12,
        decreases 12 - i,
    {
        let name = lowercase(month_name(i));
        proof {
            lemma_months_matching_range(lower@, i as int);
        }
        if starts_with(name.as_str(), lower) {
            if count == 0 {
                found = i;
            }
            count = count + 1;
        }
        i = i + 1;
    }
    proof {
        lemma_months_matching_range(lower@, 12);
    }
    if count == 1 {
        Some(found as u32 + 1)
    } else {
        None
    }
}

/// What `parse_month` returns once `month` went through `parse_int`: a
/// number is taken when it lies in 1 through 12; text that is no number is
/// looked up by its lowercase form `lower` as the start of a month's name.
pub fn check_month(parsed: Result<u32, String>, month: &str, lower: &str) -> (r: Result<u32, String>)
    ensures
        match parsed {
            Ok(m) => if 1 <= m <= 12 {
                r == Ok::<u32, String>(m)
            } else {
                r matches Err(e) && e@ == month_range_error(month@)
            },
            Err(_) => if months_matching(lower@, 12).len() == 1 {
                r == Ok::<u32, String>((months_matching(lower@, 12)[0] + 1) as u32)
            } else {
                r matches Err(e) && e@ == invalid_month(month@)
            },
        },
        r matches Ok(m) ==> 1 <= m <= 12,
{
    match parsed {
        Ok(m) => if 1 <= m && m <= 12 {
            Ok(m)
        } else {
            proof {
                reveal_strlit("month \"");
                reveal_strlit("\" not in the range 1 through 12");
            }
            Err(quoted("month \"", month, "\" not in the range 1 through 12"))
        },
        Err(_) => match month_by_name(lower) {
            Some(m) => Ok(m),
            None => {
                proof {
                    reveal_strlit("Invalid month \"");
                    reveal_strlit("\"");
                }
                Err(quoted("Invalid month \"", month, "\""))
            },
        },
    }
}

/// Parses a month given as a number from 1 through 12, or as the start of
/// its English name in any case (`jan`, `Sept`).
pub fn parse_month(month: &str) -> (r: Result<u32, String>)
    ensures
        r matches Ok(m) ==> 1 <= m <= 12,
        r matches Err(e) ==> e@ == month_range_error(month@) || e@ == invalid_month(month@),
{
    let lower = lowercase(month);
    check_month(parse_int::<u32>(month), month, lower.as_str())
}

} // verus!
