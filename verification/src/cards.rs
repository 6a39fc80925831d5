//! What the comic cards shared by the list pages show: shortened titles,
//! tag badges, rank medals, dates, and the actions of their context menu.
use chrono::TimeZone;
use vstd::prelude::*;

use crate::text::{
    concat_str, date_part, decimal_digits, format_api_date, is_digit, truncate_text, truncated,
    u64_to_string,
};

verus! {

/// The two kinds of tag badge.
#[derive(Clone, Copy, PartialEq, Eq, Structural, Debug)]
pub enum TagColor {
    Category,
    Tag,
}

/// The colour of a rank badge.
#[derive(Clone, Copy, PartialEq, Eq, Structural, Debug)]
pub enum RankMedal {
    Gold,
    Silver,
    Bronze,
    Plain,
}

/// The medal of a rank: gold, silver and bronze for the first three.
pub open spec fn medal_of(rank: int) -> RankMedal {
    if rank == 1 {
        RankMedal::Gold
    } else if rank == 2 {
        RankMedal::Silver
    } else if rank == 3 {
        RankMedal::Bronze
    } else {
        RankMedal::Plain
    }
}

/// The medal of a rank.
pub fn rank_medal(rank: usize) -> (r: RankMedal)
    ensures
        r == medal_of(rank as int),
{
    if rank == 1 {
        RankMedal::Gold
    } else if rank == 2 {
        RankMedal::Silver
    } else if rank == 3 {
        RankMedal::Bronze
    } else {
        RankMedal::Plain
    }
}

/// The label of a rank badge: `#` and the rank.
pub fn rank_label(rank: usize) -> (r: String)
    ensures
        r@ == "#"@ + decimal_digits(rank as nat),
{
    concat_str("#", u64_to_string(rank as u64).as_str())
}

/// The badges of a card: the first two categories, then the first two tags,
/// each cut to `max_chars` characters.
pub open spec fn badges_of(categories: Seq<String>, tags: Seq<String>, max_chars: int) -> Seq<(Seq<char>, TagColor)> {
    categories.take(if categories.len() < 2 { categories.len() as int } else { 2 }).map_values(
        |c: String| (truncated(c@, max_chars), TagColor::Category),
    ) + tags.take(if tags.len() < 2 { tags.len() as int } else { 2 }).map_values(
        |t: String| (truncated(t@, max_chars), TagColor::Tag),
    )
}

/// The badges as plain values.
pub open spec fn badges_view(v: Seq<(String, TagColor)>) -> Seq<(Seq<char>, TagColor)> {
    v.map_values(|b: (String, TagColor)| (b.0@, b.1))
}

/// The badges of a card.
pub fn card_badges(categories: &Vec<String>, tags: &Vec<String>, max_chars: usize) -> (r: Vec<(String, TagColor)>)
    ensures
        badges_view(r@) == badges_of(categories@, tags@, max_chars as int),
{
    let mut r: Vec<(String, TagColor)> = Vec::new();
    let nc = if categories.len() < 2 {
        categories.len()
    } else {
        2
    };
    let nt = if tags.len() < 2 {
        tags.len()
    } else {
        2
    };
    let ghost cs = categories@.take(nc as int).map_values(
        |c: String| (truncated(c@, max_chars as int), TagColor::Category),
    );
    let ghost ts = tags@.take(nt as int).map_values(
        |t: String| (truncated(t@, max_chars as int), TagColor::Tag),
    );
    let mut i: usize = 0;
    while i < nc
        invariant
            i <= nc <= categories@.len(),
            nc <= 2,
            badges_view(r@) == cs.take(i as int),
            cs == categories@.take(nc as int).map_values(
                |c: String| (truncated(c@, max_chars as int), TagColor::Category),
            ),
        decreases nc - i,
    {
        let b = truncate_text(categories[i].as_str(), max_chars);
        let ghost before = badges_view(r@);
        r.push((b, TagColor::Category));
        proof {
            assert(cs[i as int] == (truncated(categories@[i as int]@, max_chars as int), TagColor::Category));
            assert(badges_view(r@) =~= before.push((b@, TagColor::Category)));
            assert(cs.take(i + 1) =~= cs.take(i as int).push(cs[i as int]));
            assert(badges_view(r@) =~= cs.take(i + 1));
        }
        i = i + 1;
    }
    proof {
        assert(cs.take(nc as int) =~= cs);
    }
    let mut j: usize = 0;
    while j < nt
        invariant
            j <= nt <= tags@.len(),
            nt <= 2,
            badges_view(r@) == cs + ts.take(j as int),
            ts == tags@.take(nt as int).map_values(
                |t: String| (truncated(t@, max_chars as int), TagColor::Tag),
            ),
        decreases nt - j,
    {
        let b = truncate_text(tags[j].as_str(), max_chars);
        let ghost before = badges_view(r@);
        r.push((b, TagColor::Tag));
        proof {
            assert(ts[j as int] == (truncated(tags@[j as int]@, max_chars as int), TagColor::Tag));
            assert(badges_view(r@) =~= before.push((b@, TagColor::Tag)));
            assert(ts.take(j + 1) =~= ts.take(j as int).push(ts[j as int]));
            assert(badges_view(r@) =~= cs + ts.take(j + 1));
        }
        j = j + 1;
    }
    proof {
        assert(ts.take(nt as int) =~= ts);
    }
    r
}

/// The date lines of a card: the update date first, then the creation date,
/// each the date part of the server's time.
pub open spec fn time_lines_of(created_at: Option<Seq<char>>, updated_at: Option<Seq<char>>) -> Seq<Seq<char>> {
    (match updated_at {
        Some(u) => seq!["更新 "@ + date_part(u)],
        None => seq![],
    }) + (match created_at {
        Some(c) => seq!["创建 "@ + date_part(c)],
        None => seq![],
    })
}

/// The date lines of a card.
pub fn comic_time_lines(created_at: Option<&str>, updated_at: Option<&str>) -> (r: Vec<String>)
    ensures
        crate::search::strings_view(r@) == time_lines_of(
            match created_at {
                Some(c) => Some(c@),
                None => None,
            },
            match updated_at {
                Some(u) => Some(u@),
                None => None,
            },
        ),
{
    let mut r: Vec<String> = Vec::new();
    match updated_at {
        Some(u) => r.push(concat_str("更新 ", format_api_date(u))),
        None => {},
    }
    let ghost first = crate::search::strings_view(r@);
    match created_at {
        Some(c) => r.push(concat_str("创建 ", format_api_date(c))),
        None => {},
    }
    proof {
        let v = crate::search::strings_view(r@);
        if created_at is Some {
            assert(v.drop_last() =~= first);
        }
        assert(v =~= time_lines_of(
            match created_at {
                Some(c) => Some(c@),
                None => None,
            },
            match updated_at {
                Some(u) => Some(u@),
                None => None,
            },
        ));
    }
    r
}

/// Unix timestamps whose local date, in any time zone, falls in the years
/// 1..=9999 (about 5 AD to 9987 AD in UTC, with a day to spare either side).
pub open spec fn in_chrono_range(timestamp: i64) -> bool {
    -62_000_000_000 <= timestamp <= 253_000_000_000
}

/// A text of the shape `yyyy-MM-dd HH:mm`: sixteen characters, ASCII digits
/// but for the `-`, `-`, space and `:` between the fields.
pub open spec fn datetime_shape(t: Seq<char>) -> bool {
    &&& t.len() == 16
    &&& t[4] == '-' && t[7] == '-' && t[10] == ' ' && t[13] == ':'
    &&& forall|i: int|
        0 <= i < 16 && i != 4 && i != 7 && i != 10 && i != 13 ==> is_digit(#[trigger] t[i])
}

/// The ASCII digit of `n` (0..=9).
pub open spec fn digit_char(n: int) -> char {
    (('0' as int) + n) as char
}

/// `n` (0..=99) written with two digits.
pub open spec fn two_digits(n: int) -> Seq<char> {
    seq![digit_char(n / 10), digit_char(n % 10)]
}

/// `n` (0..=9999) written with four digits.
pub open spec fn four_digits(n: int) -> Seq<char> {
    seq![digit_char(n / 1000), digit_char(n / 100 % 10), digit_char(n / 10 % 10), digit_char(n % 10)]
}

/// The proleptic Gregorian date (year, month, day) of the day `days` after
/// 1970-01-01 (days counted in 400-year eras of 146 097 days, each year
/// starting on 1 March so that the leap day comes last).
pub open spec fn civil_from_days(days: int) -> (int, int, int) {
    let z = days + 719_468;
    let era = z / 146_097;
    let doe = z - era * 146_097;
    let yoe = (doe - doe / 1460 + doe / 36_524 - doe / 146_096) / 365;
    let doy = doe - (365 * yoe + yoe / 4 - yoe / 100);
    let mp = (5 * doy + 2) / 153;
    let d = doy - (153 * mp + 2) / 5 + 1;
    let m = if mp < 10 {
        mp + 3
    } else {
        mp - 9
    };
    let y = yoe + era * 400 + if m <= 2 {
        1int
    } else {
        0int
    };
    (y, m, d)
}

/// The date and time `yyyy-MM-dd HH:mm` of `secs` seconds after the Unix
/// epoch, on the clock whose offset is already added in.
pub open spec fn datetime_text(secs: int) -> Seq<char> {
    let days = secs / 86_400;
    let rem = secs % 86_400;
    let (y, m, d) = civil_from_days(days);
    four_digits(y) + seq!['-'] + two_digits(m) + seq!['-'] + two_digits(d) + seq![' '] + two_digits(
        rem / 3600,
    ) + seq![':'] + two_digits(rem % 3600 / 60)
}

/// The text is the date and time of `timestamp` on a clock some offset of
/// less than a day away from UTC (the machine's time zone).
pub open spec fn local_datetime_of(t: Seq<char>, timestamp: i64) -> bool {
    exists|off: int| -86_400 < off < 86_400 && t == #[trigger] datetime_text(timestamp + off)
}

/// The pattern a timestamp is written with: `%Y-%m-%d %H:%M`.
pub open spec fn datetime_pattern() -> Seq<char> {
    seq!['%', 'Y', '-', '%', 'm', '-', '%', 'd', ' ', '%', 'H', ':', '%', 'M']
}

/// `chrono::Local.timestamp_opt(timestamp, 0)`, written with `pattern`,
/// which is `%Y-%m-%d %H:%M` (a pattern chrono cannot read would make the
/// writing panic). chrono documents that `timestamp_opt` gives a single
/// time for every in-range number of seconds (`None` only out of range), and that `%Y` is
/// the year zero-padded to four digits (a sign only before 1 BCE or after
/// 9999), `%m`, `%d`, `%H`, `%M` two digits each; so for the timestamps of
/// `in_chrono_range` the text has the shape `yyyy-MM-dd HH:mm`. The local
/// time is UTC plus the zone's `FixedOffset`, which chrono keeps strictly
/// within a day either way; which offset the machine's time zone gives is
/// not stated.
#[verifier::external_body]
fn local_time_text(timestamp: i64, pattern: &str) -> (r: Option<String>)
    requires
        pattern@ == datetime_pattern(),
    ensures
        r is Some || !in_chrono_range(timestamp),
        r matches Some(t) ==> (in_chrono_range(timestamp) ==> datetime_shape(t@)),
        r matches Some(t) ==> (in_chrono_range(timestamp) ==> local_datetime_of(t@, timestamp)),
{
    match chrono::Local.timestamp_opt(timestamp, 0) {
        chrono::LocalResult::Single(dt) => Some(dt.format(pattern).to_string()),
        chrono::LocalResult::Ambiguous(_, _) => None,
        chrono::LocalResult::None => None,
    }
}

/// What a timestamp reads, given its local time written out (if any): a
/// zero timestamp, or one whose seconds chrono cannot place, reads "unknown
/// time".
pub fn timestamp_text(timestamp: i64, local: Option<String>) -> (r: String)
    ensures
        timestamp == 0 ==> r@ == "未知时间"@,
        timestamp != 0 ==> r@ == match local {
            Some(s) => s@,
            None => "未知时间"@,
        },
{
    if timestamp == 0 {
        return String::from_str("未知时间");
    }
    match local {
        Some(s) => s,
        None => String::from_str("未知时间"),
    }
}

/// A timestamp as a local date and time `yyyy-MM-dd HH:mm` (its date and
/// time on the machine's clock), or "unknown time" for zero (and for
/// seconds out of chrono's range).
pub fn format_timestamp(timestamp: i64) -> (r: String)
    ensures
        timestamp == 0 ==> r@ == "未知时间"@,
        timestamp != 0 && in_chrono_range(timestamp) ==> datetime_shape(r@) && r@ != "未知时间"@
            && local_datetime_of(r@, timestamp),
{
    if timestamp == 0 {
        return timestamp_text(timestamp, None);
    }
    let pattern = "%Y-%m-%d %H:%M";
    proof {
        reveal_strlit("%Y-%m-%d %H:%M");
        assert(pattern@ =~= datetime_pattern());
    }
    let local = local_time_text(timestamp, pattern);
    proof {
        reveal_strlit("未知时间");
    }
    timestamp_text(timestamp, local)
}

// ==================== context menu ====================

/// The episode count passed on with a download: only a positive one.
pub fn remote_episode_count(eps_count: i32) -> (r: Option<i32>)
    ensures
        r == if eps_count > 0 {
            Some(eps_count)
        } else {
            None::<i32>
        },
{
    if eps_count > 0 {
        Some(eps_count)
    } else {
        None
    }
}

/// "Block" in a card's menu: the comic's title joins the blocked keywords
/// unless it is empty or already there; says whether it joined.
pub fn block_title(keywords: &mut Vec<String>, title: &str) -> (added: bool)
    ensures
        added == (title@.len() > 0 && !crate::search::strings_view(old(keywords)@).contains(title@)),
        crate::search::strings_view(final(keywords)@) == if added {
            crate::search::strings_view(old(keywords)@).push(title@)
        } else {
            crate::search::strings_view(old(keywords)@)
        },
{
    if title.unicode_len() == 0 {
        return false;
    }
    let mut state = crate::settings::FilterSettingsState {
        blocked_keywords: Vec::new(),
        filter_by_category: false,
        filter_by_tag: false,
        filter_by_title: false,
        new_keyword: String::new(),
        show_suggestions: false,
    };
    std::mem::swap(&mut state.blocked_keywords, keywords);
    let added = state.add_suggestion(String::from_str(title));
    std::mem::swap(&mut state.blocked_keywords, keywords);
    added
}

} // verus!
