//! The settings page: the blocked-keyword list, the download limits, the
//! proxy port box and the messages of the page's status bar.
use vstd::prelude::*;

use crate::search::strings_view;
use crate::text::{
    chars_of, concat_str, parse_u64_chars, parse_unsigned, str_eq, string_of, trim, trim_bounds,
    u64_to_string, decimal_digits,
};

verus! {

// ==================== blocked keywords ====================

/// The keyword list after removing every entry equal to `x` (what
/// `Vec::retain` with `k != x` leaves).
pub open spec fn remove_all(ks: Seq<Seq<char>>, x: Seq<char>) -> Seq<Seq<char>>
    decreases ks.len(),
{
    if ks.len() == 0 {
        ks
    } else if ks.last() == x {
        remove_all(ks.drop_last(), x)
    } else {
        remove_all(ks.drop_last(), x).push(ks.last())
    }
}

/// The keyword list after typing `input` and pressing Enter or "add": the
/// trimmed input is appended unless it is blank or already listed.
pub open spec fn add_keyword_to(ks: Seq<Seq<char>>, input: Seq<char>) -> Seq<Seq<char>> {
    let k = trim(input);
    if k.len() > 0 && !ks.contains(k) {
        ks.push(k)
    } else {
        ks
    }
}

/// No keyword is listed twice.
pub open spec fn no_repeats(ks: Seq<Seq<char>>) -> bool {
    forall|i: int, j: int| 0 <= i < j < ks.len() ==> ks[i] != ks[j]
}

/// The content-filter part of the settings.
pub struct FilterSettingsState {
    pub blocked_keywords: Vec<String>,
    pub filter_by_category: bool,
    pub filter_by_tag: bool,
    pub filter_by_title: bool,
    pub new_keyword: String,
    /// Whether the suggestion panel is open.
    pub show_suggestions: bool,
}

fn contains_str(v: &Vec<String>, x: &str) -> (r: bool)
    ensures
        r == strings_view(v@).contains(x@),
{
    let mut i: usize = 0;
    while i < v.len()
        invariant
            i <= v@.len(),
            forall|j: int| 0 <= j < i ==> (#[trigger] v@[j])@ != x@,
        decreases v.len() - i,
    {
        if str_eq(v[i].as_str(), x) {
            proof {
                assert(strings_view(v@)[i as int] == x@);
            }
            return true;
        }
        i = i + 1;
    }
    proof {
        if strings_view(v@).contains(x@) {
            let k = choose|k: int| 0 <= k < strings_view(v@).len() && strings_view(v@)[k] == x@;
            assert(v@[k]@ == x@);
        }
    }
    false
}

impl FilterSettingsState {
    /// The keyword input box changed: its text is kept as the new keyword.
    pub fn set_new_keyword(&mut self, value: &str)
        ensures
            final(self).new_keyword@ == value@,
            final(self).blocked_keywords@ == old(self).blocked_keywords@,
            final(self).filter_by_category == old(self).filter_by_category,
            final(self).filter_by_tag == old(self).filter_by_tag,
            final(self).filter_by_title == old(self).filter_by_title,
            final(self).show_suggestions == old(self).show_suggestions,
    {
        self.new_keyword = String::from_str(value);
    }

    /// Adds the trimmed `input` (the keyword box's text) to the blocked
    /// keywords unless it is blank or already there; says whether it was
    /// added, and then empties the new keyword.
    pub fn add_keyword(&mut self, input: &str) -> (added: bool)
        ensures
            strings_view(final(self).blocked_keywords@) == add_keyword_to(
                strings_view(old(self).blocked_keywords@),
                input@,
            ),
            added == (trim(input@).len() > 0 && !strings_view(old(self).blocked_keywords@).contains(
                trim(input@),
            )),
            final(self).filter_by_category == old(self).filter_by_category,
            final(self).filter_by_tag == old(self).filter_by_tag,
            final(self).filter_by_title == old(self).filter_by_title,
            final(self).show_suggestions == old(self).show_suggestions,
            added ==> final(self).new_keyword@.len() == 0,
            !added ==> final(self).new_keyword@ == old(self).new_keyword@,
    {
        let cs = chars_of(input);
        let (a, b) = trim_bounds(cs.as_slice(), 0, cs.len());
        proof {
            assert(cs@.subrange(0, cs@.len() as int) =~= cs@);
        }
        if a == b {
            return false;
        }
        let keyword = string_of(cs.as_slice(), a, b);
        if contains_str(&self.blocked_keywords, keyword.as_str()) {
            return false;
        }
        self.blocked_keywords.push(keyword);
        self.new_keyword = String::new();
        proof {
            assert(strings_view(self.blocked_keywords@) =~= strings_view(
                old(self).blocked_keywords@,
            ).push(trim(input@)));
        }
        true
    }

    /// A suggestion was picked: it is added as it is unless already listed.
    pub fn add_suggestion(&mut self, keyword: String) -> (added: bool)
        ensures
            added == !strings_view(old(self).blocked_keywords@).contains(keyword@),
            strings_view(final(self).blocked_keywords@) == if added {
                strings_view(old(self).blocked_keywords@).push(keyword@)
            } else {
                strings_view(old(self).blocked_keywords@)
            },
            final(self).filter_by_category == old(self).filter_by_category,
            final(self).filter_by_tag == old(self).filter_by_tag,
            final(self).filter_by_title == old(self).filter_by_title,
            final(self).new_keyword@ == old(self).new_keyword@,
    {
        if contains_str(&self.blocked_keywords, keyword.as_str()) {
            return false;
        }
        self.blocked_keywords.push(keyword);
        proof {
            assert(strings_view(self.blocked_keywords@) =~= strings_view(
                old(self).blocked_keywords@,
            ).push(keyword@));
        }
        true
    }

    /// The remove button of a keyword: every entry equal to it goes.
    pub fn remove_keyword(&mut self, keyword: &str)
        ensures
            strings_view(final(self).blocked_keywords@) == remove_all(
                strings_view(old(self).blocked_keywords@),
                keyword@,
            ),
            final(self).filter_by_category == old(self).filter_by_category,
            final(self).filter_by_tag == old(self).filter_by_tag,
            final(self).filter_by_title == old(self).filter_by_title,
            final(self).new_keyword@ == old(self).new_keyword@,
    {
        let mut kept: Vec<String> = Vec::new();
        let mut i: usize = 0;
        let ghost ks = strings_view(self.blocked_keywords@);
        while i < self.blocked_keywords.len()
            invariant
                i <= self.blocked_keywords@.len(),
                ks == strings_view(self.blocked_keywords@),
                strings_view(kept@) == remove_all(ks.take(i as int), keyword@),
            decreases self.blocked_keywords.len() - i,
        {
            proof {
                assert(ks.take(i + 1).drop_last() =~= ks.take(i as int));
                assert(ks.take(i + 1).last() == self.blocked_keywords@[i as int]@);
            }
            if !str_eq(self.blocked_keywords[i].as_str(), keyword) {
                let k = self.blocked_keywords[i].clone();
                kept.push(k);
                proof {
                    assert(strings_view(kept@) =~= remove_all(ks.take(i as int), keyword@).push(
                        ks[i as int],
                    ));
                }
            }
            i = i + 1;
        }
        proof {
            assert(ks.take(ks.len() as int) =~= ks);
        }
        self.blocked_keywords = kept;
    }

    /// Whether a suggested category or tag is already blocked (its button is
    /// then shown disabled).
    pub fn is_blocked(&self, keyword: &str) -> (r: bool)
        ensures
            r == strings_view(self.blocked_keywords@).contains(keyword@),
    {
        contains_str(&self.blocked_keywords, keyword)
    }

    /// Flips "block by category".
    pub fn toggle_filter_by_category(&mut self)
        ensures
            final(self).filter_by_category == !old(self).filter_by_category,
            final(self).filter_by_tag == old(self).filter_by_tag,
            final(self).filter_by_title == old(self).filter_by_title,
            final(self).blocked_keywords@ == old(self).blocked_keywords@,
    {
        self.filter_by_category = !self.filter_by_category;
    }

    /// Flips "block by tag".
    pub fn toggle_filter_by_tag(&mut self)
        ensures
            final(self).filter_by_tag == !old(self).filter_by_tag,
            final(self).filter_by_category == old(self).filter_by_category,
            final(self).filter_by_title == old(self).filter_by_title,
            final(self).blocked_keywords@ == old(self).blocked_keywords@,
    {
        self.filter_by_tag = !self.filter_by_tag;
    }

    /// Flips "block by title".
    pub fn toggle_filter_by_title(&mut self)
        ensures
            final(self).filter_by_title == !old(self).filter_by_title,
            final(self).filter_by_category == old(self).filter_by_category,
            final(self).filter_by_tag == old(self).filter_by_tag,
            final(self).blocked_keywords@ == old(self).blocked_keywords@,
    {
        self.filter_by_title = !self.filter_by_title;
    }

    /// Opens or closes the suggestion panel; says whether it is now open.
    pub fn toggle_suggestions(&mut self) -> (open: bool)
        ensures
            open == final(self).show_suggestions,
            final(self).show_suggestions == !old(self).show_suggestions,
            final(self).blocked_keywords@ == old(self).blocked_keywords@,
    {
        self.show_suggestions = !self.show_suggestions;
        self.show_suggestions
    }
}

proof fn lemma_remove_all_absent(ks: Seq<Seq<char>>, x: Seq<char>)
    requires
        !ks.contains(x),
    ensures
        remove_all(ks, x) == ks,
    decreases ks.len(),
{
    if ks.len() > 0 {
        assert(!ks.drop_last().contains(x)) by {
            if ks.drop_last().contains(x) {
                let k = choose|k: int| 0 <= k < ks.drop_last().len() && ks.drop_last()[k] == x;
                assert(ks[k] == x);
            }
        }
        assert(ks.last() != x) by {
            assert(ks[ks.len() - 1] == ks.last());
        }
        lemma_remove_all_absent(ks.drop_last(), x);
        assert(ks.drop_last().push(ks.last()) =~= ks);
    }
}

proof fn lemma_remove_all_subset(ks: Seq<Seq<char>>, x: Seq<char>)
    ensures
        !remove_all(ks, x).contains(x),
        forall|y: Seq<char>| #[trigger] remove_all(ks, x).contains(y) ==> ks.contains(y),
        no_repeats(ks) ==> no_repeats(remove_all(ks, x)),
    decreases ks.len(),
{
    if ks.len() > 0 {
        let p = ks.drop_last();
        lemma_remove_all_subset(p, x);
        let r = remove_all(ks, x);
        let rp = remove_all(p, x);
        assert forall|y: Seq<char>| #[trigger] rp.contains(y) implies ks.contains(y) by {
            let k = choose|k: int| 0 <= k < p.len() && p[k] == y;
            assert(ks[k] == y);
        }
        if no_repeats(ks) {
            assert(no_repeats(p)) by {
                assert forall|i: int, j: int| 0 <= i < j < p.len() implies p[i] != p[j] by {
                    assert(p[i] == ks[i] && p[j] == ks[j]);
                }
            }
        }
        if ks.last() != x {
            assert(r == rp.push(ks.last()));
            assert forall|y: Seq<char>| #[trigger] r.contains(y) implies ks.contains(y) by {
                let k = choose|k: int| 0 <= k < r.len() && r[k] == y;
                if k < rp.len() {
                    assert(rp[k] == y);
                    assert(rp.contains(y));
                } else {
                    assert(ks[ks.len() - 1] == y);
                }
            }
            assert(!r.contains(x)) by {
                if r.contains(x) {
                    let k = choose|k: int| 0 <= k < r.len() && r[k] == x;
                    if k < rp.len() {
                        assert(rp[k] == x);
                        assert(rp.contains(x));
                    }
                }
            }
            if no_repeats(ks) {
                assert forall|i: int, j: int| 0 <= i < j < r.len() implies r[i] != r[j] by {
                    if j == rp.len() {
                        // An entry kept from the front cannot equal the last one.
                        assert(r[i] == rp[i] && rp.contains(rp[i]));
                        if r[i] == r[j] {
                            let m = choose|m: int| 0 <= m < p.len() && p[m] == rp[i];
                            assert(ks[m] == ks[ks.len() - 1]);
                        }
                    } else {
                        assert(r[i] == rp[i] && r[j] == rp[j]);
                    }
                }
            }
        }
    }
}

/// Keywords added and removed through the page are never listed twice.
pub proof fn lemma_keyword_edits_keep_no_repeats(ks: Seq<Seq<char>>, input: Seq<char>, x: Seq<char>)
    requires
        no_repeats(ks),
    ensures
        no_repeats(add_keyword_to(ks, input)),
        no_repeats(remove_all(ks, x)),
{
    lemma_remove_all_subset(ks, x);
    let k = trim(input);
    if k.len() > 0 && !ks.contains(k) {
        let w = ks.push(k);
        assert forall|i: int, j: int| 0 <= i < j < w.len() implies w[i] != w[j] by {
            if j == ks.len() {
                assert(w[i] == ks[i]);
                if ks[i] == k {
                    assert(ks.contains(k));
                }
            } else {
                assert(w[i] == ks[i] && w[j] == ks[j]);
            }
        }
    }
}

/// Adding a keyword that is not listed, then removing it, gives back the
/// list; and a blank input adds nothing.
pub proof fn lemma_add_then_remove_restores(ks: Seq<Seq<char>>, input: Seq<char>)
    requires
        !ks.contains(trim(input)),
    ensures
        remove_all(add_keyword_to(ks, input), trim(input)) == ks,
        trim(input).len() == 0 ==> add_keyword_to(ks, input) == ks,
{
    let k = trim(input);
    lemma_remove_all_absent(ks, k);
    if k.len() > 0 {
        let w = ks.push(k);
        assert(w.drop_last() =~= ks);
        assert(w.last() == k);
    }
}

/// Adding the same input twice lists it once.
pub proof fn lemma_add_keyword_idempotent(ks: Seq<Seq<char>>, input: Seq<char>)
    ensures
        add_keyword_to(add_keyword_to(ks, input), input) == add_keyword_to(ks, input),
{
    let k = trim(input);
    if k.len() > 0 && !ks.contains(k) {
        let w = ks.push(k);
        assert(w[ks.len() as int] == k);
        assert(w.contains(k));
    }
}


// ==================== download limits ====================

/// The fewest downloads allowed at once.
pub const MIN_CONCURRENT_DOWNLOADS: usize = 1;

/// The most downloads allowed at once.
pub const MAX_CONCURRENT_DOWNLOADS: usize = 10;

/// The limit after one press of the plus button: one more, below the maximum.
pub open spec fn plus_press(v: int) -> int {
    if v < MAX_CONCURRENT_DOWNLOADS {
        v + 1
    } else {
        v
    }
}

/// The limit after one press of the minus button: one less, above the minimum.
pub open spec fn minus_press(v: int) -> int {
    if v > MIN_CONCURRENT_DOWNLOADS {
        v - 1
    } else {
        v
    }
}

/// The "at most N downloads at once" control.
pub struct MaxConcurrentDownloadsState {
    pub value: usize,
}

impl MaxConcurrentDownloadsState {
    /// The minus button: one less, never below the minimum. Gives the new
    /// value when it changed.
    pub fn decrease(&mut self) -> (r: Option<usize>)
        ensures
            final(self).value == minus_press(old(self).value as int),
            old(self).value > MIN_CONCURRENT_DOWNLOADS ==> final(self).value == old(self).value - 1
                && r == Some(final(self).value),
            old(self).value <= MIN_CONCURRENT_DOWNLOADS ==> final(self).value == old(self).value
                && r is None,
    {
        if self.value > MIN_CONCURRENT_DOWNLOADS {
            self.value = self.value - 1;
            Some(self.value)
        } else {
            None
        }
    }

    /// The plus button: one more, never above the maximum. Gives the new
    /// value when it changed.
    pub fn increase(&mut self) -> (r: Option<usize>)
        ensures
            final(self).value == plus_press(old(self).value as int),
            old(self).value < MAX_CONCURRENT_DOWNLOADS ==> final(self).value == old(self).value + 1
                && r == Some(final(self).value),
            old(self).value >= MAX_CONCURRENT_DOWNLOADS ==> final(self).value == old(self).value
                && r is None,
    {
        if self.value < MAX_CONCURRENT_DOWNLOADS {
            self.value = self.value + 1;
            Some(self.value)
        } else {
            None
        }
    }

    /// The number shown between the two buttons.
    pub fn label(&self) -> (r: String)
        ensures
            r@ == decimal_digits(self.value as nat),
    {
        u64_to_string(self.value as u64)
    }
}

/// The plus and minus buttons keep a limit that starts in range in range,
/// and minus undoes plus below the maximum.
pub proof fn lemma_download_limit_stays_in_range(v: int)
    requires
        MIN_CONCURRENT_DOWNLOADS <= v <= MAX_CONCURRENT_DOWNLOADS,
    ensures
        MIN_CONCURRENT_DOWNLOADS <= plus_press(v) <= MAX_CONCURRENT_DOWNLOADS,
        MIN_CONCURRENT_DOWNLOADS <= minus_press(v) <= MAX_CONCURRENT_DOWNLOADS,
        v < MAX_CONCURRENT_DOWNLOADS ==> minus_press(plus_press(v)) == v,
{
}

// ==================== ports ====================

/// The port a port box stands for: its number when it reads as a `u16`,
/// `default` otherwise.
pub open spec fn port_value(text: Seq<char>, default: u16) -> int {
    match parse_unsigned(text, u16::MAX as int) {
        Some(v) => v,
        None => default as int,
    }
}

/// The port to save for the text of a port box.
pub fn parse_port_or(text: &str, default: u16) -> (r: u16)
    ensures
        r as int == port_value(text@, default),
{
    let cs = chars_of(text);
    proof {
        assert(cs@.subrange(0, cs@.len() as int) =~= cs@);
    }
    match parse_u64_chars(cs.as_slice(), 0, cs.len()) {
        Some(v) => {
            if v <= 65535 {
                v as u16
            } else {
                default
            }
        },
        None => default,
    }
}

/// The port the settings page saves when its port box cannot be read.
pub const SETTINGS_DEFAULT_PORT: u16 = 7890;

// ==================== status bar ====================

/// What the status bar shows after an automatic save: the message, and
/// whether it is an error.
pub open spec fn save_status_of(result: Result<(), String>) -> (Seq<char>, bool) {
    match result {
        Ok(_) => ("设置已保存"@, false),
        Err(e) => ("保存失败: "@ + e@, true),
    }
}

/// The status bar's message after an automatic save.
pub fn save_status_message(result: Result<(), String>) -> (r: (String, bool))
    ensures
        (r.0@, r.1) == save_status_of(result),
{
    match result {
        Ok(_) => (String::from_str("设置已保存"), false),
        Err(e) => (concat_str("保存失败: ", e.as_str()), true),
    }
}

/// Whether settings are saved on this frame: something changed and it is
/// not the first change, which only comes from opening the page. The second
/// result is whether the first change has now been seen.
pub fn auto_save_settings(any_changed: bool, initialized: bool) -> (r: (bool, bool))
    ensures
        r.0 == (any_changed && initialized),
        r.1 == (initialized || any_changed),
{
    if !any_changed {
        return (false, initialized);
    }
    if !initialized {
        return (false, true);
    }
    (true, true)
}

/// Whether a successful save has to rebuild the network client: the
/// channels, the proxy or the advanced network options changed.
pub fn needs_client_reload(channel_changed: bool, proxy_changed: bool, network_changed: bool) -> (r: bool)
    ensures
        r == (channel_changed || proxy_changed || network_changed),
{
    channel_changed || proxy_changed || network_changed
}

// ==================== update check ====================

/// What the update line says, or `None` when nothing is known yet.
pub open spec fn update_status_of(
    is_checking: bool,
    error: Option<Seq<char>>,
    has_update: Option<bool>,
    latest_version: Option<Seq<char>>,
) -> Option<Seq<char>> {
    if is_checking {
        Some("正在检查更新..."@)
    } else if error is Some {
        Some("检查失败: "@ + error->0)
    } else if has_update == Some(true) {
        Some(
            "发现新版本 v"@ + (match latest_version {
                Some(v) => v,
                None => "未知"@,
            }) + "！"@,
        )
    } else if has_update == Some(false) {
        Some("已是最新版本"@)
    } else {
        None
    }
}

/// The optional texts of a list as optional character sequences.
pub open spec fn opt_view(o: Option<String>) -> Option<Seq<char>> {
    match o {
        Some(s) => Some(s@),
        None => None,
    }
}

/// The update line's text.
pub fn refresh_update_status(
    is_checking: bool,
    error: &Option<String>,
    has_update: Option<bool>,
    latest_version: &Option<String>,
) -> (r: Option<String>)
    ensures
        opt_view(r) == update_status_of(is_checking, opt_view(*error), has_update, opt_view(
            *latest_version,
        )),
{
    if is_checking {
        return Some(String::from_str("正在检查更新..."));
    }
    match error {
        Some(e) => {
            return Some(concat_str("检查失败: ", e.as_str()));
        },
        None => {},
    }
    match has_update {
        Some(true) => {
            let v = match latest_version {
                Some(v) => v.as_str(),
                None => "未知",
            };
            let head = concat_str("发现新版本 v", v);
            let r = concat_str(head.as_str(), "！");
            Some(r)
        },
        Some(false) => Some(String::from_str("已是最新版本")),
        None => None,
    }
}

/// The "go to download" button shows only when a newer version was found
/// and its address is known.
pub fn show_release_button(has_update: Option<bool>, has_download_url: bool) -> (r: bool)
    ensures
        r == (has_update == Some(true) && has_download_url),
{
    match has_update {
        Some(true) => has_download_url,
        _ => false,
    }
}

// ==================== network test ====================

/// How the network test line is coloured.
#[derive(Clone, Copy, PartialEq, Eq, Structural, Debug)]
pub enum DiagTone {
    Error,
    Busy,
    Done,
}

/// The parts of the network test line, in order.
pub open spec fn diag_parts(
    testing_speed: bool,
    speed_text: Option<Seq<char>>,
    testing_ping: bool,
    latency_ms: Option<u64>,
    error: Option<Seq<char>>,
) -> Seq<Seq<char>> {
    let a: Seq<Seq<char>> = if testing_speed {
        seq!["正在测速..."@]
    } else if speed_text is Some {
        seq![speed_text->0]
    } else {
        seq![]
    };
    let b: Seq<Seq<char>> = if testing_ping {
        seq!["正在 Ping..."@]
    } else if latency_ms is Some {
        seq!["延迟: "@ + decimal_digits(latency_ms->0 as nat) + " ms"@]
    } else {
        seq![]
    };
    let c: Seq<Seq<char>> = if error is Some {
        seq!["错误: "@ + error->0]
    } else {
        seq![]
    };
    a + b + c
}

/// The parts joined by `  |  `.
pub open spec fn joined(parts: Seq<Seq<char>>) -> Seq<char>
    decreases parts.len(),
{
    if parts.len() == 0 {
        seq![]
    } else if parts.len() == 1 {
        parts[0]
    } else {
        joined(parts.drop_last()) + "  |  "@ + parts.last()
    }
}

/// The network test line: its parts joined, or a hint when there is none;
/// and its tone.
pub open spec fn diag_line(
    testing_speed: bool,
    speed_text: Option<Seq<char>>,
    testing_ping: bool,
    latency_ms: Option<u64>,
    error: Option<Seq<char>>,
) -> Seq<char> {
    let parts = diag_parts(testing_speed, speed_text, testing_ping, latency_ms, error);
    if parts.len() == 0 {
        "点击按钮开始测试"@
    } else {
        joined(parts)
    }
}

fn push_part(parts: &mut Vec<String>, line: &mut String, part: String)
    ensures
        strings_view(final(parts)@) == strings_view(old(parts)@).push(part@),
        old(parts)@.len() == 0 ==> final(line)@ == part@,
        old(parts)@.len() > 0 ==> final(line)@ == old(line)@ + "  |  "@ + part@,
{
    if parts.len() == 0 {
        *line = String::from_str(part.as_str());
    } else {
        let with_sep = concat_str(line.as_str(), "  |  ");
        *line = concat_str(with_sep.as_str(), part.as_str());
    }
    parts.push(part);
    proof {
        assert(strings_view(final(parts)@) =~= strings_view(old(parts)@).push(part@));
    }
}

/// The network test line and its tone. The download speed comes already
/// written out, as it is measured in fractions.
pub fn update_network_diag_result(
    testing_speed: bool,
    speed_text: Option<String>,
    testing_ping: bool,
    latency_ms: Option<u64>,
    error: Option<String>,
) -> (r: (String, DiagTone))
    ensures
        r.0@ == diag_line(testing_speed, opt_view(speed_text), testing_ping, latency_ms, opt_view(
            error,
        )),
        r.1 == if error is Some {
            DiagTone::Error
        } else if testing_speed || testing_ping {
            DiagTone::Busy
        } else {
            DiagTone::Done
        },
{
    let ghost sv = opt_view(speed_text);
    let ghost ev = opt_view(error);
    let mut parts: Vec<String> = Vec::new();
    let mut line = String::new();
    let ghost a: Seq<Seq<char>> = if testing_speed {
        seq!["正在测速..."@]
    } else if sv is Some {
        seq![sv->0]
    } else {
        seq![]
    };
    if testing_speed {
        push_part(&mut parts, &mut line, String::from_str("正在测速..."));
    } else {
        match speed_text {
            Some(t) => push_part(&mut parts, &mut line, t),
            None => {},
        }
    }
    proof {
        assert(strings_view(parts@) =~= a);
        assert(parts@.len() > 0 ==> line@ == joined(strings_view(parts@)));
    }
    let ghost p1 = strings_view(parts@);
    if testing_ping {
        push_part(&mut parts, &mut line, String::from_str("正在 Ping..."));
    } else {
        match latency_ms {
            Some(ms) => {
                let head = concat_str("延迟: ", u64_to_string(ms).as_str());
                push_part(&mut parts, &mut line, concat_str(head.as_str(), " ms"));
            },
            None => {},
        }
    }
    proof {
        let q = strings_view(parts@);
        if q.len() > p1.len() {
            assert(q.drop_last() =~= p1);
        }
        assert(parts@.len() > 0 ==> line@ == joined(strings_view(parts@)));
    }
    let ghost p2 = strings_view(parts@);
    let tone = match &error {
        Some(_) => DiagTone::Error,
        None => if testing_speed || testing_ping {
            DiagTone::Busy
        } else {
            DiagTone::Done
        },
    };
    match error {
        Some(e) => push_part(&mut parts, &mut line, concat_str("错误: ", e.as_str())),
        None => {},
    }
    proof {
        let q = strings_view(parts@);
        if q.len() > p2.len() {
            assert(q.drop_last() =~= p2);
        }
        assert(q =~= diag_parts(testing_speed, sv, testing_ping, latency_ms, ev));
    }
    if parts.len() == 0 {
        return (String::from_str("点击按钮开始测试"), tone);
    }
    (line, tone)
}

// ==================== timings ====================

/// The hint under the timings list.
pub open spec fn profiling_hint_of(compiled_in: bool, running: bool, switched_on: bool) -> Seq<char> {
    if !compiled_in {
        "本次构建未编入耗时 span，需 --features profiling 重新构建"@
    } else if running {
        "统计中，点击查看上次刷新之后的累计"@
    } else if switched_on {
        "已打开，重启后开始统计"@
    } else {
        "未启用"@
    }
}

/// The hint under the timings list: whether timing spans were built in,
/// whether they are being counted now, and whether the switch is on.
pub fn profiling_hint_text(compiled_in: bool, running: bool, switched_on: bool) -> (r: String)
    ensures
        r@ == profiling_hint_of(compiled_in, running, switched_on),
{
    if !compiled_in {
        String::from_str("本次构建未编入耗时 span，需 --features profiling 重新构建")
    } else if running {
        String::from_str("统计中，点击查看上次刷新之后的累计")
    } else if switched_on {
        String::from_str("已打开，重启后开始统计")
    } else {
        String::from_str("未启用")
    }
}


/// The pieces of a path between its `::` separators, matched from the left
/// without overlap (what `str::split("::")` gives).
pub open spec fn split_path(s: Seq<char>) -> Seq<Seq<char>>
    decreases s.len(),
{
    if s.len() < 2 {
        seq![s]
    } else if s[0] == ':' && s[1] == ':' {
        seq![Seq::<char>::empty()] + split_path(s.skip(2))
    } else {
        let r = split_path(s.skip(1));
        r.update(0, seq![s[0]] + r[0])
    }
}

proof fn lemma_split_path_nonempty(s: Seq<char>)
    ensures
        split_path(s).len() >= 1,
    decreases s.len(),
{
    if s.len() >= 2 {
        if s[0] == ':' && s[1] == ':' {
            lemma_split_path_nonempty(s.skip(2));
        } else {
            lemma_split_path_nonempty(s.skip(1));
        }
    }
}

/// `r` with `c` put in front of its first piece.
pub open spec fn prepend_first(c: Seq<char>, r: Seq<Seq<char>>) -> Seq<Seq<char>> {
    r.update(0, c + r[0])
}

/// The name of a timed system as listed: its last two path pieces joined by
/// `::`, or the whole name when it has no `::`.
pub open spec fn short_name_of(full: Seq<char>) -> Seq<char> {
    let parts = split_path(full);
    if parts.len() >= 2 {
        parts[parts.len() - 2] + "::"@ + parts[parts.len() - 1]
    } else {
        full
    }
}

fn split_path_exec(s: &[char]) -> (r: Vec<Vec<char>>)
    ensures
        crate::text::char_vecs_view(r@) == split_path(s@),
{
    let n = s.len();
    let mut parts: Vec<Vec<char>> = Vec::new();
    let mut cur: Vec<char> = Vec::new();
    let mut i: usize = 0;
    proof {
        lemma_split_path_nonempty(s@);
        assert(s@.skip(0) =~= s@);
        assert(prepend_first(Seq::<char>::empty(), split_path(s@)) =~= split_path(s@));
    }
    while i < n
        invariant
            i <= n == s@.len(),
            split_path(s@) == crate::text::char_vecs_view(parts@) + prepend_first(
                cur@,
                split_path(s@.skip(i as int)),
            ),
        decreases n - i,
    {
        let ghost rest = s@.skip(i as int);
        let ghost before = crate::text::char_vecs_view(parts@);
        if i + 1 < n && s[i] == ':' && s[i + 1] == ':' {
            proof {
                assert(rest[0] == ':' && rest[1] == ':');
                assert(rest.skip(2) =~= s@.skip(i + 2));
                let x = split_path(s@.skip(i + 2));
                lemma_split_path_nonempty(s@.skip(i + 2));
                assert(split_path(rest) == seq![Seq::<char>::empty()] + x);
                assert(prepend_first(cur@, split_path(rest)) =~= seq![cur@] + x);
                assert(prepend_first(Seq::<char>::empty(), x) =~= x);
            }
            let done = cur;
            parts.push(done);
            cur = Vec::new();
            proof {
                assert(crate::text::char_vecs_view(parts@) =~= before.push(done@));
                assert(before + (seq![done@] + split_path(s@.skip(i + 2))) =~= before.push(done@)
                    + split_path(s@.skip(i + 2)));
            }
            i = i + 2;
        } else {
            let c = s[i];
            proof {
                assert(rest.skip(1) =~= s@.skip(i + 1));
                let r = split_path(s@.skip(i + 1));
                lemma_split_path_nonempty(s@.skip(i + 1));
                if rest.len() < 2 {
                    assert(rest =~= seq![c]);
                    assert(s@.skip(i + 1) =~= Seq::<char>::empty());
                    assert(r == seq![Seq::<char>::empty()]);
                    assert(cur@ + rest =~= cur@.push(c) + Seq::<char>::empty());
                    assert(prepend_first(cur@, split_path(rest)) =~= prepend_first(
                        cur@.push(c),
                        r,
                    ));
                } else {
                    assert(!(rest[0] == ':' && rest[1] == ':'));
                    assert(split_path(rest) == r.update(0, seq![c] + r[0]));
                    assert(cur@ + (seq![c] + r[0]) =~= cur@.push(c) + r[0]);
                    assert(prepend_first(cur@, split_path(rest)) =~= prepend_first(
                        cur@.push(c),
                        r,
                    ));
                }
            }
            cur.push(c);
            i = i + 1;
        }
    }
    proof {
        assert(s@.skip(n as int) =~= Seq::<char>::empty());
        assert(prepend_first(cur@, split_path(Seq::<char>::empty())) =~= seq![cur@]);
    }
    let last = cur;
    let ghost before = crate::text::char_vecs_view(parts@);
    parts.push(last);
    proof {
        assert(crate::text::char_vecs_view(parts@) =~= before.push(last@));
    }
    parts
}

/// The name of a timed system as listed in the timings table.
pub fn short_system_name(full: &str) -> (r: String)
    ensures
        r@ == short_name_of(full@),
{
    let cs = chars_of(full);
    let parts = split_path_exec(cs.as_slice());
    let n = parts.len();
    if n >= 2 {
        let a = &parts[n - 2];
        let b = &parts[n - 1];
        proof {
            assert(a@.subrange(0, a@.len() as int) =~= a@);
            assert(b@.subrange(0, b@.len() as int) =~= b@);
        }
        let sa = string_of(a.as_slice(), 0, a.len());
        let sb = string_of(b.as_slice(), 0, b.len());
        let head = concat_str(sa.as_str(), "::");
        concat_str(head.as_str(), sb.as_str())
    } else {
        String::from_str(full)
    }
}


// ==================== choices and switches ====================

/// The colour themes.
#[derive(Clone, Copy, PartialEq, Eq, Structural, Debug)]
pub enum ThemeMode {
    Light,
    Dark,
    Auto,
}

/// The interface languages.
#[derive(Clone, Copy, PartialEq, Eq, Structural, Debug)]
pub enum Language {
    ZhCN,
    ZhTW,
    En,
}

/// The log levels.
#[derive(Clone, Copy, PartialEq, Eq, Structural, Debug)]
pub enum LogLevel {
    Error,
    Warn,
    Info,
    Debug,
    Trace,
}

/// The option groups and switches of the settings page that hold no text.
pub struct SettingsChoices {
    pub theme: ThemeMode,
    pub language: Language,
    pub close_behavior: crate::window::CloseBehavior,
    pub log_level: LogLevel,
    pub auto_resume: bool,
    pub exit_after_all_done: bool,
    pub auto_pack_cbz: bool,
    pub delete_images_after_cbz: bool,
    pub sni_pretend: bool,
    pub prefer_ipv6: bool,
}

/// The notice shown after a theme or language change, which takes effect on
/// restart: `what` names the setting, `name` the new choice.
pub fn restart_notice(what: &str, name: &str) -> (r: String)
    ensures
        r@ == what@ + "已切换为「"@ + name@ + "」，重启应用后生效"@,
{
    let a = concat_str(what, "已切换为「");
    let b = concat_str(a.as_str(), name);
    concat_str(b.as_str(), "」，重启应用后生效")
}

/// The setting name used in the theme notice.
pub open spec fn theme_word() -> Seq<char> {
    "主题"@
}

/// The setting name used in the language notice.
pub open spec fn language_word() -> Seq<char> {
    "语言"@
}

impl SettingsChoices {
    /// A theme button: only a different theme is taken; says whether it was.
    pub fn choose_theme(&mut self, t: ThemeMode) -> (changed: bool)
        ensures
            changed == (t != old(self).theme),
            final(self).theme == t,
            final(self).language == old(self).language,
            final(self).close_behavior == old(self).close_behavior,
            final(self).log_level == old(self).log_level,
    {
        let changed = self.theme != t;
        self.theme = t;
        changed
    }

    /// A language button: only a different language is taken.
    pub fn choose_language(&mut self, l: Language) -> (changed: bool)
        ensures
            changed == (l != old(self).language),
            final(self).language == l,
            final(self).theme == old(self).theme,
            final(self).close_behavior == old(self).close_behavior,
            final(self).log_level == old(self).log_level,
    {
        let changed = self.language != l;
        self.language = l;
        changed
    }

    /// A close-behaviour button: only a different behaviour is taken.
    pub fn choose_close_behavior(&mut self, b: crate::window::CloseBehavior) -> (changed: bool)
        ensures
            changed == (b != old(self).close_behavior),
            final(self).close_behavior == b,
            final(self).theme == old(self).theme,
            final(self).language == old(self).language,
            final(self).log_level == old(self).log_level,
    {
        let changed = self.close_behavior != b;
        self.close_behavior = b;
        changed
    }

    /// A log-level button: only a different level is taken.
    pub fn choose_log_level(&mut self, l: LogLevel) -> (changed: bool)
        ensures
            changed == (l != old(self).log_level),
            final(self).log_level == l,
            final(self).theme == old(self).theme,
            final(self).language == old(self).language,
            final(self).close_behavior == old(self).close_behavior,
    {
        let changed = self.log_level != l;
        self.log_level = l;
        changed
    }
}


/// The hint under the timings list after "refresh": no rows since the last
/// refresh, or how many rows were listed (and written to the log).
pub fn timings_hint(rows: usize) -> (r: String)
    ensures
        rows == 0 ==> r@ == "本区间无数据（刚刷新过？让它跑一会儿再点）"@,
        rows > 0 ==> r@ == "上次刷新之后的累计（Top "@ + decimal_digits(rows as nat) + "），已追加到日志"@,
{
    if rows == 0 {
        String::from_str("本区间无数据（刚刷新过？让它跑一会儿再点）")
    } else {
        let a = concat_str("上次刷新之后的累计（Top ", u64_to_string(rows as u64).as_str());
        concat_str(a.as_str(), "），已追加到日志")
    }
}


proof fn lemma_decimal_digits_nonempty(n: nat)
    ensures
        decimal_digits(n).len() >= 1,
    decreases n,
{
    if n >= 10 {
        lemma_decimal_digits_nonempty(n / 10);
    }
}

/// What the settings page's proxy host box shows, and whether it is the
/// hint `127.0.0.1` (shown while no host is set).
pub fn proxy_host_display(host: &str) -> (r: (String, bool))
    ensures
        r.1 == (host@.len() == 0),
        r.0@ == if host@.len() == 0 {
            "127.0.0.1"@
        } else {
            host@
        },
{
    crate::text::input_display(host, "127.0.0.1", false)
}

/// What the settings page's proxy port box shows: the saved port, written
/// out (the hint `7890` would show only for an empty text, which a port
/// never gives).
pub fn proxy_port_display(port: u16) -> (r: (String, bool))
    ensures
        !r.1,
        r.0@ == decimal_digits(port as nat),
{
    let text = u64_to_string(port as u64);
    proof {
        lemma_decimal_digits_nonempty(port as nat);
    }
    crate::text::input_display(text.as_str(), "7890", false)
}

/// The limit after `n` presses of the plus button from `v`.
pub open spec fn after_increases(v: int, n: nat) -> int
    decreases n,
{
    if n == 0 {
        v
    } else {
        plus_press(after_increases(v, (n - 1) as nat))
    }
}

/// The limit after `n` presses of the minus button from `v`.
pub open spec fn after_decreases(v: int, n: nat) -> int
    decreases n,
{
    if n == 0 {
        v
    } else {
        minus_press(after_decreases(v, (n - 1) as nat))
    }
}

/// From a limit in 1..=10, `n` presses of plus give `min(v + n, 10)` and `n`
/// presses of minus give `max(v - n, 1)`, so the limit stays in 1..=10.
pub proof fn lemma_download_limit_after_presses(v: int, n: nat)
    requires
        MIN_CONCURRENT_DOWNLOADS <= v <= MAX_CONCURRENT_DOWNLOADS,
    ensures
        after_increases(v, n) == if v + n <= MAX_CONCURRENT_DOWNLOADS {
            v + n
        } else {
            MAX_CONCURRENT_DOWNLOADS as int
        },
        after_decreases(v, n) == if v - n >= MIN_CONCURRENT_DOWNLOADS {
            v - n
        } else {
            MIN_CONCURRENT_DOWNLOADS as int
        },
    decreases n,
{
    if n > 0 {
        lemma_download_limit_after_presses(v, (n - 1) as nat);
    }
}

} // verus!
