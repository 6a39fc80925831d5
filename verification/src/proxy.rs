//! The proxy page reached from the login screen: its switches, the port box
//! that keeps only digits, and the proxy settings it saves.
use vstd::prelude::*;

use crate::settings::{parse_port_or, port_value};
use crate::text::{chars_of, input_display, is_digit, all_digits, push_char};

verus! {

/// The kinds of proxy.
#[derive(Clone, Copy, PartialEq, Eq, Structural, Debug)]
pub enum ProxyType {
    Http,
    Https,
    Socks5,
}

/// The label of a proxy kind's button.
pub open spec fn proxy_type_label_of(t: ProxyType) -> Seq<char> {
    match t {
        ProxyType::Http => "HTTP"@,
        ProxyType::Https => "HTTPS"@,
        ProxyType::Socks5 => "SOCKS5"@,
    }
}

impl ProxyType {
    /// The label of this kind's button.
    pub fn label(&self) -> (r: &'static str)
        ensures
            r@ == proxy_type_label_of(*self),
    {
        match self {
            ProxyType::Http => "HTTP",
            ProxyType::Https => "HTTPS",
            ProxyType::Socks5 => "SOCKS5",
        }
    }
}

/// The input boxes of the proxy page.
#[derive(Clone, Copy, PartialEq, Eq, Structural, Debug)]
pub enum ProxyFieldType {
    Host,
    Port,
    Username,
    Password,
}

/// What the proxy page edits.
pub struct ProxySettingsState {
    pub enabled: bool,
    pub proxy_type: ProxyType,
    pub host: String,
    /// The port box's text.
    pub port: String,
    pub use_auth: bool,
    pub username: String,
    pub password: String,
}

/// The proxy settings that are saved.
pub struct ProxyConfig {
    pub enabled: bool,
    pub proxy_type: ProxyType,
    pub host: String,
    pub port: u16,
    pub use_auth: bool,
    pub username: String,
    pub password: String,
}

/// The port saved when the proxy page's port box cannot be read.
pub const PROXY_PAGE_DEFAULT_PORT: u16 = 1080;

/// The text of an on/off switch.
pub open spec fn on_off_text(on: bool) -> Seq<char> {
    if on {
        "开启"@
    } else {
        "关闭"@
    }
}

/// The text of an on/off switch.
pub fn on_off_label(on: bool) -> (r: &'static str)
    ensures
        r@ == on_off_text(on),
{
    if on {
        "开启"
    } else {
        "关闭"
    }
}

// ==================== the port box ====================

/// The ASCII digits of a text, in order.
pub open spec fn ascii_digits(s: Seq<char>) -> Seq<char>
    decreases s.len(),
{
    if s.len() == 0 {
        s
    } else if is_digit(s.last()) {
        ascii_digits(s.drop_last()).push(s.last())
    } else {
        ascii_digits(s.drop_last())
    }
}

/// How many characters of a text are not ASCII digits.
pub open spec fn non_digit_count(s: Seq<char>) -> nat
    decreases s.len(),
{
    if s.len() == 0 {
        0
    } else if is_digit(s.last()) {
        non_digit_count(s.drop_last())
    } else {
        non_digit_count(s.drop_last()) + 1
    }
}

/// What the port box becomes after an edit: nothing to do when it holds only
/// digits; otherwise its digits, with the cursor moved back by the
/// characters dropped before it and kept within the text.
pub open spec fn port_filter(value: Seq<char>, cursor: int) -> Option<(Seq<char>, int)> {
    if all_digits(value) {
        None
    } else {
        let before = if cursor < value.len() {
            cursor
        } else {
            value.len() as int
        };
        let removed = non_digit_count(value.take(before));
        let back = if cursor >= removed {
            cursor - removed
        } else {
            0
        };
        let d = ascii_digits(value);
        Some((
            d,
            if back < d.len() {
                back
            } else {
                d.len() as int
            },
        ))
    }
}

proof fn lemma_digits_count(s: Seq<char>)
    ensures
        ascii_digits(s).len() + non_digit_count(s) == s.len(),
        non_digit_count(s) == 0 <==> all_digits(s),
    decreases s.len(),
{
    if s.len() > 0 {
        lemma_digits_count(s.drop_last());
        if all_digits(s.drop_last()) && is_digit(s.last()) {
            assert forall|i: int| 0 <= i < s.len() implies is_digit(#[trigger] s[i]) by {
                if i < s.len() - 1 {
                    assert(s[i] == s.drop_last()[i]);
                }
            }
        }
        if all_digits(s) {
            assert(is_digit(s[s.len() - 1]));
            assert forall|i: int| 0 <= i < s.len() - 1 implies is_digit(#[trigger] s.drop_last()[i]) by {
                assert(s[i] == s.drop_last()[i]);
            }
        }
    }
}

/// Keeps only the digits of the port box, moving the cursor with them;
/// `None` when the box already holds only digits.
pub fn port_digits_only(value: &str, cursor: usize) -> (r: Option<(String, usize)>)
    ensures
        match r {
            Some((d, c)) => port_filter(value@, cursor as int) == Some((d@, c as int)),
            None => port_filter(value@, cursor as int) is None,
        },
{
    let cs = chars_of(value);
    let n = cs.len();
    let mut digits = String::new();
    let mut removed: usize = 0;
    let mut i: usize = 0;
    while i < n
        invariant
            i <= n == cs@.len(),
            cs@ == value@,
            digits@ == ascii_digits(cs@.take(i as int)),
            removed as int == non_digit_count(cs@.take(if i < cursor { i as int } else { cursor as int })),
            removed <= i,
        decreases n - i,
    {
        let c = cs[i];
        proof {
            assert(cs@.take(i + 1).drop_last() =~= cs@.take(i as int));
            assert(cs@.take(i + 1).last() == c);
        }
        if '0' <= c && c <= '9' {
            push_char(&mut digits, c);
        } else if i < cursor {
            removed = removed + 1;
        }
        i = i + 1;
    }
    proof {
        assert(cs@.take(n as int) =~= cs@);
        lemma_digits_count(cs@);
    }
    let dn = digits.unicode_len();
    if dn == n {
        return None;
    }
    let back = if cursor >= removed {
        cursor - removed
    } else {
        0
    };
    let c = if back < dn {
        back
    } else {
        dn
    };
    Some((digits, c))
}

impl ProxySettingsState {
    /// The on/off switch of the proxy; gives the switch's new text.
    pub fn toggle_enabled(&mut self) -> (r: &'static str)
        ensures
            final(self).enabled == !old(self).enabled,
            r@ == on_off_text(final(self).enabled),
            final(self).use_auth == old(self).use_auth,
            final(self).proxy_type == old(self).proxy_type,
    {
        self.enabled = !self.enabled;
        on_off_label(self.enabled)
    }

    /// The on/off switch of proxy authentication; gives its new text.
    pub fn toggle_auth(&mut self) -> (r: &'static str)
        ensures
            final(self).use_auth == !old(self).use_auth,
            r@ == on_off_text(final(self).use_auth),
            final(self).enabled == old(self).enabled,
            final(self).proxy_type == old(self).proxy_type,
    {
        self.use_auth = !self.use_auth;
        on_off_label(self.use_auth)
    }

    /// A proxy kind button was pressed.
    pub fn choose_type(&mut self, t: ProxyType)
        ensures
            final(self).proxy_type == t,
            final(self).enabled == old(self).enabled,
            final(self).use_auth == old(self).use_auth,
    {
        self.proxy_type = t;
    }

    /// An input box changed to `value` with its cursor at `cursor`. The port
    /// box keeps only digits: the corrected text and cursor are given back
    /// for the box when it had others. The state takes the box's text.
    pub fn sync_field(&mut self, field: ProxyFieldType, value: &str, cursor: usize) -> (r: Option<(String, usize)>)
        ensures
            field == ProxyFieldType::Port ==> match r {
                Some((d, c)) => port_filter(value@, cursor as int) == Some((d@, c as int))
                    && final(self).port@ == d@,
                None => port_filter(value@, cursor as int) is None && final(self).port@ == value@,
            },
            field != ProxyFieldType::Port ==> r is None,
            field == ProxyFieldType::Host ==> final(self).host@ == value@,
            field != ProxyFieldType::Host ==> final(self).host@ == old(self).host@,
            field == ProxyFieldType::Username ==> final(self).username@ == value@,
            field != ProxyFieldType::Username ==> final(self).username@ == old(self).username@,
            field == ProxyFieldType::Password ==> final(self).password@ == value@,
            field != ProxyFieldType::Password ==> final(self).password@ == old(self).password@,
            field != ProxyFieldType::Port ==> final(self).port@ == old(self).port@,
            final(self).enabled == old(self).enabled,
            final(self).use_auth == old(self).use_auth,
            final(self).proxy_type == old(self).proxy_type,
    {
        match field {
            ProxyFieldType::Host => {
                self.host = String::from_str(value);
                None
            },
            ProxyFieldType::Port => {
                let fixed = port_digits_only(value, cursor);
                match fixed {
                    Some((d, c)) => {
                        self.port = String::from_str(d.as_str());
                        Some((d, c))
                    },
                    None => {
                        self.port = String::from_str(value);
                        None
                    },
                }
            },
            ProxyFieldType::Username => {
                self.username = String::from_str(value);
                None
            },
            ProxyFieldType::Password => {
                self.password = String::from_str(value);
                None
            },
        }
    }

    /// The settings saved by the save button.
    pub fn to_config(&self) -> (c: ProxyConfig)
        ensures
            c.enabled == self.enabled,
            c.proxy_type == self.proxy_type,
            c.host@ == self.host@,
            c.port as int == port_value(self.port@, PROXY_PAGE_DEFAULT_PORT),
            c.use_auth == self.use_auth,
            c.username@ == self.username@,
            c.password@ == self.password@,
    {
        ProxyConfig {
            enabled: self.enabled,
            proxy_type: self.proxy_type,
            host: String::from_str(self.host.as_str()),
            port: parse_port_or(self.port.as_str(), PROXY_PAGE_DEFAULT_PORT),
            use_auth: self.use_auth,
            username: String::from_str(self.username.as_str()),
            password: String::from_str(self.password.as_str()),
        }
    }
}

/// The hint of an empty input box of the proxy page.
pub open spec fn proxy_placeholder() -> Seq<char> {
    "点击输入..."@
}

/// What an input box of the proxy page shows, and whether it is the hint.
pub fn proxy_field_display(value: &str, password: bool) -> (r: (String, bool))
    ensures
        r.1 == (value@.len() == 0),
        r.0@ == if value@.len() == 0 {
            proxy_placeholder()
        } else {
            crate::text::masked(value@, password)
        },
{
    input_display(value, "点击输入...", password)
}

/// After the port box has been filtered, it holds only digits, and
/// filtering it again changes nothing.
pub proof fn lemma_port_filter_settles(value: Seq<char>, cursor: int)
    requires
        port_filter(value, cursor) is Some,
    ensures
        port_filter(value, cursor) matches Some((d, c)) && all_digits(d) && port_filter(d, c) is None,
{
    lemma_digits_only(value);
}

proof fn lemma_digits_only(s: Seq<char>)
    ensures
        all_digits(ascii_digits(s)),
    decreases s.len(),
{
    if s.len() > 0 {
        lemma_digits_only(s.drop_last());
        let p = ascii_digits(s.drop_last());
        if is_digit(s.last()) {
            assert forall|i: int| 0 <= i < p.len() + 1 implies is_digit(#[trigger] p.push(s.last())[i]) by {
                if i < p.len() {
                    assert(p.push(s.last())[i] == p[i]);
                }
            }
        }
    }
}

} // verus!
