//! The profile page: what each of its fields reads for a loaded user, while
//! loading and after a failure, and what its buttons do.
use vstd::prelude::*;

use crate::text::{
    concat_str, i64_to_string, non_empty, signed_decimal, take_chars, trim, str_eq,
};

verus! {

/// The user shown on the profile page, as plain values.
pub struct ProfileUser {
    pub id: String,
    pub name: String,
    pub title: String,
    pub slogan: Option<String>,
    pub email: Option<String>,
    pub gender: String,
    pub level: i32,
    pub exp: i64,
    pub created_at: String,
    pub verified: Option<bool>,
    pub characters: Option<Vec<String>>,
    pub is_punched: Option<bool>,
}

/// The fields of the profile page.
#[derive(Clone, Copy, PartialEq, Eq, Structural, Debug)]
pub enum ProfileField {
    Name,
    Title,
    Slogan,
    Level,
    Exp,
    Gender,
    Email,
    CreatedAt,
    UserId,
    Verified,
    Characters,
    PunchIn,
}

/// The profile page's data.
pub struct UserProfileState {
    pub user: Option<ProfileUser>,
    pub is_loading: bool,
    pub error: Option<String>,
}

/// The experience needed for a level: 100 times its square.
pub open spec fn exp_needed(level: int) -> int {
    100 * level * level
}

/// The experience needed for a level.
pub fn exp_for_level(level: i32) -> (r: i64)
    requires
        exp_needed(level as int) <= i64::MAX,
    ensures
        r as int == exp_needed(level as int),
{
    let l = level as i64;
    proof {
        assert(0 <= l * l) by (nonlinear_arith);
        assert(100 * l * l == 100 * (l * l)) by (nonlinear_arith);
    }
    100 * (l * l)
}

/// How the gender code of a user reads.
pub open spec fn gender_label(g: Seq<char>) -> Seq<char> {
    if g == "m"@ {
        "♂ 男"@
    } else if g == "f"@ {
        "♀ 女"@
    } else if g == "bot"@ {
        "⚥ 扶她"@
    } else {
        "未设置"@
    }
}

/// How the gender code of a user reads.
pub fn gender_text(g: &str) -> (r: &'static str)
    ensures
        r@ == gender_label(g@),
{
    if str_eq(g, "m") {
        "♂ 男"
    } else if str_eq(g, "f") {
        "♀ 女"
    } else if str_eq(g, "bot") {
        "⚥ 扶她"
    } else {
        "未设置"
    }
}

/// An optional text that is present and not blank.
pub open spec fn filled(o: Option<String>) -> Option<Seq<char>> {
    match o {
        Some(s) => if trim(s@).len() > 0 {
            Some(s@)
        } else {
            None
        },
        None => None,
    }
}

/// The characters of a list joined by `、`.
pub open spec fn joined_names(v: Seq<String>) -> Seq<char>
    decreases v.len(),
{
    if v.len() == 0 {
        seq![]
    } else if v.len() == 1 {
        v[0]@
    } else {
        joined_names(v.drop_last()) + "、"@ + v.last()@
    }
}

/// Whether the user has signed in today, by the profile or by this session.
pub open spec fn punched(user: ProfileUser, session_punched: bool) -> bool {
    (user.is_punched == Some(true)) || session_punched
}

/// What a field of the page reads for a loaded user.
pub open spec fn field_text_of(user: ProfileUser, session_punched: bool, f: ProfileField) -> Seq<char> {
    match f {
        ProfileField::Name => if trim(user.name@).len() == 0 {
            "未知用户"@
        } else {
            user.name@
        },
        ProfileField::Title => if trim(user.title@).len() == 0 {
            "无称号"@
        } else {
            user.title@
        },
        ProfileField::Slogan => match filled(user.slogan) {
            Some(s) => s,
            None => "这个人很懒，什么都没写~"@,
        },
        ProfileField::Level => "Lv."@ + signed_decimal(user.level as int),
        ProfileField::Exp => signed_decimal(user.exp as int) + "/"@ + signed_decimal(
            exp_needed(user.level + 1),
        ),
        ProfileField::Gender => gender_label(user.gender@),
        ProfileField::Email => match filled(user.email) {
            Some(s) => s,
            None => "未绑定"@,
        },
        ProfileField::CreatedAt => if user.created_at@.len() == 0 {
            "--"@
        } else if user.created_at@.len() <= 10 {
            user.created_at@
        } else {
            user.created_at@.take(10)
        },
        ProfileField::UserId => if trim(user.id@).len() == 0 {
            "--"@
        } else {
            user.id@
        },
        ProfileField::Verified => match user.verified {
            Some(true) => "✓ 已认证"@,
            Some(false) => "✗ 未认证"@,
            None => "--"@,
        },
        ProfileField::Characters => match user.characters {
            Some(c) => if c@.len() > 0 {
                joined_names(c@)
            } else {
                "无"@
            },
            None => "无"@,
        },
        ProfileField::PunchIn => if punched(user, session_punched) {
            "✓ 今日已签到"@
        } else {
            "签到"@
        },
    }
}

/// The levels whose next level's experience can be computed.
pub open spec fn level_in_range(level: i32) -> bool {
    level < i32::MAX && exp_needed(level + 1) <= i64::MAX
}

fn filled_or(o: &Option<String>, fallback: &str) -> (r: String)
    ensures
        r@ == match filled(*o) {
            Some(s) => s,
            None => fallback@,
        },
{
    match o {
        Some(s) => if crate::text::is_blank(s.as_str()) {
            String::from_str(fallback)
        } else {
            String::from_str(s.as_str())
        },
        None => String::from_str(fallback),
    }
}

fn join_names(v: &Vec<String>) -> (r: String)
    ensures
        r@ == joined_names(v@),
{
    let mut r = String::new();
    let mut i: usize = 0;
    while i < v.len()
        invariant
            i <= v@.len(),
            r@ == joined_names(v@.take(i as int)),
        decreases v.len() - i,
    {
        proof {
            assert(v@.take(i + 1).drop_last() =~= v@.take(i as int));
            assert(v@.take(i + 1).last() == v@[i as int]);
        }
        if i == 0 {
            r = String::from_str(v[i].as_str());
            proof {
                assert(v@.take(1).len() == 1);
                assert(v@.take(1)[0] == v@[0]);
            }
        } else {
            let with_sep = concat_str(r.as_str(), "、");
            r = concat_str(with_sep.as_str(), v[i].as_str());
        }
        i = i + 1;
    }
    proof {
        assert(v@.take(v@.len() as int) =~= v@);
    }
    r
}

/// What a field of the page reads for a loaded user.
pub fn field_text(user: &ProfileUser, session_punched: bool, f: ProfileField) -> (r: String)
    requires
        level_in_range(user.level),
    ensures
        r@ == field_text_of(*user, session_punched, f),
{
    match f {
        ProfileField::Name => non_empty(user.name.as_str(), "未知用户"),
        ProfileField::Title => non_empty(user.title.as_str(), "无称号"),
        ProfileField::Slogan => filled_or(&user.slogan, "这个人很懒，什么都没写~"),
        ProfileField::Level => concat_str("Lv.", i64_to_string(user.level as i64).as_str()),
        ProfileField::Exp => {
            let next = exp_for_level(user.level + 1);
            let head = concat_str(i64_to_string(user.exp).as_str(), "/");
            concat_str(head.as_str(), i64_to_string(next).as_str())
        },
        ProfileField::Gender => String::from_str(gender_text(user.gender.as_str())),
        ProfileField::Email => filled_or(&user.email, "未绑定"),
        ProfileField::CreatedAt => if user.created_at.unicode_len() == 0 {
            String::from_str("--")
        } else {
            take_chars(user.created_at.as_str(), 10)
        },
        ProfileField::UserId => non_empty(user.id.as_str(), "--"),
        ProfileField::Verified => match user.verified {
            Some(true) => String::from_str("✓ 已认证"),
            Some(false) => String::from_str("✗ 未认证"),
            None => String::from_str("--"),
        },
        ProfileField::Characters => match &user.characters {
            Some(c) => if c.len() > 0 {
                join_names(c)
            } else {
                String::from_str("无")
            },
            None => String::from_str("无"),
        },
        ProfileField::PunchIn => {
            let p = match user.is_punched {
                Some(b) => b,
                None => false,
            } || session_punched;
            if p {
                String::from_str("✓ 今日已签到")
            } else {
                String::from_str("签到")
            }
        },
    }
}

/// What the page shows on a refresh.
pub enum ProfileScreen {
    /// Leave the fields as they are.
    Unchanged,
    /// The loading state: the name reads "loading", the other fields `--`,
    /// the sign-in button keeps its text.
    Loading,
    /// The failure state: the name reads the error, the other fields `--`.
    Failed(String),
    /// The user's fields.
    User,
}

/// The tag that marks the loading state as shown.
pub open spec fn loading_tag() -> Seq<char> {
    "__loading__"@
}

/// The tag that marks a failure as shown.
pub open spec fn error_tag(e: Seq<char>) -> Seq<char> {
    "__error__"@ + e
}

/// The tag that marks a user's fields as shown: name, level, experience and
/// this session's sign-in.
pub open spec fn user_tag(user: ProfileUser, session_punched: bool) -> Seq<char> {
    user.name@ + "_"@ + signed_decimal(user.level as int) + "_"@ + signed_decimal(user.exp as int)
        + "_"@ + (if session_punched {
        "true"@
    } else {
        "false"@
    })
}

/// The user tag of the page's state.
pub fn user_tag_of(user: &ProfileUser, session_punched: bool) -> (r: String)
    ensures
        r@ == user_tag(*user, session_punched),
{
    let a = concat_str(user.name.as_str(), "_");
    let b = concat_str(a.as_str(), i64_to_string(user.level as i64).as_str());
    let c = concat_str(b.as_str(), "_");
    let d = concat_str(c.as_str(), i64_to_string(user.exp).as_str());
    let e = concat_str(d.as_str(), "_");
    concat_str(
        e.as_str(),
        if session_punched {
            "true"
        } else {
            "false"
        },
    )
}

impl UserProfileState {
    /// What a refresh of the page shows, given the tag of what it shows now;
    /// gives the tag of what it shows next. While loading, a page that shows
    /// a user keeps showing it.
    pub fn refresh_profile_ui(&self, session_punched: bool, last_tag: &str) -> (r: (ProfileScreen, String))
        ensures
            self.is_loading ==> if last_tag@.len() == 0 || last_tag@ == loading_tag() {
                r.0 is Loading && r.1@ == loading_tag()
            } else {
                r.0 is Unchanged && r.1@ == last_tag@
            },
            !self.is_loading && self.error is Some ==> {
                let t = error_tag(self.error->0@);
                if last_tag@ != t {
                    (r.0 matches ProfileScreen::Failed(m) && m@ == "加载失败: "@ + self.error->0@)
                        && r.1@ == t
                } else {
                    r.0 is Unchanged && r.1@ == last_tag@
                }
            },
            !self.is_loading && self.error is None && self.user is None ==> r.0 is Unchanged
                && r.1@ == last_tag@,
            !self.is_loading && self.error is None && self.user is Some ==> {
                let t = user_tag(self.user->0, session_punched);
                if last_tag@ != t {
                    r.0 is User && r.1@ == t
                } else {
                    r.0 is Unchanged && r.1@ == last_tag@
                }
            },
    {
        if self.is_loading {
            if last_tag.unicode_len() == 0 || str_eq(last_tag, "__loading__") {
                return (ProfileScreen::Loading, String::from_str("__loading__"));
            }
            return (ProfileScreen::Unchanged, String::from_str(last_tag));
        }
        match &self.error {
            Some(e) => {
                let t = concat_str("__error__", e.as_str());
                if !str_eq(last_tag, t.as_str()) {
                    return (ProfileScreen::Failed(concat_str("加载失败: ", e.as_str())), t);
                }
                return (ProfileScreen::Unchanged, String::from_str(last_tag));
            },
            None => {},
        }
        match &self.user {
            None => (ProfileScreen::Unchanged, String::from_str(last_tag)),
            Some(u) => {
                let t = user_tag_of(u, session_punched);
                if !str_eq(last_tag, t.as_str()) {
                    (ProfileScreen::User, t)
                } else {
                    (ProfileScreen::Unchanged, String::from_str(last_tag))
                }
            },
        }
    }

    /// The refresh button: unless a load runs, the user is dropped and a
    /// load starts; says whether it started.
    pub fn begin_refresh(&mut self) -> (started: bool)
        ensures
            started == !old(self).is_loading,
            started ==> final(self).user is None && final(self).is_loading && final(self).error is None,
            !started ==> final(self).is_loading == old(self).is_loading && final(self).error
                == old(self).error,
    {
        if self.is_loading {
            return false;
        }
        self.user = None;
        self.is_loading = true;
        self.error = None;
        true
    }

    /// The profile arrived.
    pub fn handle_profile_loaded(&mut self, user: ProfileUser)
        ensures
            final(self).user == Some(user),
            !final(self).is_loading,
            final(self).error is None,
    {
        self.user = Some(user);
        self.is_loading = false;
        self.error = None;
    }

    /// Loading the profile failed.
    pub fn handle_profile_load_failed(&mut self, error: String)
        ensures
            !final(self).is_loading,
            final(self).error == Some(error),
            final(self).user == old(self).user,
    {
        self.is_loading = false;
        self.error = Some(error);
    }

    /// Whether the sign-in button sends a sign-in: not when the user, or
    /// this session, has signed in today.
    pub fn can_punch_in(&self, session_punched: bool) -> (r: bool)
        ensures
            r == !((self.user matches Some(u) && u.is_punched == Some(true)) || session_punched),
    {
        let user_punched = match &self.user {
            Some(u) => match u.is_punched {
                Some(b) => b,
                None => false,
            },
            None => false,
        };
        !(user_punched || session_punched)
    }
}

/// What a field reads in the loading state (`None`: it keeps its text).
pub fn loading_field_text(f: ProfileField) -> (r: Option<&'static str>)
    ensures
        f == ProfileField::Name ==> (r matches Some(t) && t@ == "加载中..."@),
        f == ProfileField::PunchIn ==> r is None,
        f != ProfileField::Name && f != ProfileField::PunchIn ==> (r matches Some(t) && t@ == "--"@),
{
    match f {
        ProfileField::Name => Some("加载中..."),
        ProfileField::PunchIn => None,
        _ => Some("--"),
    }
}

} // verus!
