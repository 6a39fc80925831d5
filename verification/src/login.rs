//! The login form: its fields and check boxes, the login request it sends,
//! and the login settings it keeps.
use vstd::prelude::*;

use crate::routes::AppRoute;

verus! {

/// The input boxes of the login form.
#[derive(Clone, Copy, PartialEq, Eq, Structural, Debug)]
pub enum LoginInputType {
    Email,
    Password,
}

/// The check boxes of the login form.
#[derive(Clone, Copy, PartialEq, Eq, Structural, Debug)]
pub enum LoginCheckboxType {
    SavePassword,
    AutoLogin,
    AutoPunchIn,
}

/// The login form.
pub struct LoginFormState {
    pub email: String,
    pub password: String,
    pub save_password: bool,
    pub auto_login: bool,
    pub auto_punch_in: bool,
    pub error: Option<String>,
    pub is_loading: bool,
}

/// What is sent to log in.
pub struct LoginRequest {
    pub email: String,
    pub password: String,
}

/// The login settings kept between runs.
pub struct LoginSettings {
    pub save_password: bool,
    pub auto_login: bool,
    pub auto_punch_in: bool,
    pub saved_email: String,
    pub saved_password: String,
}

/// The message shown when a field is left empty.
pub open spec fn missing_credentials_text() -> Seq<char> {
    "请输入用户名和密码"@
}

/// What Enter does on the login page.
pub enum LoginEnter {
    /// The proxy button has the focus: go to the proxy page.
    Navigate(AppRoute),
    /// Anywhere else: the form is submitted.
    Submitted(Option<LoginRequest>),
}

/// The three check boxes (save password, automatic login, automatic
/// sign-in) after one of them is pressed: it flips, and turning on automatic
/// login also turns on saving the password.
pub open spec fn boxes_after(b: (bool, bool, bool), kind: LoginCheckboxType) -> (bool, bool, bool) {
    match kind {
        LoginCheckboxType::SavePassword => (!b.0, b.1, b.2),
        LoginCheckboxType::AutoLogin => (b.0 || !b.1, !b.1, b.2),
        LoginCheckboxType::AutoPunchIn => (b.0, b.1, !b.2),
    }
}

impl LoginFormState {
    /// The login button (or Enter): with both fields filled, loading starts,
    /// the error goes and the request is given; otherwise an error shows.
    pub fn submit(&mut self) -> (r: Option<LoginRequest>)
        ensures
            final(self).email@ == old(self).email@,
            final(self).password@ == old(self).password@,
            final(self).save_password == old(self).save_password,
            final(self).auto_login == old(self).auto_login,
            final(self).auto_punch_in == old(self).auto_punch_in,
            old(self).email@.len() == 0 || old(self).password@.len() == 0 ==> {
                &&& r is None
                &&& (final(self).error matches Some(m) && m@ == missing_credentials_text())
                &&& final(self).is_loading == old(self).is_loading
            },
            old(self).email@.len() > 0 && old(self).password@.len() > 0 ==> {
                &&& (r matches Some(req) && req.email@ == old(self).email@ && req.password@ == old(
                    self,
                ).password@)
                &&& final(self).is_loading
                &&& final(self).error is None
            },
    {
        if self.email.unicode_len() == 0 || self.password.unicode_len() == 0 {
            self.error = Some(String::from_str("请输入用户名和密码"));
            return None;
        }
        self.is_loading = true;
        self.error = None;
        Some(
            LoginRequest {
                email: String::from_str(self.email.as_str()),
                password: String::from_str(self.password.as_str()),
            },
        )
    }

    /// Enter on the login page: with the proxy settings button focused it
    /// opens the proxy settings and leaves the form as it was; otherwise it
    /// submits the form as the login button does.
    pub fn enter_pressed(&mut self, focus_on_proxy_button: bool) -> (r: LoginEnter)
        ensures
            focus_on_proxy_button ==> (r matches LoginEnter::Navigate(route) && route
                == AppRoute::ProxySettings) && final(self).error == old(self).error
                && final(self).is_loading == old(self).is_loading,
            !focus_on_proxy_button && (old(self).email@.len() == 0 || old(self).password@.len() == 0)
                ==> {
                &&& (r matches LoginEnter::Submitted(x) && x is None)
                &&& (final(self).error matches Some(m) && m@ == missing_credentials_text())
                &&& final(self).is_loading == old(self).is_loading
            },
            !focus_on_proxy_button && old(self).email@.len() > 0 && old(self).password@.len() > 0
                ==> {
                &&& (r matches LoginEnter::Submitted(Some(req)) && req.email@ == old(self).email@
                    && req.password@ == old(self).password@)
                &&& final(self).is_loading
                &&& final(self).error is None
            },
            final(self).email@ == old(self).email@,
            final(self).password@ == old(self).password@,
            final(self).save_password == old(self).save_password,
            final(self).auto_login == old(self).auto_login,
            final(self).auto_punch_in == old(self).auto_punch_in,
    {
        if focus_on_proxy_button {
            return LoginEnter::Navigate(AppRoute::ProxySettings);
        }
        LoginEnter::Submitted(self.submit())
    }

    /// An input box changed: the form takes its text.
    pub fn set_field(&mut self, field: LoginInputType, value: &str)
        ensures
            field == LoginInputType::Email ==> final(self).email@ == value@ && final(self).password@
                == old(self).password@,
            field == LoginInputType::Password ==> final(self).password@ == value@
                && final(self).email@ == old(self).email@,
            final(self).save_password == old(self).save_password,
            final(self).auto_login == old(self).auto_login,
            final(self).auto_punch_in == old(self).auto_punch_in,
            final(self).error == old(self).error,
            final(self).is_loading == old(self).is_loading,
    {
        match field {
            LoginInputType::Email => self.email = String::from_str(value),
            LoginInputType::Password => self.password = String::from_str(value),
        }
    }

    /// A check box was pressed: it flips, and turning on automatic login
    /// also turns on saving the password. Gives the box's new state.
    pub fn toggle_checkbox(&mut self, kind: LoginCheckboxType) -> (checked: bool)
        ensures
            (final(self).save_password, final(self).auto_login, final(self).auto_punch_in)
                == boxes_after((old(self).save_password, old(self).auto_login, old(self).auto_punch_in), kind),
            checked == match kind {
                LoginCheckboxType::SavePassword => final(self).save_password,
                LoginCheckboxType::AutoLogin => final(self).auto_login,
                LoginCheckboxType::AutoPunchIn => final(self).auto_punch_in,
            },
            final(self).email@ == old(self).email@,
            final(self).password@ == old(self).password@,
            final(self).error == old(self).error,
    {
        match kind {
            LoginCheckboxType::SavePassword => {
                self.save_password = !self.save_password;
                self.save_password
            },
            LoginCheckboxType::AutoLogin => {
                self.auto_login = !self.auto_login;
                if self.auto_login && !self.save_password {
                    self.save_password = true;
                }
                self.auto_login
            },
            LoginCheckboxType::AutoPunchIn => {
                self.auto_punch_in = !self.auto_punch_in;
                self.auto_punch_in
            },
        }
    }

    /// The login settings to keep: the three switches, and the credentials
    /// when the password is saved (empty otherwise).
    pub fn settings(&self) -> (s: LoginSettings)
        ensures
            s.save_password == self.save_password,
            s.auto_login == self.auto_login,
            s.auto_punch_in == self.auto_punch_in,
            self.save_password ==> s.saved_email@ == self.email@ && s.saved_password@
                == self.password@,
            !self.save_password ==> s.saved_email@.len() == 0 && s.saved_password@.len() == 0,
    {
        let (e, p) = if self.save_password {
            (String::from_str(self.email.as_str()), String::from_str(self.password.as_str()))
        } else {
            (String::new(), String::new())
        };
        LoginSettings {
            save_password: self.save_password,
            auto_login: self.auto_login,
            auto_punch_in: self.auto_punch_in,
            saved_email: e,
            saved_password: p,
        }
    }

    /// The credentials to keep after a successful login: only when the
    /// password is saved.
    pub fn credentials_to_save(&self) -> (r: Option<(String, String)>)
        ensures
            self.save_password ==> (r matches Some((e, p)) && e@ == self.email@ && p@
                == self.password@),
            !self.save_password ==> r is None,
    {
        if self.save_password {
            Some((String::from_str(self.email.as_str()), String::from_str(self.password.as_str())))
        } else {
            None
        }
    }
}

/// The text of a check box's mark.
pub fn checkbox_mark(checked: bool) -> (r: &'static str)
    ensures
        r@ == if checked {
            "[X]"@
        } else {
            "[ ]"@
        },
{
    if checked {
        "[X]"
    } else {
        "[ ]"
    }
}

/// The label of the login button.
pub fn login_button_label(is_loading: bool) -> (r: &'static str)
    ensures
        r@ == if is_loading {
            "登录中..."@
        } else {
            "登录"@
        },
{
    if is_loading {
        "登录中..."
    } else {
        "登录"
    }
}

/// The place of an input box in the Tab order (the login button comes
/// third, the proxy button fourth).
pub fn login_tab_index(field: LoginInputType) -> (r: i32)
    ensures
        field == LoginInputType::Email ==> r == 0,
        field == LoginInputType::Password ==> r == 1,
{
    match field {
        LoginInputType::Email => 0,
        LoginInputType::Password => 1,
    }
}

/// Turning automatic login on always leaves the password saved; and
/// "automatic login implies saved password" stays true through any box but
/// the save-password box itself.
pub proof fn lemma_auto_login_saves_password(b: (bool, bool, bool), kind: LoginCheckboxType)
    ensures
        kind == LoginCheckboxType::AutoLogin && boxes_after(b, kind).1 ==> boxes_after(b, kind).0,
        kind != LoginCheckboxType::SavePassword && (b.1 ==> b.0) ==> (boxes_after(b, kind).1
            ==> boxes_after(b, kind).0),
{
}

/// Pressing the same box twice gives back the boxes, except that automatic
/// login may have turned the saved password on.
pub proof fn lemma_checkbox_twice(b: (bool, bool, bool), kind: LoginCheckboxType)
    ensures
        kind != LoginCheckboxType::AutoLogin ==> boxes_after(boxes_after(b, kind), kind) == b,
        kind == LoginCheckboxType::AutoLogin ==> boxes_after(boxes_after(b, kind), kind).1 == b.1
            && boxes_after(boxes_after(b, kind), kind).2 == b.2,
{
}

} // verus!
