//! The account registration form: its fields, the checks made before a
//! registration request is sent, and what a reply does to the form.
use vstd::prelude::*;

use crate::text::{
    chars_of, concat_str, input_display, parse_i32_chars, parse_signed, parse_u32_chars,
    parse_unsigned, split_chars, split_on, all_digits, is_digit,
};

verus! {

/// The input boxes of the form.
#[derive(Clone, Copy, PartialEq, Eq, Structural, Debug)]
pub enum RegisterInputType {
    Email,
    Password,
    ConfirmPassword,
    Name,
    Birthday,
    Question1,
    Question2,
    Question3,
    Answer1,
    Answer2,
    Answer3,
}

/// The gender choices of the form.
#[derive(Clone, Copy, PartialEq, Eq, Structural, Debug)]
pub enum Gender {
    Male,
    Female,
    Bot,
}

/// The registration form.
pub struct RegisterFormState {
    pub email: String,
    pub password: String,
    pub confirm_password: String,
    pub name: String,
    pub birthday: String,
    pub gender: Gender,
    pub question1: String,
    pub question2: String,
    pub question3: String,
    pub answer1: String,
    pub answer2: String,
    pub answer3: String,
    pub error: Option<String>,
    pub success: Option<String>,
    pub is_loading: bool,
}

/// What is sent to the server to register.
pub struct RegisterRequest {
    pub email: String,
    pub password: String,
    pub name: String,
    pub birthday: String,
    pub gender: Gender,
    pub question1: String,
    pub question2: String,
    pub question3: String,
    pub answer1: String,
    pub answer2: String,
    pub answer3: String,
}

/// Why a registration is not sent.
#[derive(Clone, Copy, PartialEq, Eq, Structural, Debug)]
pub enum RegisterError {
    MissingEmail,
    ShortPassword,
    PasswordMismatch,
    MissingName,
    MissingBirthday,
    BadBirthday,
    MissingQuestions,
    MissingAnswers,
}

/// The message shown for each refusal.
pub open spec fn register_error_text(e: RegisterError) -> Seq<char> {
    match e {
        RegisterError::MissingEmail => "请输入邮箱/用户名"@,
        RegisterError::ShortPassword => "密码至少需要8位字符"@,
        RegisterError::PasswordMismatch => "两次输入的密码不一致"@,
        RegisterError::MissingName => "请输入昵称"@,
        RegisterError::MissingBirthday => "请输入生日"@,
        RegisterError::BadBirthday => "生日格式错误，请使用 yyyy-MM-dd 格式"@,
        RegisterError::MissingQuestions => "请填写所有安全问题"@,
        RegisterError::MissingAnswers => "请填写所有安全问题的答案"@,
    }
}

impl RegisterError {
    /// The message shown for this refusal.
    pub fn message(&self) -> (r: String)
        ensures
            r@ == register_error_text(*self),
    {
        match self {
            RegisterError::MissingEmail => String::from_str("请输入邮箱/用户名"),
            RegisterError::ShortPassword => String::from_str("密码至少需要8位字符"),
            RegisterError::PasswordMismatch => String::from_str("两次输入的密码不一致"),
            RegisterError::MissingName => String::from_str("请输入昵称"),
            RegisterError::MissingBirthday => String::from_str("请输入生日"),
            RegisterError::BadBirthday => String::from_str("生日格式错误，请使用 yyyy-MM-dd 格式"),
            RegisterError::MissingQuestions => String::from_str("请填写所有安全问题"),
            RegisterError::MissingAnswers => String::from_str("请填写所有安全问题的答案"),
        }
    }
}

// ==================== dates ====================

/// A birthday written `yyyy-MM-dd`: exactly three `-`-separated parts made
/// of four, two and two ASCII digits, a year in 1900..=2100, a month in
/// 1..=12 and a day in 1..=31.
pub open spec fn valid_date(s: Seq<char>) -> bool {
    let parts = split_on(s, '-');
    &&& parts.len() == 3
    &&& parts[0].len() == 4 && all_digits(parts[0])
    &&& parts[1].len() == 2 && all_digits(parts[1])
    &&& parts[2].len() == 2 && all_digits(parts[2])
    &&& parse_signed(parts[0], i32::MIN as int, i32::MAX as int) matches Some(y) && 1900 <= y
        <= 2100
    &&& parse_unsigned(parts[1], u32::MAX as int) matches Some(m) && 1 <= m <= 12
    &&& parse_unsigned(parts[2], u32::MAX as int) matches Some(d) && 1 <= d <= 31
}

/// Whether `p` is exactly `n` ASCII digits.
fn is_digit_run(p: &[char], n: usize) -> (r: bool)
    ensures
        r == (p@.len() == n && all_digits(p@)),
{
    if p.len() != n {
        return false;
    }
    let mut i: usize = 0;
    while i < p.len()
        invariant
            0 <= i <= p@.len(),
            forall|j: int| 0 <= j < i ==> is_digit(#[trigger] p@[j]),
        decreases p@.len() - i,
    {
        let c = p[i];
        if !('0' <= c && c <= '9') {
            return false;
        }
        i = i + 1;
    }
    true
}

/// Whether a birthday is written `yyyy-MM-dd` with plausible values.
pub fn is_valid_date(date: &str) -> (r: bool)
    ensures
        r == valid_date(date@),
{
    let parts = split_chars(date, '-');
    if parts.len() != 3 {
        return false;
    }
    let p0 = parts[0].as_slice();
    let p1 = parts[1].as_slice();
    let p2 = parts[2].as_slice();
    proof {
        assert(p0@.subrange(0, p0@.len() as int) =~= p0@);
        assert(p1@.subrange(0, p1@.len() as int) =~= p1@);
        assert(p2@.subrange(0, p2@.len() as int) =~= p2@);
        assert(p0@ == split_on(date@, '-')[0]);
        assert(p1@ == split_on(date@, '-')[1]);
        assert(p2@ == split_on(date@, '-')[2]);
    }
    if !(is_digit_run(p0, 4) && is_digit_run(p1, 2) && is_digit_run(p2, 2)) {
        return false;
    }
    let y = parse_i32_chars(p0, 0, p0.len());
    let m = parse_u32_chars(p1, 0, p1.len());
    let d = parse_u32_chars(p2, 0, p2.len());
    match (y, m, d) {
        (Some(y), Some(m), Some(d)) => 1900 <= y && y <= 2100 && 1 <= m && m <= 12 && 1 <= d && d
            <= 31,
        _ => false,
    }
}

// ==================== the form ====================

/// The value of one input box of the form.
pub open spec fn field_of(s: RegisterFormState, t: RegisterInputType) -> Seq<char> {
    match t {
        RegisterInputType::Email => s.email@,
        RegisterInputType::Password => s.password@,
        RegisterInputType::ConfirmPassword => s.confirm_password@,
        RegisterInputType::Name => s.name@,
        RegisterInputType::Birthday => s.birthday@,
        RegisterInputType::Question1 => s.question1@,
        RegisterInputType::Question2 => s.question2@,
        RegisterInputType::Question3 => s.question3@,
        RegisterInputType::Answer1 => s.answer1@,
        RegisterInputType::Answer2 => s.answer2@,
        RegisterInputType::Answer3 => s.answer3@,
    }
}

/// Two forms hold the same input and gender.
pub open spec fn same_input(a: RegisterFormState, b: RegisterFormState) -> bool {
    &&& forall|t: RegisterInputType| #[trigger] field_of(a, t) == field_of(b, t)
    &&& a.gender == b.gender
}

/// The first check that a form fails, if any, in the order they are made.
pub open spec fn register_check(s: RegisterFormState) -> Option<RegisterError> {
    if s.email@.len() == 0 {
        Some(RegisterError::MissingEmail)
    } else if s.password@.len() < 8 {
        Some(RegisterError::ShortPassword)
    } else if s.password@ != s.confirm_password@ {
        Some(RegisterError::PasswordMismatch)
    } else if s.name@.len() == 0 {
        Some(RegisterError::MissingName)
    } else if s.birthday@.len() == 0 {
        Some(RegisterError::MissingBirthday)
    } else if !valid_date(s.birthday@) {
        Some(RegisterError::BadBirthday)
    } else if s.question1@.len() == 0 || s.question2@.len() == 0 || s.question3@.len() == 0 {
        Some(RegisterError::MissingQuestions)
    } else if s.answer1@.len() == 0 || s.answer2@.len() == 0 || s.answer3@.len() == 0 {
        Some(RegisterError::MissingAnswers)
    } else {
        None
    }
}

/// A form passes the checks exactly when every box is filled in, the
/// password has at least 8 characters and is typed the same twice, and the
/// birthday is a valid `yyyy-MM-dd` date. A reported error names a check
/// that fails, and every check made before it passes.
pub proof fn lemma_register_check_passes(s: RegisterFormState)
    ensures
        register_check(s) is None <==> {
            &&& s.email@.len() > 0
            &&& s.password@.len() >= 8
            &&& s.password@ == s.confirm_password@
            &&& s.name@.len() > 0
            &&& s.birthday@.len() > 0
            &&& valid_date(s.birthday@)
            &&& s.question1@.len() > 0 && s.question2@.len() > 0 && s.question3@.len() > 0
            &&& s.answer1@.len() > 0 && s.answer2@.len() > 0 && s.answer3@.len() > 0
        },
        register_check(s) == Some(RegisterError::MissingEmail) <==> s.email@.len() == 0,
        register_check(s) == Some(RegisterError::ShortPassword) ==> s.password@.len() < 8,
        register_check(s) == Some(RegisterError::PasswordMismatch) ==> s.password@
            != s.confirm_password@,
        register_check(s) == Some(RegisterError::MissingName) ==> s.name@.len() == 0,
        register_check(s) == Some(RegisterError::MissingBirthday) ==> s.birthday@.len() == 0,
        register_check(s) == Some(RegisterError::BadBirthday) ==> !valid_date(s.birthday@),
        register_check(s) == Some(RegisterError::MissingQuestions) ==> s.question1@.len() == 0
            || s.question2@.len() == 0 || s.question3@.len() == 0,
        register_check(s) == Some(RegisterError::MissingAnswers) ==> s.answer1@.len() == 0
            || s.answer2@.len() == 0 || s.answer3@.len() == 0,
        register_check(s) is Some && register_check(s) != Some(RegisterError::MissingEmail)
            ==> s.email@.len() > 0,
        (register_check(s) == Some(RegisterError::MissingQuestions) || register_check(s) == Some(
            RegisterError::MissingAnswers,
        )) ==> s.password@.len() >= 8 && s.password@ == s.confirm_password@ && s.name@.len() > 0
            && valid_date(s.birthday@),
        register_check(s) == Some(RegisterError::MissingAnswers) ==> s.question1@.len() > 0
            && s.question2@.len() > 0 && s.question3@.len() > 0,
{
}

/// `r` carries the form's input.
pub open spec fn request_of(r: RegisterRequest, s: RegisterFormState) -> bool {
    &&& r.email@ == s.email@
    &&& r.password@ == s.password@
    &&& r.name@ == s.name@
    &&& r.birthday@ == s.birthday@
    &&& r.gender == s.gender
    &&& r.question1@ == s.question1@
    &&& r.question2@ == s.question2@
    &&& r.question3@ == s.question3@
    &&& r.answer1@ == s.answer1@
    &&& r.answer2@ == s.answer2@
    &&& r.answer3@ == s.answer3@
}

/// The message shown after a successful registration.
pub open spec fn register_success_text() -> Seq<char> {
    "注册成功！请返回登录页面登录"@
}

/// The prefix of the message shown after a refused registration.
pub open spec fn register_failure_prefix() -> Seq<char> {
    "注册失败: "@
}

fn is_empty_str(s: &String) -> (r: bool)
    ensures
        r == (s@.len() == 0),
{
    s.unicode_len() == 0
}

impl RegisterFormState {
    /// An empty form, with the first gender chosen.
    pub fn new() -> (s: Self)
        ensures
            forall|t: RegisterInputType| #[trigger] field_of(s, t).len() == 0,
            s.gender == Gender::Male,
            s.error is None,
            s.success is None,
            !s.is_loading,
    {
        RegisterFormState {
            email: String::new(),
            password: String::new(),
            confirm_password: String::new(),
            name: String::new(),
            birthday: String::new(),
            gender: Gender::Male,
            question1: String::new(),
            question2: String::new(),
            question3: String::new(),
            answer1: String::new(),
            answer2: String::new(),
            answer3: String::new(),
            error: None,
            success: None,
            is_loading: false,
        }
    }

    /// The value of one input box.
    pub fn field(&self, t: RegisterInputType) -> (r: &String)
        ensures
            r@ == field_of(*self, t),
    {
        match t {
            RegisterInputType::Email => &self.email,
            RegisterInputType::Password => &self.password,
            RegisterInputType::ConfirmPassword => &self.confirm_password,
            RegisterInputType::Name => &self.name,
            RegisterInputType::Birthday => &self.birthday,
            RegisterInputType::Question1 => &self.question1,
            RegisterInputType::Question2 => &self.question2,
            RegisterInputType::Question3 => &self.question3,
            RegisterInputType::Answer1 => &self.answer1,
            RegisterInputType::Answer2 => &self.answer2,
            RegisterInputType::Answer3 => &self.answer3,
        }
    }

    /// An input box was edited: the form takes its new value.
    pub fn set_field(&mut self, t: RegisterInputType, value: String)
        ensures
            field_of(*final(self), t) == value@,
            forall|u: RegisterInputType| u != t ==> #[trigger] field_of(*final(self), u) == field_of(*old(self), u),
            final(self).gender == old(self).gender,
            final(self).error == old(self).error,
            final(self).success == old(self).success,
            final(self).is_loading == old(self).is_loading,
    {
        match t {
            RegisterInputType::Email => self.email = value,
            RegisterInputType::Password => self.password = value,
            RegisterInputType::ConfirmPassword => self.confirm_password = value,
            RegisterInputType::Name => self.name = value,
            RegisterInputType::Birthday => self.birthday = value,
            RegisterInputType::Question1 => self.question1 = value,
            RegisterInputType::Question2 => self.question2 = value,
            RegisterInputType::Question3 => self.question3 = value,
            RegisterInputType::Answer1 => self.answer1 = value,
            RegisterInputType::Answer2 => self.answer2 = value,
            RegisterInputType::Answer3 => self.answer3 = value,
        }
    }

    /// A gender button was pressed.
    pub fn choose_gender(&mut self, g: Gender)
        ensures
            final(self).gender == g,
            forall|t: RegisterInputType| #[trigger] field_of(*final(self), t) == field_of(*old(self), t),
            final(self).error == old(self).error,
            final(self).success == old(self).success,
            final(self).is_loading == old(self).is_loading,
    {
        self.gender = g;
    }

    /// The first check that the form fails, if any.
    pub fn check(&self) -> (r: Option<RegisterError>)
        ensures
            r == register_check(*self),
    {
        if is_empty_str(&self.email) {
            return Some(RegisterError::MissingEmail);
        }
        if self.password.as_str().unicode_len() < 8 {
            return Some(RegisterError::ShortPassword);
        }
        if self.password != self.confirm_password {
            return Some(RegisterError::PasswordMismatch);
        }
        if is_empty_str(&self.name) {
            return Some(RegisterError::MissingName);
        }
        if is_empty_str(&self.birthday) {
            return Some(RegisterError::MissingBirthday);
        }
        if !is_valid_date(self.birthday.as_str()) {
            return Some(RegisterError::BadBirthday);
        }
        if is_empty_str(&self.question1) || is_empty_str(&self.question2) || is_empty_str(
            &self.question3,
        ) {
            return Some(RegisterError::MissingQuestions);
        }
        if is_empty_str(&self.answer1) || is_empty_str(&self.answer2) || is_empty_str(
            &self.answer3,
        ) {
            return Some(RegisterError::MissingAnswers);
        }
        None
    }

    /// The submit button or Enter: a form that fails a check shows the
    /// check's message; a form that passes them all clears the messages,
    /// starts loading and gives the request to send.
    pub fn trigger_register(&mut self) -> (r: Option<RegisterRequest>)
        ensures
            same_input(*old(self), *final(self)),
            match register_check(*old(self)) {
                Some(e) => {
                    &&& r is None
                    &&& final(self).error matches Some(m) && m@ == register_error_text(e)
                    &&& final(self).success == old(self).success
                    &&& final(self).is_loading == old(self).is_loading
                },
                None => {
                    &&& r matches Some(req) && request_of(req, *old(self))
                    &&& final(self).error is None
                    &&& final(self).success is None
                    &&& final(self).is_loading
                },
            },
    {
        match self.check() {
            Some(e) => {
                self.error = Some(e.message());
                None
            },
            None => {
                self.error = None;
                self.success = None;
                self.is_loading = true;
                Some(
                    RegisterRequest {
                        email: self.email.clone(),
                        password: self.password.clone(),
                        name: self.name.clone(),
                        birthday: self.birthday.clone(),
                        gender: self.gender,
                        question1: self.question1.clone(),
                        question2: self.question2.clone(),
                        question3: self.question3.clone(),
                        answer1: self.answer1.clone(),
                        answer2: self.answer2.clone(),
                        answer3: self.answer3.clone(),
                    },
                )
            },
        }
    }

    /// The server's reply to a registration request: loading stops and the
    /// reply's outcome is shown.
    pub fn handle_register_response(&mut self, result: Result<String, String>)
        ensures
            same_input(*old(self), *final(self)),
            !final(self).is_loading,
            match result {
                Ok(_) => {
                    &&& final(self).success matches Some(m) && m@ == register_success_text()
                    &&& final(self).error is None
                },
                Err(e) => {
                    &&& final(self).error matches Some(m) && m@ == register_failure_prefix() + e@
                    &&& final(self).success is None
                },
            },
    {
        self.is_loading = false;
        match result {
            Ok(_) => {
                self.success = Some(String::from_str("注册成功！请返回登录页面登录"));
                self.error = None;
            },
            Err(e) => {
                self.error = Some(concat_str("注册失败: ", e.as_str()));
                self.success = None;
            },
        }
    }
}

// ==================== what the page shows ====================

/// The place of each input box in the Tab order: the page's order, where
/// each question is followed by its answer.
pub open spec fn tab_index_of(t: RegisterInputType) -> int {
    match t {
        RegisterInputType::Email => 0,
        RegisterInputType::Password => 1,
        RegisterInputType::ConfirmPassword => 2,
        RegisterInputType::Name => 3,
        RegisterInputType::Birthday => 4,
        RegisterInputType::Question1 => 5,
        RegisterInputType::Answer1 => 6,
        RegisterInputType::Question2 => 7,
        RegisterInputType::Answer2 => 8,
        RegisterInputType::Question3 => 9,
        RegisterInputType::Answer3 => 10,
    }
}

/// The place of an input box in the Tab order.
pub fn register_tab_index(t: RegisterInputType) -> (r: i32)
    ensures
        r as int == tab_index_of(t),
{
    match t {
        RegisterInputType::Email => 0,
        RegisterInputType::Password => 1,
        RegisterInputType::ConfirmPassword => 2,
        RegisterInputType::Name => 3,
        RegisterInputType::Birthday => 4,
        RegisterInputType::Question1 => 5,
        RegisterInputType::Answer1 => 6,
        RegisterInputType::Question2 => 7,
        RegisterInputType::Answer2 => 8,
        RegisterInputType::Question3 => 9,
        RegisterInputType::Answer3 => 10,
    }
}

/// The Tab order gives each input box its own place, from 0 to 10.
pub proof fn lemma_tab_order_is_a_permutation(a: RegisterInputType, b: RegisterInputType)
    ensures
        0 <= tab_index_of(a) <= 10,
        tab_index_of(a) == tab_index_of(b) ==> a == b,
{
}

/// The hint shown in an empty input box.
pub open spec fn placeholder_of(t: RegisterInputType) -> Seq<char> {
    match t {
        RegisterInputType::Email => "只能包含字母、数字、.和_"@,
        RegisterInputType::Password => "至少8位字符"@,
        RegisterInputType::ConfirmPassword => "再次输入密码"@,
        RegisterInputType::Name => "显示名称"@,
        RegisterInputType::Birthday => "格式: 2000-01-01"@,
        RegisterInputType::Question1 => "例如: 你的家乡是哪里"@,
        RegisterInputType::Question2 => "例如: 你最喜欢的颜色"@,
        RegisterInputType::Question3 => "例如: 你最喜欢的食物"@,
        RegisterInputType::Answer1 => "问题1的答案"@,
        RegisterInputType::Answer2 => "问题2的答案"@,
        RegisterInputType::Answer3 => "问题3的答案"@,
    }
}

/// The hint shown in an empty input box.
pub fn get_field_placeholder(t: RegisterInputType) -> (r: &'static str)
    ensures
        r@ == placeholder_of(t),
{
    match t {
        RegisterInputType::Email => "只能包含字母、数字、.和_",
        RegisterInputType::Password => "至少8位字符",
        RegisterInputType::ConfirmPassword => "再次输入密码",
        RegisterInputType::Name => "显示名称",
        RegisterInputType::Birthday => "格式: 2000-01-01",
        RegisterInputType::Question1 => "例如: 你的家乡是哪里",
        RegisterInputType::Question2 => "例如: 你最喜欢的颜色",
        RegisterInputType::Question3 => "例如: 你最喜欢的食物",
        RegisterInputType::Answer1 => "问题1的答案",
        RegisterInputType::Answer2 => "问题2的答案",
        RegisterInputType::Answer3 => "问题3的答案",
    }
}

/// Whether an input box hides what is typed.
pub fn is_password_field(t: RegisterInputType) -> (r: bool)
    ensures
        r == (t == RegisterInputType::Password || t == RegisterInputType::ConfirmPassword),
{
    match t {
        RegisterInputType::Password | RegisterInputType::ConfirmPassword => true,
        _ => false,
    }
}

/// The text an input box of the form shows, and whether it is the hint.
pub fn field_display(s: &RegisterFormState, t: RegisterInputType) -> (r: (String, bool))
    ensures
        r.1 == (field_of(*s, t).len() == 0),
        r.0@ == if field_of(*s, t).len() == 0 {
            placeholder_of(t)
        } else if t == RegisterInputType::Password || t == RegisterInputType::ConfirmPassword {
            Seq::new(field_of(*s, t).len(), |i: int| '*')
        } else {
            field_of(*s, t)
        },
{
    input_display(s.field(t).as_str(), get_field_placeholder(t), is_password_field(t))
}

/// The label of the submit button.
pub fn submit_label(is_loading: bool) -> (r: &'static str)
    ensures
        r@ == if is_loading {
            "注册中..."@
        } else {
            "立即注册"@
        },
{
    if is_loading {
        "注册中..."
    } else {
        "立即注册"
    }
}

} // verus!
