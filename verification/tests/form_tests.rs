use picacg_app::login::{
    checkbox_mark, login_button_label, LoginCheckboxType, LoginEnter, LoginFormState,
    LoginInputType,
};
use picacg_app::proxy::{
    on_off_label, port_digits_only, proxy_field_display, ProxyFieldType, ProxySettingsState,
    ProxyType,
};
use picacg_app::register::{
    field_display, get_field_placeholder, is_password_field, is_valid_date, register_tab_index,
    submit_label, Gender, RegisterError, RegisterFormState, RegisterInputType,
};
use picacg_app::routes::AppRoute;

fn filled_form() -> RegisterFormState {
    let mut f = RegisterFormState::new();
    f.email = "user_1".to_string();
    f.password = "password1".to_string();
    f.confirm_password = "password1".to_string();
    f.name = "昵称".to_string();
    f.birthday = "2000-01-01".to_string();
    f.question1 = "q1".to_string();
    f.question2 = "q2".to_string();
    f.question3 = "q3".to_string();
    f.answer1 = "a1".to_string();
    f.answer2 = "a2".to_string();
    f.answer3 = "a3".to_string();
    f
}

#[test]
fn dates_follow_yyyy_mm_dd() {
    assert!(is_valid_date("2000-01-01"));
    assert!(is_valid_date("1900-12-31"));
    assert!(!is_valid_date("+2000-+1-01"));
    assert!(!is_valid_date("2000-1-5"));
    assert!(!is_valid_date("2000-01-5"));
    assert!(!is_valid_date("02000-01-05"));
    assert!(!is_valid_date("1899-01-01"));
    assert!(!is_valid_date("2101-01-01"));
    assert!(!is_valid_date("2000-13-01"));
    assert!(!is_valid_date("2000-00-01"));
    assert!(!is_valid_date("2000-01-32"));
    assert!(!is_valid_date("2000-01"));
    assert!(!is_valid_date("2000-01-01-01"));
    assert!(!is_valid_date("20a0-01-01"));
    assert!(!is_valid_date("2000/01/01"));
    assert!(!is_valid_date("-2000-01-01"));
}

#[test]
fn register_checks_in_order() {
    let mut f = RegisterFormState::new();
    assert_eq!(f.check(), Some(RegisterError::MissingEmail));
    let mut f2 = filled_form();
    f2.password = "短密码".to_string(); // 9 bytes, 3 characters
    f2.confirm_password = f2.password.clone();
    assert_eq!(f2.check(), Some(RegisterError::ShortPassword));
    f2.password = "密码密码密".to_string(); // 15 bytes, 5 characters
    f2.confirm_password = f2.password.clone();
    assert_eq!(f2.check(), Some(RegisterError::ShortPassword));
    f2.password = "密码密码密码密码".to_string(); // 8 characters
    f2.confirm_password = f2.password.clone();
    assert_eq!(f2.check(), None);
    f2.password = "1234567".to_string();
    assert_eq!(f2.check(), Some(RegisterError::ShortPassword));
    let mut f3 = filled_form();
    f3.confirm_password = "other".to_string();
    assert_eq!(f3.check(), Some(RegisterError::PasswordMismatch));
    let mut f4 = filled_form();
    f4.name = String::new();
    assert_eq!(f4.check(), Some(RegisterError::MissingName));
    let mut f5 = filled_form();
    f5.birthday = String::new();
    assert_eq!(f5.check(), Some(RegisterError::MissingBirthday));
    let mut f6 = filled_form();
    f6.birthday = "2000-1-1x".to_string();
    assert_eq!(f6.check(), Some(RegisterError::BadBirthday));
    let mut f7 = filled_form();
    f7.question2 = String::new();
    assert_eq!(f7.check(), Some(RegisterError::MissingQuestions));
    let mut f8 = filled_form();
    f8.answer3 = String::new();
    assert_eq!(f8.check(), Some(RegisterError::MissingAnswers));
    assert!(f.trigger_register().is_none());
    assert_eq!(f.error.as_deref(), Some("请输入邮箱/用户名"));
}

#[test]
fn register_messages() {
    assert_eq!(RegisterError::ShortPassword.message(), "密码至少需要8位字符");
    assert_eq!(RegisterError::PasswordMismatch.message(), "两次输入的密码不一致");
    assert_eq!(RegisterError::MissingName.message(), "请输入昵称");
    assert_eq!(RegisterError::MissingBirthday.message(), "请输入生日");
    assert_eq!(RegisterError::BadBirthday.message(), "生日格式错误，请使用 yyyy-MM-dd 格式");
    assert_eq!(RegisterError::MissingQuestions.message(), "请填写所有安全问题");
    assert_eq!(RegisterError::MissingAnswers.message(), "请填写所有安全问题的答案");
}

#[test]
fn a_valid_form_sends_its_input() {
    let mut f = filled_form();
    f.choose_gender(Gender::Bot);
    f.error = Some("old".to_string());
    let req = f.trigger_register().expect("request");
    assert_eq!(req.email, "user_1");
    assert_eq!(req.birthday, "2000-01-01");
    assert_eq!(req.gender, Gender::Bot);
    assert!(f.is_loading);
    assert!(f.error.is_none());
    f.handle_register_response(Err("boom".to_string()));
    assert!(!f.is_loading);
    assert_eq!(f.error.as_deref(), Some("注册失败: boom"));
    f.handle_register_response(Ok("ok".to_string()));
    assert_eq!(f.success.as_deref(), Some("注册成功！请返回登录页面登录"));
    assert!(f.error.is_none());
}

#[test]
fn register_page_texts() {
    assert_eq!(register_tab_index(RegisterInputType::Answer1), 6);
    assert_eq!(register_tab_index(RegisterInputType::Question2), 7);
    assert_eq!(get_field_placeholder(RegisterInputType::Birthday), "格式: 2000-01-01");
    assert!(is_password_field(RegisterInputType::ConfirmPassword));
    assert!(!is_password_field(RegisterInputType::Email));
    let mut f = RegisterFormState::new();
    f.set_field(RegisterInputType::Password, "ab".to_string());
    assert_eq!(field_display(&f, RegisterInputType::Password), ("**".to_string(), false));
    assert_eq!(field_display(&f, RegisterInputType::Name), ("显示名称".to_string(), true));
    assert_eq!(submit_label(true), "注册中...");
    assert_eq!(submit_label(false), "立即注册");
}

fn login_form() -> LoginFormState {
    LoginFormState {
        email: String::new(),
        password: String::new(),
        save_password: false,
        auto_login: false,
        auto_punch_in: false,
        error: None,
        is_loading: false,
    }
}

#[test]
fn login_needs_both_fields() {
    let mut f = login_form();
    f.set_field(LoginInputType::Email, "me");
    assert!(f.submit().is_none());
    assert_eq!(f.error.as_deref(), Some("请输入用户名和密码"));
    f.set_field(LoginInputType::Password, "pw");
    let req = f.submit().expect("request");
    assert_eq!((req.email.as_str(), req.password.as_str()), ("me", "pw"));
    assert!(f.is_loading && f.error.is_none());
    match f.enter_pressed(true) {
        LoginEnter::Navigate(r) => assert_eq!(r, AppRoute::ProxySettings),
        _ => panic!("expected navigation"),
    }
}

#[test]
fn auto_login_turns_on_saving_the_password() {
    let mut f = login_form();
    assert!(f.toggle_checkbox(LoginCheckboxType::AutoLogin));
    assert!(f.save_password);
    assert!(!f.toggle_checkbox(LoginCheckboxType::AutoLogin));
    assert!(f.save_password);
    assert!(!f.toggle_checkbox(LoginCheckboxType::SavePassword));
    assert!(f.toggle_checkbox(LoginCheckboxType::AutoPunchIn));
    f.email = "e".to_string();
    f.password = "p".to_string();
    let s = f.settings();
    assert!(s.saved_email.is_empty() && s.saved_password.is_empty());
    f.save_password = true;
    let s = f.settings();
    assert_eq!((s.saved_email.as_str(), s.saved_password.as_str()), ("e", "p"));
    assert_eq!(f.credentials_to_save(), Some(("e".to_string(), "p".to_string())));
    assert_eq!(checkbox_mark(true), "[X]");
    assert_eq!(checkbox_mark(false), "[ ]");
    assert_eq!(login_button_label(true), "登录中...");
}

#[test]
fn port_box_keeps_digits_and_moves_the_cursor() {
    assert_eq!(port_digits_only("1080", 2), None);
    assert_eq!(port_digits_only("1a0b8", 3), Some(("108".to_string(), 2)));
    assert_eq!(port_digits_only("ab", 9), Some((String::new(), 0)));
    assert_eq!(port_digits_only("12x", 1), Some(("12".to_string(), 1)));
    assert_eq!(port_digits_only("１2", 2), Some(("2".to_string(), 1)));
}

#[test]
fn proxy_page_saves_its_settings() {
    let mut s = ProxySettingsState {
        enabled: false,
        proxy_type: ProxyType::Http,
        host: String::new(),
        port: String::new(),
        use_auth: false,
        username: String::new(),
        password: String::new(),
    };
    assert_eq!(s.toggle_enabled(), "开启");
    assert_eq!(s.toggle_auth(), "开启");
    assert_eq!(s.toggle_auth(), "关闭");
    s.choose_type(ProxyType::Socks5);
    assert_eq!(s.sync_field(ProxyFieldType::Host, "127.0.0.1", 0), None);
    assert_eq!(s.sync_field(ProxyFieldType::Port, "7a890", 5), Some(("7890".to_string(), 4)));
    assert_eq!(s.port, "7890");
    let c = s.to_config();
    assert_eq!(c.port, 7890);
    assert_eq!(c.host, "127.0.0.1");
    assert_eq!(c.proxy_type, ProxyType::Socks5);
    s.port = "99999".to_string();
    assert_eq!(s.to_config().port, 1080);
    s.port = String::new();
    assert_eq!(s.to_config().port, 1080);
    assert_eq!(ProxyType::Https.label(), "HTTPS");
    assert_eq!(on_off_label(false), "关闭");
    assert_eq!(proxy_field_display("", false), ("点击输入...".to_string(), true));
}
