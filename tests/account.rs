use zaimanhua::account::{
    check_in_succeeded, get_enhanced_mode, get_token, has_checkin_flag, is_hidden_cache_valid,
    login_body, login_plan, login_token, md5_hex, notification_checks_in, parse_i64,
    request_token, should_auto_check_in, show_hidden_content, LoginPlan,
};

#[test]
fn md5_in_lower_hex() {
    assert_eq!(md5_hex("password"), "5f4dcc3b5aa765d61d8327deb882cf99");
    assert_eq!(md5_hex(""), "d41d8cd98f00b204e9800998ecf8427e");
    assert_eq!(md5_hex("任意文本").len(), 32);
}

#[test]
fn login_form_carries_the_hash() {
    assert_eq!(
        login_body("bob", "password"),
        "username=bob&passwd=5f4dcc3b5aa765d61d8327deb882cf99"
    );
}

#[test]
fn login_and_check_in_answers() {
    assert_eq!(login_token(Some(0), Some("t".into())), Some("t".to_string()));
    assert_eq!(login_token(Some(1), Some("t".into())), None);
    assert_eq!(login_token(None, Some("t".into())), None);
    assert!(check_in_succeeded(Some(0)));
    assert!(!check_in_succeeded(Some(2)));
    assert!(!check_in_succeeded(None));
}

#[test]
fn login_form_plans() {
    assert_eq!(login_plan("other", "u", "p"), LoginPlan::InvalidKey);
    assert_eq!(login_plan("login", "", "p"), LoginPlan::Logout);
    assert_eq!(login_plan("login", "u", ""), LoginPlan::Reject);
    assert_eq!(login_plan("login", "u", "p"), LoginPlan::Login);
}

#[test]
fn settings_decisions() {
    assert_eq!(get_token(Some(String::new())), None);
    assert_eq!(get_token(Some("x".into())), Some("x".to_string()));
    assert!(!has_checkin_flag(&Some(String::new())));
    assert!(has_checkin_flag(&Some("done".into())));
    assert!(get_enhanced_mode(true, &Some("t".into())));
    assert!(!get_enhanced_mode(true, &None));
    assert!(!show_hidden_content(false, true));
    assert!(show_hidden_content(true, true));
    assert_eq!(request_token(Some("t".into()), false), None);
    assert_eq!(request_token(Some("t".into()), true), Some("t".to_string()));
    assert!(should_auto_check_in(true, true, false));
    assert!(!should_auto_check_in(true, true, true));
    assert!(notification_checks_in("checkin", true));
    assert!(!notification_checks_in("login", true));
}

#[test]
fn numbers_parse_as_std_does() {
    assert_eq!(parse_i64("-42"), Some(-42));
    assert_eq!(parse_i64("+7"), Some(7));
    assert_eq!(parse_i64("-9223372036854775808"), Some(i64::MIN));
    assert_eq!(parse_i64("9223372036854775808"), None);
    assert_eq!(parse_i64("-"), None);
    assert_eq!(parse_i64("1 "), None);
}

#[test]
fn hidden_cache_lasts_an_hour() {
    assert!(is_hidden_cache_valid(&Some("1000".into()), 1000 + 3599));
    assert!(!is_hidden_cache_valid(&Some("1000".into()), 1000 + 3600));
    assert!(!is_hidden_cache_valid(&Some("soon".into()), 0));
    assert!(!is_hidden_cache_valid(&None, 0));
    assert!(is_hidden_cache_valid(&Some("9223372036854775807".into()), i64::MIN));
}

use zaimanhua::details::{LoginData, UserInfo, UserToken};

#[test]
fn user_info_shows_name_and_level() {
    let info = UserInfo { username: None, nickname: Some("nick".into()), level: Some(7), is_sign: Some(true) };
    assert_eq!(info.display_name(), "nick");
    assert_eq!(info.footer(), "用户：nick | 等级：Lv.7");
    assert_eq!(info.checkin_subtitle(), "今日已签到");
    let unknown = UserInfo { username: None, nickname: None, level: None, is_sign: None };
    assert_eq!(unknown.footer(), "用户：未知用户 | 等级：Lv.0");
    assert_eq!(unknown.checkin_subtitle(), "今日未签到");
}

#[test]
fn login_data_token() {
    let d = LoginData { user: Some(UserToken { token: Some("tok".into()) }) };
    assert_eq!(d.into_token(), Some("tok".to_string()));
    assert_eq!(LoginData { user: None }.into_token(), None);
}
