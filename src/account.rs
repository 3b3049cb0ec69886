//! Account decisions: the password hash and login form, login and check-in
//! answers, and the stored settings that gate enhanced mode and hidden content.

use vstd::prelude::*;

use crate::models::{all_digits, digit_value, digits_value, parsed_i64};
use crate::text::{chars_of, same_chars};

verus! {

/// How long a hidden-content cache stays valid, in seconds.
pub const CACHE_EXPIRY_SECS: i64 = 3600;

/// The 16-byte MD5 digest of the UTF-8 bytes of a text.
pub uninterp spec fn md5_of(text: Seq<char>) -> Seq<u8>;

/// Relies on `md5::compute`: the digest of the text's bytes, 16 bytes long.
#[verifier::external_body]
fn md5_digest(text: &str) -> (r: Vec<u8>)
    ensures
        r@ == md5_of(text@),
        r@.len() == 16,
{
    md5::compute(text.as_bytes()).0.to_vec()
}

pub open spec fn hex_digits() -> Seq<char> {
    "0123456789abcdef"@
}

/// Each byte as two lower-case hexadecimal digits, high half first.
pub open spec fn hex_of(bytes: Seq<u8>) -> Seq<char>
    decreases bytes.len(),
{
    if bytes.len() == 0 {
        Seq::<char>::empty()
    } else {
        let b = bytes.last();
        hex_of(bytes.drop_last()) + hex_digits().subrange((b / 16) as int, (b / 16) as int + 1)
            + hex_digits().subrange((b % 16) as int, (b % 16) as int + 1)
    }
}

/// Two digits for each byte.
pub proof fn lemma_hex_len(bytes: Seq<u8>)
    ensures
        hex_of(bytes).len() == 2 * bytes.len(),
    decreases bytes.len(),
{
    if bytes.len() > 0 {
        lemma_hex_len(bytes.drop_last());
        let b = bytes.last();
        assert(hex_digits().len() == 16) by {
            reveal_strlit("0123456789abcdef");
        }
    }
}

/// The MD5 digest of `input` in lower-case hexadecimal, as the site wants
/// passwords: 32 characters.
pub fn md5_hex(input: &str) -> (r: String)
    ensures
        r@ == hex_of(md5_of(input@)),
        r@.len() == 32,
{
    let digest = md5_digest(input);
    let digits = "0123456789abcdef";
    proof {
        reveal_strlit("0123456789abcdef");
    }
    let mut r = String::new();
    let mut i: usize = 0;
    while i < digest.len()
        invariant
            i <= digest@.len(),
            digits@ == hex_digits(),
            digits@.len() == 16,
            r@ == hex_of(digest@.subrange(0, i as int)),
        decreases digest@.len() - i,
    {
        let b = digest[i];
        assert(digest@.subrange(0, i + 1).drop_last() =~= digest@.subrange(0, i as int));
        let hi = (b / 16) as usize;
        let lo = (b % 16) as usize;
        r.append(digits.substring_char(hi, hi + 1));
        r.append(digits.substring_char(lo, lo + 1));
        i = i + 1;
    }
    assert(digest@.subrange(0, digest@.len() as int) =~= digest@);
    proof {
        lemma_hex_len(digest@);
    }
    r
}

/// The form body of a password login: the user name and the password's MD5
/// in hexadecimal.
pub fn login_body(username: &str, password: &str) -> (r: String)
    ensures
        r@ == "username="@ + username@ + "&passwd="@ + hex_of(md5_of(password@)),
{
    let hash = md5_hex(password);
    String::from_str("username=").concat(username).concat("&passwd=").concat(hash.as_str())
}

/// The token that a login answer carries: only when its error number is 0.
pub fn login_token(errno: Option<i64>, token: Option<String>) -> (r: Option<String>)
    ensures
        r == (if errno == Some(0i64) {
            token
        } else {
            None
        }),
{
    match errno {
        Some(e) => if e == 0 {
            token
        } else {
            None
        },
        None => None,
    }
}

/// Whether a check-in answer says it succeeded: its error number is 0.
pub fn check_in_succeeded(errno: Option<i64>) -> (r: bool)
    ensures
        r == (errno == Some(0i64)),
{
    match errno {
        Some(e) => e == 0,
        None => false,
    }
}

/// What a login form submission asks for.
#[derive(Clone, Copy, Debug, PartialEq, Eq, Structural)]
pub enum LoginPlan {
    /// The form key is not the login form's.
    InvalidKey,
    /// No user name: log out and clear the account.
    Logout,
    /// No password: refuse without asking the site.
    Reject,
    /// Clear the old account and log in.
    Login,
}

/// Decides what a login form submission does.
pub fn login_plan(key: &str, username: &str, password: &str) -> (r: LoginPlan)
    ensures
        key@ != "login"@ ==> r == LoginPlan::InvalidKey,
        key@ == "login"@ && username@.len() == 0 ==> r == LoginPlan::Logout,
        key@ == "login"@ && username@.len() > 0 && password@.len() == 0 ==> r == LoginPlan::Reject,
        key@ == "login"@ && username@.len() > 0 && password@.len() > 0 ==> r == LoginPlan::Login,
{
    let k = chars_of(key);
    let login = chars_of("login");
    if !same_chars(&k, &login) {
        return LoginPlan::InvalidKey;
    }
    if username.unicode_len() == 0 {
        return LoginPlan::Logout;
    }
    if password.unicode_len() == 0 {
        return LoginPlan::Reject;
    }
    LoginPlan::Login
}

/// A stored text setting: an empty one counts as absent.
pub fn get_token(stored: Option<String>) -> (r: Option<String>)
    ensures
        r == (match stored {
            Some(s) => if s@.len() > 0 {
                Some(s)
            } else {
                None
            },
            None => None,
        }),
{
    match stored {
        Some(s) => if s.unicode_len() > 0 {
            Some(s)
        } else {
            None
        },
        None => None,
    }
}

/// Whether a check-in was recorded: the stored mark is present and not empty.
pub fn has_checkin_flag(stored: &Option<String>) -> (r: bool)
    ensures
        r == (stored.is_some() && stored.unwrap()@.len() > 0),
{
    match stored {
        Some(s) => s.unicode_len() > 0,
        None => false,
    }
}

/// Enhanced mode is on when the user turned it on and is logged in.
pub fn get_enhanced_mode(enabled: bool, token: &Option<String>) -> (r: bool)
    ensures
        r == (enabled && token.is_some()),
{
    enabled && token.is_some()
}

/// Hidden content is shown when enhanced mode is on and the user asked for it.
pub fn show_hidden_content(enhanced_mode: bool, show_hidden: bool) -> (r: bool)
    ensures
        r == (enhanced_mode && show_hidden),
{
    enhanced_mode && show_hidden
}

/// The token that a request carries: the stored one, and only in enhanced mode.
pub fn request_token(token: Option<String>, enhanced_mode: bool) -> (r: Option<String>)
    ensures
        r == (if enhanced_mode {
            token
        } else {
            None
        }),
{
    if enhanced_mode {
        token
    } else {
        None
    }
}

/// Whether to check in on start: logged in, automatic check-in on, and not
/// checked in yet.
pub fn should_auto_check_in(logged_in: bool, auto_checkin: bool, checked_in: bool) -> (r: bool)
    ensures
        r == (logged_in && auto_checkin && !checked_in),
{
    logged_in && auto_checkin && !checked_in
}

/// Whether a notification asks for a check-in (with a user logged in).
pub fn notification_checks_in(notification: &str, logged_in: bool) -> (r: bool)
    ensures
        r == (notification@ == "checkin"@ && logged_in),
{
    let n = chars_of(notification);
    let c = chars_of("checkin");
    same_chars(&n, &c) && logged_in
}

/// The value of a text as `str::parse::<i64>` reads it.
pub fn parse_i64(s: &str) -> (r: Option<i64>)
    ensures
        r.is_some() == parsed_i64(s@).is_some(),
        r.is_some() ==> parsed_i64(s@) == Some(r.unwrap() as int),
{
    let cs = chars_of(s);
    let n = cs.len();
    let neg = n > 0 && cs[0] == '-';
    let start: usize = if n > 0 && (cs[0] == '+' || cs[0] == '-') {
        1
    } else {
        0
    };
    let ghost body = s@.subrange(start as int, n as int);
    assert(start == 1 ==> body =~= s@.drop_first());
    assert(start == 0 ==> body =~= s@);
    if start == n {
        return None;
    }
    let limit: i128 = 9223372036854775808;
    let mut acc: i128 = 0;
    let mut i = start;
    while i < n
        invariant
            cs@ == s@,
            n == cs@.len(),
            start <= i <= n,
            start <= 1,
            (s@.len() > 0 && (s@[0] == '+' || s@[0] == '-')) == (start == 1),
            neg == (s@.len() > 0 && s@[0] == '-'),
            body == s@.subrange(start as int, n as int),
            start == 1 ==> body == s@.drop_first(),
            start == 0 ==> body == s@,
            all_digits(s@.subrange(start as int, i as int)),
            acc == digits_value(s@.subrange(start as int, i as int)),
            0 <= acc <= limit,
            limit == 9223372036854775808,
        decreases n - i,
    {
        let c = cs[i];
        assert(s@.subrange(start as int, i + 1).drop_last() =~= s@.subrange(
            start as int,
            i as int,
        ));
        if !('0' <= c && c <= '9') {
            assert(body[i - start] == c);
            assert(!all_digits(body));
            return None;
        }
        let d = (c as u32 - '0' as u32) as i128;
        assert(digit_value(c) == d);
        let next = acc * 10 + d;
        if next > limit {
            proof {
                assert(s@.subrange(start as int, i + 1) =~= body.subrange(0, i + 1 - start));
                if all_digits(body) {
                    crate::models::lemma_digits_value_monotone(body, i + 1 - start);
                }
            }
            return None;
        }
        acc = next;
        i = i + 1;
    }
    assert(s@.subrange(start as int, n as int) == body);
    if neg {
        Some((-acc) as i64)
    } else if acc <= 9223372036854775807 {
        Some(acc as i64)
    } else {
        None
    }
}

/// Whether the hidden-content cache, stored at `cache_time` (seconds, as
/// text), is still valid at `now`: less than an hour has passed.
pub fn is_hidden_cache_valid(cache_time: &Option<String>, now: i64) -> (r: bool)
    ensures
        r == (cache_time.is_some() && parsed_i64(cache_time.unwrap()@).is_some() && now
            - parsed_i64(cache_time.unwrap()@).unwrap() < CACHE_EXPIRY_SECS),
{
    match cache_time {
        None => false,
        Some(t) => match parse_i64(t.as_str()) {
            None => false,
            Some(v) => (now as i128 - v as i128) < CACHE_EXPIRY_SECS as i128,
        },
    }
}

} // verus!
