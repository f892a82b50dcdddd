//! Input validation rules and string sanitation.
//!
//! Length bounds follow the byte length of the UTF-8 encoding, which
//! is what the storage layer measures.  Each rule states exactly the
//! inputs it accepts and the error message it produces otherwise.

use vstd::prelude::*;
use vstd::string::StringSliceAdditionalSpecFns;
use vstd::utf8::encode_utf8;

use crate::errors::AppError;
use crate::text::{byte_len, contains_char};

verus! {

/// Unicode whitespace, as stripped from user-supplied strings: the
/// characters with the White_Space property -- tab through carriage
/// return, space, next line, no-break space, ogham space mark, the
/// en-quad to hair-space range, line and paragraph separators, narrow
/// no-break space, medium mathematical space, and ideographic space.
pub open spec fn is_space(c: char) -> bool {
    let u = c as u32;
    (9 <= u && u <= 13) || u == 32 || u == 0x85 || u == 0xa0 || u == 0x1680 || (0x2000 <= u && u
        <= 0x200a) || u == 0x2028 || u == 0x2029 || u == 0x202f || u == 0x205f || u == 0x3000
}

/// `s` with leading whitespace removed.
pub open spec fn spec_trim_front(s: Seq<char>) -> Seq<char>
    decreases s.len(),
{
    if s.len() > 0 && is_space(s.first()) {
        spec_trim_front(s.drop_first())
    } else {
        s
    }
}

/// `s` with trailing whitespace removed.
pub open spec fn spec_trim_back(s: Seq<char>) -> Seq<char>
    decreases s.len(),
{
    if s.len() > 0 && is_space(s.last()) {
        spec_trim_back(s.drop_last())
    } else {
        s
    }
}

/// `s` with leading and trailing whitespace removed.
pub open spec fn spec_trim(s: Seq<char>) -> Seq<char> {
    spec_trim_back(spec_trim_front(s))
}

fn is_space_char(c: char) -> (r: bool)
    ensures
        r == is_space(c),
{
    let u = c as u32;
    (9 <= u && u <= 13) || u == 32 || u == 0x85 || u == 0xa0 || u == 0x1680 || (0x2000 <= u && u
        <= 0x200a) || u == 0x2028 || u == 0x2029 || u == 0x202f || u == 0x205f || u == 0x3000
}

proof fn lemma_trim_front_prefix(s: Seq<char>, k: int)
    requires
        0 <= k <= s.len(),
        forall|j: int| 0 <= j < k ==> is_space(#[trigger] s[j]),
        k < s.len() ==> !is_space(s[k]),
    ensures
        spec_trim_front(s) == s.skip(k),
    decreases k,
{
    if k == 0 {
        assert(s.skip(0) =~= s);
    } else {
        assert(is_space(s.first()));
        lemma_trim_front_prefix(s.drop_first(), k - 1);
        assert(s.drop_first().skip(k - 1) =~= s.skip(k));
    }
}

proof fn lemma_trim_back_suffix(s: Seq<char>, e: int)
    requires
        0 <= e <= s.len(),
        forall|j: int| e <= j < s.len() ==> is_space(#[trigger] s[j]),
        e > 0 ==> !is_space(s[e - 1]),
    ensures
        spec_trim_back(s) == s.take(e),
    decreases s.len() - e,
{
    if e == s.len() {
        if s.len() > 0 && is_space(s.last()) {
            assert(!is_space(s[e - 1]));
        }
        assert(s.take(e) =~= s);
    } else {
        assert(is_space(s.last()));
        lemma_trim_back_suffix(s.drop_last(), e);
        assert(s.drop_last().take(e) =~= s.take(e));
    }
}

/// Strip leading and trailing whitespace from a user-supplied string.
pub fn sanitize_string(input: &str) -> (r: String)
    ensures
        r@ == spec_trim(input@),
{
    let n = input.unicode_len();
    let mut start: usize = 0;
    while start < n && is_space_char(input.get_char(start))
        invariant
            n == input@.len(),
            start <= n,
            forall|j: int| 0 <= j < start ==> is_space(#[trigger] input@[j]),
        decreases n - start,
    {
        start += 1;
    }
    let mut end: usize = n;
    while end > start && is_space_char(input.get_char(end - 1))
        invariant
            n == input@.len(),
            start <= end <= n,
            forall|j: int| end <= j < n ==> is_space(#[trigger] input@[j]),
        decreases end,
    {
        end -= 1;
    }
    let out = input.substring_char(start, end);
    proof {
        lemma_trim_front_prefix(input@, start as int);
        let front = input@.skip(start as int);
        assert forall|j: int| end - start <= j < front.len() implies is_space(
            #[trigger] front[j],
        ) by {
            assert(front[j] == input@[start + j]);
        }
        if end > start {
            assert(front[end - start - 1] == input@[end - 1]);
        }
        lemma_trim_back_suffix(front, end - start);
        assert(front.take(end - start) =~= input@.subrange(start as int, end as int));
    }
    out.to_owned()
}

/// The emails the service accepts: an `@` somewhere, and a byte
/// length between 5 and 255.
pub open spec fn spec_email_accepted(email: Seq<char>) -> bool {
    email.contains('@') && 5 <= encode_utf8(email).len() <= 255
}

/// The passwords the service accepts: a byte length between 8 and 128.
pub open spec fn spec_password_accepted(password: Seq<char>) -> bool {
    8 <= encode_utf8(password).len() <= 128
}

/// An email is accepted when it contains an `@` and its byte length
/// lies between 5 and 255.
pub fn validate_email(email: &str) -> (r: Result<(), AppError>)
    ensures
        r is Ok <==> spec_email_accepted(email@),
        r matches Err(e) ==> e matches AppError::ValidationError(m) && m@
            == "Invalid email format"@,
{
    if !contains_char(email, '@') || byte_len(email) < 5 || byte_len(email) > 255 {
        return Err(AppError::ValidationError(String::from_str("Invalid email format")));
    }
    Ok(())
}

/// A password is accepted when its byte length lies between 8 and 128.
pub fn validate_password(password: &str) -> (r: Result<(), AppError>)
    ensures
        r is Ok <==> spec_password_accepted(password@),
        password.spec_bytes().len() < 8 ==> (r matches Err(e) && e
            matches AppError::ValidationError(m) && m@
            == "Password must be at least 8 characters"@),
        password.spec_bytes().len() > 128 ==> (r matches Err(e) && e
            matches AppError::ValidationError(m) && m@
            == "Password must be less than 128 characters"@),
{
    if byte_len(password) < 8 {
        return Err(
            AppError::ValidationError(String::from_str("Password must be at least 8 characters")),
        );
    }
    if byte_len(password) > 128 {
        return Err(
            AppError::ValidationError(
                String::from_str("Password must be less than 128 characters"),
            ),
        );
    }
    Ok(())
}

/// The digits of `n` in decimal, most significant first.
pub open spec fn spec_decimal(n: nat) -> Seq<char>
    decreases n,
{
    if n < 10 {
        seq![spec_digit_char(n as int)]
    } else {
        spec_decimal(n / 10).push(spec_digit_char((n % 10) as int))
    }
}

/// The character for one decimal digit.
pub open spec fn spec_digit_char(d: int) -> char {
    if d == 0 {
        '0'
    } else if d == 1 {
        '1'
    } else if d == 2 {
        '2'
    } else if d == 3 {
        '3'
    } else if d == 4 {
        '4'
    } else if d == 5 {
        '5'
    } else if d == 6 {
        '6'
    } else if d == 7 {
        '7'
    } else if d == 8 {
        '8'
    } else {
        '9'
    }
}

fn digit_str(d: u64) -> (r: &'static str)
    requires
        d < 10,
    ensures
        r@ == seq![spec_digit_char(d as int)],
{
    proof {
        reveal_strlit("0");
        reveal_strlit("1");
        reveal_strlit("2");
        reveal_strlit("3");
        reveal_strlit("4");
        reveal_strlit("5");
        reveal_strlit("6");
        reveal_strlit("7");
        reveal_strlit("8");
        reveal_strlit("9");
    }
    let r = match d {
        0 => "0",
        1 => "1",
        2 => "2",
        3 => "3",
        4 => "4",
        5 => "5",
        6 => "6",
        7 => "7",
        8 => "8",
        _ => "9",
    };
    proof {
        assert(r@ =~= seq![spec_digit_char(d as int)]);
    }
    r
}

/// Append the decimal rendering of `n` to `out`.
fn push_decimal(out: &mut String, n: u64)
    ensures
        final(out)@ == old(out)@ + spec_decimal(n as nat),
    decreases n,
{
    if n >= 10 {
        push_decimal(out, n / 10);
    }
    out.append(digit_str(n % 10));
    proof {
        if n < 10 {
            assert(old(out)@ + spec_decimal(n as nat) =~= old(out)@ + seq![
                spec_digit_char(n as int),
            ]);
        } else {
            assert(old(out)@ + spec_decimal(n as nat) =~= (old(out)@ + spec_decimal(
                (n / 10) as nat,
            )) + seq![spec_digit_char((n % 10) as int)]);
        }
        assert(out@ =~= old(out)@ + spec_decimal(n as nat));
    }
}

/// The message produced when a note body exceeds the size cap.
pub open spec fn spec_content_error_message(max_size: nat) -> Seq<char> {
    "Note content exceeds maximum size of "@ + spec_decimal(max_size) + " bytes"@
}

/// A note body is accepted up to `max_size` bytes.
pub fn validate_note_content(content: &str, max_size: usize) -> (r: Result<(), AppError>)
    ensures
        r is Ok <==> content.spec_bytes().len() <= max_size,
        r matches Err(e) ==> e matches AppError::ValidationError(m) && m@
            == spec_content_error_message(max_size as nat),
{
    if byte_len(content) > max_size {
        let mut message = String::from_str("Note content exceeds maximum size of ");
        push_decimal(&mut message, max_size as u64);
        message.append(" bytes");
        proof {
            assert(message@ =~= spec_content_error_message(max_size as nat));
        }
        return Err(AppError::ValidationError(message));
    }
    Ok(())
}

/// A note title is accepted when it is nonempty and at most 255 bytes.
pub fn validate_note_title(title: &str) -> (r: Result<(), AppError>)
    ensures
        r is Ok <==> title@.len() > 0 && title.spec_bytes().len() <= 255,
        title@.len() == 0 ==> (r matches Err(e) && e matches AppError::ValidationError(m) && m@
            == "Note title cannot be empty"@),
        title@.len() > 0 && title.spec_bytes().len() > 255 ==> (r matches Err(e) && e
            matches AppError::ValidationError(m) && m@
            == "Note title must be less than 255 characters"@),
{
    if title.is_empty() {
        return Err(AppError::ValidationError(String::from_str("Note title cannot be empty")));
    }
    if byte_len(title) > 255 {
        return Err(
            AppError::ValidationError(
                String::from_str("Note title must be less than 255 characters"),
            ),
        );
    }
    Ok(())
}

/// A tag name is accepted when it is nonempty and at most 50 bytes.
pub fn validate_tag_name(name: &str) -> (r: Result<(), AppError>)
    ensures
        r is Ok <==> name@.len() > 0 && name.spec_bytes().len() <= 50,
        r matches Err(e) ==> e matches AppError::ValidationError(m) && m@
            == "Tag name must be between 1 and 50 characters"@,
{
    if name.is_empty() || byte_len(name) > 50 {
        return Err(
            AppError::ValidationError(
                String::from_str("Tag name must be between 1 and 50 characters"),
            ),
        );
    }
    Ok(())
}

} // verus!
