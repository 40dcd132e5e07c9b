//! Correlation tokens: every probe goes out under a token of its own, which
//! the answers name.

use crate::entity::{escape, lemma_escape_plain};
use crate::text::{append_chars, append_str, chars_of, string_of};
use vstd::prelude::*;

verus! {

/// A digit of lower-case hexadecimal.
pub open spec fn is_lower_hex(c: char) -> bool {
    (0x30 <= c as u32 <= 0x39) || (0x61 <= c as u32 <= 0x66)
}

/// The hyphenated form of a UUID: 36 characters, hyphens at the places 8,
/// 13, 18 and 23, lower-case hexadecimal digits everywhere else.
pub open spec fn is_uuid_text(s: Seq<char>) -> bool {
    &&& s.len() == 36
    &&& forall|i: int|
        0 <= i < 36 ==> if i == 8 || i == 13 || i == 18 || i == 23 {
            #[trigger] s[i] == '-'
        } else {
            is_lower_hex(#[trigger] s[i])
        }
}

/// The hyphenated form of a random UUID: the digit at the place 14 tells
/// the version, 4, and the digit at the place 19 the variant, one of `8`,
/// `9`, `a` and `b`.
pub open spec fn is_random_uuid_text(s: Seq<char>) -> bool {
    &&& is_uuid_text(s)
    &&& s[14] == '4'
    &&& (s[19] == '8' || s[19] == '9' || s[19] == 'a' || s[19] == 'b')
}

/// A correlation token as this library makes them: `uuid:` and a random
/// UUID.
pub open spec fn is_message_id(s: Seq<char>) -> bool {
    s.len() == 41 && s.subrange(0, 5) == "uuid:"@ && is_random_uuid_text(s.subrange(5, 41))
}

/// Trusted: `Uuid::new_v4` of the crate uuid, formatted by its `Display`.
/// The crate draws 16 random bytes from the operating system, sets the
/// version to 4 and the variant to that of RFC 4122, and writes the bytes
/// as 32 lower-case hexadecimal digits in five groups, with hyphens at the
/// places 8, 13, 18 and 23. Which digits come is open, so the contract
/// states the form alone. The call panics where the operating system gives
/// no random bytes.
#[verifier::external_body]
pub(crate) fn random_uuid() -> (s: String)
    ensures
        is_random_uuid_text(s@),
{
    uuid::Uuid::new_v4().to_string()
}

/// Whether `s` has the hyphenated form of a UUID.
pub fn has_uuid_form(s: &Vec<char>) -> (b: bool)
    ensures
        b == is_uuid_text(s@),
{
    if s.len() != 36 {
        return false;
    }
    let mut i: usize = 0;
    while i < 36
        invariant
            s.len() == 36,
            i <= 36,
            forall|k: int|
                0 <= k < i ==> if k == 8 || k == 13 || k == 18 || k == 23 {
                    #[trigger] s@[k] == '-'
                } else {
                    is_lower_hex(#[trigger] s@[k])
                },
        decreases 36 - i,
    {
        let c = s[i];
        let n: u32 = c as u32;
        let fits = if i == 8 || i == 13 || i == 18 || i == 23 {
            c == '-'
        } else {
            (0x30 <= n && n <= 0x39) || (0x61 <= n && n <= 0x66)
        };
        if !fits {
            return false;
        }
        i += 1;
    }
    true
}

/// A token as this library makes them holds no character that markup
/// gives a meaning to: it is written into a message as it stands.
pub proof fn lemma_message_id_is_plain(s: Seq<char>)
    requires
        is_message_id(s),
    ensures
        escape(s) == s,
{
    reveal_strlit("uuid:");
    assert forall|i: int| 0 <= i < s.len() implies s[i] != '<' && s[i] != '>' && s[i] != '&' by {
        if i < 5 {
            assert(s[i] == s.subrange(0, 5)[i]);
        } else {
            assert(s[i] == s.subrange(5, 41)[i - 5]);
        }
    }
    lemma_escape_plain(s);
}

/// A new correlation token: `uuid:` and a random UUID.
pub fn fresh_message_id() -> (id: String)
    ensures
        is_message_id(id@),
{
    let uuid = random_uuid();
    let mut out: Vec<char> = Vec::new();
    append_str(&mut out, "uuid:");
    let digits = chars_of(uuid.as_str());
    append_chars(&mut out, &digits);
    proof {
        reveal_strlit("uuid:");
        assert(out@.subrange(0, 5) =~= "uuid:"@);
        assert(out@.subrange(5, 41) =~= uuid@);
    }
    string_of(&out)
}

/// Whether `token` has the form of the tokens that this library makes.
pub fn is_fresh_form(token: &str) -> (b: bool)
    ensures
        b == is_message_id(token@),
{
    let t = chars_of(token);
    if t.len() != 41 {
        return false;
    }
    let scheme = chars_of("uuid:");
    proof {
        reveal_strlit("uuid:");
    }
    if !crate::text::has_at(&t, 0, &scheme) {
        return false;
    }
    let rest = crate::text::copy_range(&t, 5, 41);
    has_uuid_form(&rest) && rest[14] == '4' && (rest[19] == '8' || rest[19] == '9' || rest[19]
        == 'a' || rest[19] == 'b')
}

} // verus!
