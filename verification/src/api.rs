//! Authorization checks for protected commands, over plain role
//! identifiers. The chat platform's member and role values stay outside
//! the library; the front-end hands in the sender's role list, if the
//! message carried one.

use vstd::prelude::*;

verus! {

use vstd::string::StrSliceExecFns;

/// Why an authorization check could not be answered.
#[derive(Clone, Copy, Debug, PartialEq, Eq, Structural)]
pub enum ApiError {
    /// The message carried no member, so no roles can be checked.
    MissingMember,
    /// The configured role is not a 64-bit decimal identifier.
    InvalidRoleId,
}

/// Whether `c` is a decimal digit.
pub open spec fn is_decimal_digit(c: char) -> bool {
    48 <= c as u32 <= 57
}

/// The value of the digit `c`.
pub open spec fn digit_value(c: char) -> int {
    c as u32 - 48
}

/// Whether `s` consists of decimal digits only.
pub open spec fn all_decimal_digits(s: Seq<char>) -> bool {
    forall|i: int| 0 <= i < s.len() ==> is_decimal_digit(s[i])
}

/// The number `s` spells in decimal.
pub open spec fn decimal_value(s: Seq<char>) -> int
    decreases s.len(),
{
    if s.len() == 0 {
        0
    } else {
        decimal_value(s.drop_last()) * 10 + digit_value(s.last())
    }
}

/// A string of digits spells a number that is not negative.
proof fn lemma_decimal_value_nonneg(s: Seq<char>)
    requires
        all_decimal_digits(s),
    ensures
        decimal_value(s) >= 0,
    decreases s.len(),
{
    if s.len() > 0 {
        assert(all_decimal_digits(s.drop_last()));
        lemma_decimal_value_nonneg(s.drop_last());
    }
}

/// Extending a digit string multiplies its prefix's value up: the whole
/// string spells at least what any prefix spells.
proof fn lemma_decimal_prefix_le(s: Seq<char>, i: int)
    requires
        all_decimal_digits(s),
        0 <= i <= s.len(),
    ensures
        decimal_value(s.take(i)) <= decimal_value(s),
    decreases s.len() - i,
{
    assert(all_decimal_digits(s.take(i)));
    if i == s.len() {
        assert(s.take(i) =~= s);
    } else {
        lemma_decimal_prefix_le(s, i + 1);
        assert(s.take(i + 1).drop_last() =~= s.take(i));
        lemma_decimal_value_nonneg(s.take(i));
        assert(decimal_value(s.take(i + 1)) == decimal_value(s.take(i)) * 10 + digit_value(
            s.take(i + 1).last(),
        ));
    }
}

/// Reads a decimal 64-bit identifier: succeeds on exactly the non-empty
/// all-digit strings whose value fits, and returns that value.
pub fn parse_u64(s: &str) -> (r: Option<u64>)
    ensures
        r is Some <==> (s@.len() > 0 && all_decimal_digits(s@) && decimal_value(s@) <= u64::MAX),
        r matches Some(v) ==> v as int == decimal_value(s@),
{
    let len = s.unicode_len();
    if len == 0 {
        return None;
    }
    let mut value: u64 = 0;
    let mut i: usize = 0;
    while i < len
        invariant
            0 < len == s@.len(),
            0 <= i <= len,
            all_decimal_digits(s@.take(i as int)),
            value as int == decimal_value(s@.take(i as int)),
        decreases len - i,
    {
        let c = s.get_char(i);
        let code = c as u32;
        if code < 48 || code > 57 {
            assert(!is_decimal_digit(s@[i as int]));
            return None;
        }
        let digit = (code - 48) as u64;
        proof {
            assert(s@.take(i as int + 1).drop_last() =~= s@.take(i as int));
        }
        if value > (u64::MAX - digit) / 10 {
            proof {
                assert(decimal_value(s@.take(i as int + 1)) > u64::MAX);
                if all_decimal_digits(s@) {
                    lemma_decimal_prefix_le(s@, i as int + 1);
                }
            }
            return None;
        }
        value = value * 10 + digit;
        i = i + 1;
    }
    proof {
        assert(s@.take(len as int) =~= s@);
    }
    Some(value)
}

/// Whether `v` holds `x`.
fn contains_u64(v: &Vec<u64>, x: u64) -> (r: bool)
    ensures
        r == v@.contains(x),
{
    let mut i: usize = 0;
    while i < v.len()
        invariant
            i <= v@.len(),
            forall|j: int| 0 <= j < i ==> v@[j] != x,
        decreases v@.len() - i,
    {
        if v[i] == x {
            assert(v@[i as int] == x);
            return true;
        }
        i = i + 1;
    }
    false
}

/// Determine if the member sending a message has the role: true exactly
/// when `role` appears in the sender's role list, and an error when the
/// message carried no member at all.
pub fn has_role(member_roles: &Option<Vec<u64>>, role: u64) -> (r: Result<bool, ApiError>)
    ensures
        member_roles is None ==> r == Err::<bool, ApiError>(ApiError::MissingMember),
        member_roles matches Some(roles) ==> r == Ok::<bool, ApiError>(roles@.contains(role)),
{
    match member_roles {
        None => Err(ApiError::MissingMember),
        Some(roles) => Ok(contains_u64(roles, role)),
    }
}

/// Permission policy for a protected command: a command configured with
/// no required role admits nobody this way; one configured with a role —
/// spelled as a decimal identifier — admits exactly the senders that
/// carry it, and a malformed identifier is its own error.
pub fn check_permission(member_roles: &Option<Vec<u64>>, required_role: Option<String>) -> (r:
    Result<bool, ApiError>)
    ensures
        required_role is None ==> r == Ok::<bool, ApiError>(false),
        required_role matches Some(rs) ==> {
            &&& !(rs@.len() > 0 && all_decimal_digits(rs@) && decimal_value(rs@) <= u64::MAX)
                ==> r == Err::<bool, ApiError>(ApiError::InvalidRoleId)
            &&& (rs@.len() > 0 && all_decimal_digits(rs@) && decimal_value(rs@) <= u64::MAX)
                ==> {
                &&& member_roles is None ==> r == Err::<bool, ApiError>(ApiError::MissingMember)
                &&& member_roles matches Some(roles) ==> r == Ok::<bool, ApiError>(
                    roles@.contains((decimal_value(rs@) as u64)),
                )
            }
        },
{
    match required_role {
        None => Ok(false),
        Some(rs) => match parse_u64(rs.as_str()) {
            None => Err(ApiError::InvalidRoleId),
            Some(rid) => has_role(member_roles, rid),
        },
    }
}

} // verus!
