//! The naming rules for blocks and variables.

use crate::error::{Error, NamingErrors, NamingErrorsView};
use crate::text::{chars_of, string_of};
use vstd::prelude::*;
use vstd::string::*;

verus! {

/// An ASCII lower-case letter.
pub open spec fn is_lower(c: char) -> bool {
    'a' as u32 <= c as u32 && c as u32 <= 'z' as u32
}

/// An ASCII capital letter.
pub open spec fn is_upper(c: char) -> bool {
    'A' as u32 <= c as u32 && c as u32 <= 'Z' as u32
}

/// An ASCII digit.
pub open spec fn is_digit(c: char) -> bool {
    '0' as u32 <= c as u32 && c as u32 <= '9' as u32
}

/// Whether a name may begin with `c`. A block name (`lower_only`) takes no capitals.
pub open spec fn start_ok(c: char, lower_only: bool) -> bool {
    is_lower(c) || c == '_' || (!lower_only && is_upper(c))
}

/// Whether a name may hold `c` after its first character.
pub open spec fn rest_ok(c: char, lower_only: bool) -> bool {
    start_ok(c, lower_only) || is_digit(c)
}

/// A well-formed name: it is not empty, it begins with a letter or an
/// underscore, and letters, digits and underscores follow.
pub open spec fn is_name(s: Seq<char>, lower_only: bool) -> bool {
    &&& s.len() > 0
    &&& start_ok(s[0], lower_only)
    &&& forall|i: int| 1 <= i < s.len() ==> rest_ok(#[trigger] s[i], lower_only)
}

/// Block names match `[a-z_][a-z0-9_]*`.
pub open spec fn is_block_name(s: Seq<char>) -> bool {
    is_name(s, true)
}

/// Variable names match `[A-Za-z_][A-Za-z0-9_]*`.
pub open spec fn is_variable_name(s: Seq<char>) -> bool {
    is_name(s, false)
}

/// The position of the first character of `s` that a name may not hold
/// after its first character, or the length of `s` where there is none.
pub open spec fn first_invalid(s: Seq<char>, lower_only: bool) -> nat
    decreases s.len(),
{
    if s.len() == 0 || !rest_ok(s[0], lower_only) {
        0
    } else {
        1 + first_invalid(s.drop_first(), lower_only)
    }
}

/// What is wrong with a block name found on `line`, if anything: that it
/// is empty, else its first character where a name may not begin with it,
/// else the first of its later characters that a name may not hold.
pub open spec fn block_name_fault(line: u16, name: Seq<char>) -> Option<NamingErrorsView> {
    if name.len() == 0 {
        Some(NamingErrorsView::BlockNameEmpty)
    } else if !start_ok(name[0], true) {
        Some(NamingErrorsView::StartsWithInvalidCharacter(line, seq![name[0]]))
    } else {
        let k = first_invalid(name.drop_first(), true) as int;
        if k + 1 < name.len() {
            Some(NamingErrorsView::BlockContainsInvalidCharacter(line, seq![name[k + 1]]))
        } else {
            None
        }
    }
}

/// What is wrong with a variable name found on `line`, if anything.
pub open spec fn variable_name_fault(line: u16, name: Seq<char>) -> Option<NamingErrorsView> {
    if name.len() == 0 {
        Some(NamingErrorsView::VariableNameEmpty)
    } else if !start_ok(name[0], false) {
        Some(NamingErrorsView::StartsWithInvalidCharacter(line, seq![name[0]]))
    } else {
        let k = first_invalid(name.drop_first(), false) as int;
        if k + 1 < name.len() {
            Some(NamingErrorsView::VariableContainsInvalidCharacter(line, seq![name[k + 1]]))
        } else {
            None
        }
    }
}

/// The first invalid character is where one stands with none before it.
pub proof fn lemma_first_invalid_is(s: Seq<char>, lower_only: bool, k: int)
    requires
        0 <= k <= s.len(),
        forall|j: int| 0 <= j < k ==> rest_ok(#[trigger] s[j], lower_only),
        k < s.len() ==> !rest_ok(s[k], lower_only),
    ensures
        first_invalid(s, lower_only) == k,
    decreases s.len(),
{
    if s.len() == 0 || !rest_ok(s[0], lower_only) {
        if k > 0 {
            assert(rest_ok(s[0], lower_only));
        }
    } else {
        let t = s.drop_first();
        assert forall|j: int| 0 <= j < k - 1 implies rest_ok(#[trigger] t[j], lower_only) by {
            assert(t[j] == s[j + 1]);
        }
        lemma_first_invalid_is(t, lower_only, k - 1);
    }
}

/// Where the first invalid character stands, if there is one, and that
/// none stands before it.
pub proof fn lemma_first_invalid_bounds(s: Seq<char>, lower_only: bool)
    ensures
        first_invalid(s, lower_only) <= s.len(),
        first_invalid(s, lower_only) < s.len() ==> !rest_ok(
            s[first_invalid(s, lower_only) as int],
            lower_only,
        ),
        forall|j: int|
            0 <= j < first_invalid(s, lower_only) ==> rest_ok(#[trigger] s[j], lower_only),
    decreases s.len(),
{
    if s.len() == 0 || !rest_ok(s[0], lower_only) {
    } else {
        let t = s.drop_first();
        lemma_first_invalid_bounds(t, lower_only);
        assert forall|j: int| 0 <= j < first_invalid(s, lower_only) implies rest_ok(
            #[trigger] s[j],
            lower_only,
        ) by {
            if j > 0 {
                assert(s[j] == t[j - 1]);
            }
        }
    }
}

/// A block name is at fault exactly where it does not match `[a-z_][a-z0-9_]*`.
pub proof fn lemma_block_name_fault(line: u16, name: Seq<char>)
    ensures
        block_name_fault(line, name) is None <==> is_block_name(name),
{
    if name.len() > 0 && start_ok(name[0], true) {
        let t = name.drop_first();
        lemma_first_invalid_bounds(t, true);
        let k = first_invalid(t, true) as int;
        if k + 1 < name.len() {
            assert(t[k] == name[k + 1]);
        } else {
            assert forall|i: int| 1 <= i < name.len() implies rest_ok(#[trigger] name[i], true) by {
                assert(name[i] == t[i - 1]);
            }
        }
    }
}

/// A variable name is at fault exactly where it does not match `[A-Za-z_][A-Za-z0-9_]*`.
pub proof fn lemma_variable_name_fault(line: u16, name: Seq<char>)
    ensures
        variable_name_fault(line, name) is None <==> is_variable_name(name),
{
    if name.len() > 0 && start_ok(name[0], false) {
        let t = name.drop_first();
        lemma_first_invalid_bounds(t, false);
        let k = first_invalid(t, false) as int;
        if k + 1 < name.len() {
            assert(t[k] == name[k + 1]);
        } else {
            assert forall|i: int| 1 <= i < name.len() implies rest_ok(#[trigger] name[i], false) by {
                assert(name[i] == t[i - 1]);
            }
        }
    }
}

/// Whether a name may begin with `c`.
fn char_start_ok(c: char, lower_only: bool) -> (r: bool)
    ensures
        r == start_ok(c, lower_only),
{
    let u: u32 = c as u32;
    (97 <= u && u <= 122) || u == 95 || (!lower_only && 65 <= u && u <= 90)
}

/// Whether a name may hold `c` after its first character.
fn char_rest_ok(c: char, lower_only: bool) -> (r: bool)
    ensures
        r == rest_ok(c, lower_only),
{
    let u: u32 = c as u32;
    char_start_ok(c, lower_only) || (48 <= u && u <= 57)
}

/// The position in a non-empty name of the first character after the
/// first that a name may not hold; the length of the name where there is none.
fn scan_rest(chars: &Vec<char>, lower_only: bool) -> (k: usize)
    requires
        chars@.len() > 0,
    ensures
        1 <= k <= chars@.len(),
        k - 1 == first_invalid(chars@.drop_first(), lower_only),
{
    let n: usize = chars.len();
    let mut k: usize = 1;
    while k < n && char_rest_ok(chars[k], lower_only)
        invariant
            n == chars@.len(),
            1 <= k <= n,
            forall|j: int| 1 <= j < k ==> rest_ok(#[trigger] chars@[j], lower_only),
        decreases n - k,
    {
        k = k + 1;
    }
    proof {
        let t = chars@.drop_first();
        assert forall|j: int| 0 <= j < k - 1 implies rest_ok(#[trigger] t[j], lower_only) by {
            assert(t[j] == chars@[j + 1]);
        }
        lemma_first_invalid_is(t, lower_only, k - 1);
    }
    k
}

/// The character at `i`, as a string.
fn char_at(chars: &Vec<char>, i: usize) -> (s: String)
    requires
        i < chars@.len(),
    ensures
        s@ == seq![chars@[i as int]],
{
    assert(i < chars.len());
    let s = string_of(chars, i, i + 1);
    assert(s@ =~= seq![chars@[i as int]]);
    s
}

/// Checks a block name found on `line` (counted from 0) against
/// `[a-z_][a-z0-9_]*`. A name that matches is accepted; any other is
/// refused with its fault.
pub fn validate_block_name(line: u16, name: &str) -> (r: Result<(), Error>)
    ensures
        r is Ok <==> is_block_name(name@),
        match r {
            Ok(_) => block_name_fault(line, name@) is None,
            Err(e) => block_name_fault(line, name@) == Some(e@->NamingError_0) && e is NamingError,
        },
{
    proof {
        lemma_block_name_fault(line, name@);
    }
    if name.is_empty() {
        return Err(Error::NamingError(NamingErrors::BlockNameEmpty));
    }
    let chars = chars_of(name);
    if !char_start_ok(chars[0], true) {
        return Err(
            Error::NamingError(
                NamingErrors::StartsWithInvalidCharacter(line, char_at(&chars, 0)),
            ),
        );
    }
    let k = scan_rest(&chars, true);
    if k < chars.len() {
        return Err(
            Error::NamingError(
                NamingErrors::BlockContainsInvalidCharacter(line, char_at(&chars, k)),
            ),
        );
    }
    Ok(())
}

/// Checks a variable name found on `line` (counted from 0) against
/// `[A-Za-z_][A-Za-z0-9_]*`. A name that matches is accepted; any other is
/// refused with its fault.
pub fn validate_variable_name(line: u16, name: &str) -> (r: Result<(), Error>)
    ensures
        r is Ok <==> is_variable_name(name@),
        match r {
            Ok(_) => variable_name_fault(line, name@) is None,
            Err(e) => variable_name_fault(line, name@) == Some(e@->NamingError_0)
                && e is NamingError,
        },
{
    proof {
        lemma_variable_name_fault(line, name@);
    }
    if name.is_empty() {
        return Err(Error::NamingError(NamingErrors::VariableNameEmpty));
    }
    let chars = chars_of(name);
    if !char_start_ok(chars[0], false) {
        return Err(
            Error::NamingError(
                NamingErrors::StartsWithInvalidCharacter(line, char_at(&chars, 0)),
            ),
        );
    }
    let k = scan_rest(&chars, false);
    if k < chars.len() {
        return Err(
            Error::NamingError(
                NamingErrors::VariableContainsInvalidCharacter(line, char_at(&chars, k)),
            ),
        );
    }
    Ok(())
}

} // verus!
