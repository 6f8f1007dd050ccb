//! Shared bounds on request text: byte limits, required content, NUL and
//! control characters, and the messages that name the violated bound.
use vstd::prelude::*;

use crate::error::{bad_request_view, AppError, ErrorView};
use crate::text::{
    blank, byte_len, chars_eq, chars_of, contains_control, contains_char, decimal, decimal_chars,
    has_control, is_blank, lowercase_text, string_from_chars, to_lowercase, utf8_len,
};

verus! {

/// Text of at most `max` bytes, without NUL, and not blank when required.
pub open spec fn bounded_ok(v: Seq<char>, max: nat, required: bool) -> bool {
    utf8_len(v) <= max && !v.contains('\0') && !(required && is_blank(v))
}

/// As [`bounded_ok`], and without any control character.
pub open spec fn bounded_plain_ok(v: Seq<char>, max: nat, required: bool) -> bool {
    bounded_ok(v, max, required) && !contains_control(v)
}

pub open spec fn required_clause(required: bool) -> Seq<char> {
    if required {
        "be nonempty and "@
    } else {
        ""@
    }
}

/// "NAME must [be nonempty and ]contain at most MAX bytes and no NUL characters."
pub open spec fn bounded_message(name: Seq<char>, max: nat, required: bool) -> Seq<char> {
    name + " must "@ + required_clause(required) + "contain at most "@ + decimal(max)
        + " bytes and no NUL characters."@
}

/// "NAME must [be nonempty and ]contain at most MAX bytes and no control characters."
pub open spec fn bounded_plain_message(name: Seq<char>, max: nat, required: bool) -> Seq<char> {
    name + " must "@ + required_clause(required) + "contain at most "@ + decimal(max)
        + " bytes and no control characters."@
}

fn bound_message(name: &str, max: usize, required: bool, tail: &str) -> (s: String)
    ensures
        s@ == name@ + " must "@ + required_clause(required) + "contain at most "@ + decimal(
            max as nat,
        ) + tail@,
{
    let mut s = name.to_owned();
    s.append(" must ");
    if required {
        s.append("be nonempty and ");
    } else {
        proof {
            reveal_strlit("");
            assert(s@ + ""@ =~= s@);
        }
    }
    s.append("contain at most ");
    let digits = string_from_chars(&decimal_chars(max as u64));
    s.append(digits.as_str());
    s.append(tail);
    s
}

/// Bounded request text: at most `max` bytes, no NUL, nonempty when required.
pub fn check_bounded(value: &str, name: &str, max: usize, required: bool) -> (r: Result<
    (),
    AppError,
>)
    ensures
        r is Ok <==> bounded_ok(value@, max as nat, required),
        r matches Err(e) ==> e@ == bad_request_view(bounded_message(name@, max as nat, required)),
{
    if byte_len(value) > max || contains_char(value, '\0') || (required && blank(value)) {
        let message = bound_message(name, max, required, " bytes and no NUL characters.");
        return Err(AppError::with_message(400, "invalid_request", message));
    }
    Ok(())
}

/// Bounded request text that also refuses every control character.
pub fn check_bounded_plain(value: &str, name: &str, max: usize, required: bool) -> (r: Result<
    (),
    AppError,
>)
    ensures
        r is Ok <==> bounded_plain_ok(value@, max as nat, required),
        r matches Err(e) ==> e@ == bad_request_view(
            bounded_plain_message(name@, max as nat, required),
        ),
{
    if byte_len(value) > max || (required && blank(value)) || contains_char(value, '\0')
        || has_control(value) {
        let message = bound_message(name, max, required, " bytes and no control characters.");
        return Err(AppError::with_message(400, "invalid_request", message));
    }
    Ok(())
}


/// The character views of a sequence of strings.
pub open spec fn strings(v: Seq<String>) -> Seq<Seq<char>> {
    v.map_values(|s: String| s@)
}

/// The comparison key of a value: itself, or its lowercase form when case is ignored.
pub open spec fn key_of(s: Seq<char>, fold_case: bool) -> Seq<char> {
    if fold_case {
        lowercase_text(s)
    } else {
        s
    }
}

/// True when value `j` has the same key as some earlier value.
pub open spec fn repeats_earlier(vs: Seq<Seq<char>>, j: int, fold_case: bool) -> bool {
    exists|i: int| 0 <= i < j && #[trigger] key_of(vs[i], fold_case) == key_of(vs[j], fold_case)
}

/// The first rule broken by the first `n` values, checked in order: each must be bounded
/// required text of at most `max` bytes, and no key may repeat.
pub open spec fn unique_bounded_error(
    vs: Seq<Seq<char>>,
    n: nat,
    name: Seq<char>,
    max: nat,
    fold_case: bool,
    duplicate: Seq<char>,
) -> Option<ErrorView>
    decreases n,
{
    if n == 0 {
        None
    } else {
        let prev = unique_bounded_error(vs, (n - 1) as nat, name, max, fold_case, duplicate);
        if prev is Some {
            prev
        } else if !bounded_ok(vs[n - 1], max, true) {
            Some(bad_request_view(bounded_message(name, max, true)))
        } else if repeats_earlier(vs, n - 1, fold_case) {
            Some(bad_request_view(duplicate))
        } else {
            None
        }
    }
}

/// Once an error is found among the first `a` values, later values do not change it.
pub proof fn lemma_unique_error_stable(
    vs: Seq<Seq<char>>,
    a: nat,
    b: nat,
    name: Seq<char>,
    max: nat,
    fold_case: bool,
    duplicate: Seq<char>,
)
    requires
        a <= b,
        unique_bounded_error(vs, a, name, max, fold_case, duplicate) is Some,
    ensures
        unique_bounded_error(vs, b, name, max, fold_case, duplicate) == unique_bounded_error(
            vs,
            a,
            name,
            max,
            fold_case,
            duplicate,
        ),
    decreases b - a,
{
    if a < b {
        lemma_unique_error_stable(vs, a, (b - 1) as nat, name, max, fold_case, duplicate);
    }
}

/// The comparison key of one value, as characters.
fn key_chars(value: &str, fold_case: bool) -> (k: Vec<char>)
    ensures
        k@ == key_of(value@, fold_case),
{
    if fold_case {
        let lower = to_lowercase(value);
        chars_of(lower.as_str())
    } else {
        chars_of(value)
    }
}

/// Checks values in order: each bounded required text, no key repeated.
pub fn check_unique_bounded(
    values: &Vec<String>,
    name: &str,
    max: usize,
    fold_case: bool,
    duplicate: &str,
) -> (r: Result<(), AppError>)
    ensures
        match unique_bounded_error(
            strings(values@),
            values.len() as nat,
            name@,
            max as nat,
            fold_case,
            duplicate@,
        ) {
            None => r is Ok,
            Some(v) => (r matches Err(e) && e@ == v),
        },
{
    let ghost vs = strings(values@);
    let mut keys: Vec<Vec<char>> = Vec::new();
    let mut j: usize = 0;
    while j < values.len()
        invariant
            j <= values.len(),
            vs == strings(values@),
            keys.len() == j,
            forall|k: int| 0 <= k < j ==> (#[trigger] keys@[k])@ == key_of(vs[k], fold_case),
            unique_bounded_error(vs, j as nat, name@, max as nat, fold_case, duplicate@) is None,
        decreases values.len() - j,
    {
        let value = values[j].as_str();
        assert(value@ == vs[j as int]);
        let checked = check_bounded(value, name, max, true);
        if checked.is_err() {
            proof {
                lemma_unique_error_stable(vs, (j + 1) as nat, values.len() as nat, name@, max as nat, fold_case, duplicate@);
            }
            return checked;
        }
        let key = key_chars(value, fold_case);
        let mut i: usize = 0;
        while i < j
            invariant
                i <= j,
                j < values.len(),
                vs == strings(values@),
                keys.len() == j,
                key@ == key_of(vs[j as int], fold_case),
                bounded_ok(vs[j as int], max as nat, true),
                unique_bounded_error(vs, j as nat, name@, max as nat, fold_case, duplicate@) is None,
                forall|k: int| 0 <= k < j ==> (#[trigger] keys@[k])@ == key_of(vs[k], fold_case),
                forall|k: int| 0 <= k < i ==> key_of(vs[k], fold_case) != key_of(vs[j as int], fold_case),
            decreases j - i,
        {
            if chars_eq(&keys[i], &key) {
                proof {
                    assert(key_of(vs[i as int], fold_case) == key_of(vs[j as int], fold_case));
                    assert(repeats_earlier(vs, j as int, fold_case));
                    assert(unique_bounded_error(vs, (j + 1) as nat, name@, max as nat, fold_case, duplicate@)
                        == Some(bad_request_view(duplicate@)));
                    lemma_unique_error_stable(vs, (j + 1) as nat, values.len() as nat, name@, max as nat, fold_case, duplicate@);
                }
                return Err(AppError::bad_request(duplicate));
            }
            i = i + 1;
        }
        assert(!repeats_earlier(vs, j as int, fold_case));
        keys.push(key);
        j = j + 1;
    }
    Ok(())
}
} // verus!
