//! Small operations on strings, stated over their views as sequences of
//! characters.

use vstd::prelude::*;
use vstd::string::StringSliceAdditionalSpecFns;

verus! {

/// `arg` is `name`, then `=`, then a value that may be empty.
pub open spec fn equals_form(arg: Seq<char>, name: Seq<char>) -> bool {
    &&& arg.len() > name.len()
    &&& arg.subrange(0, name.len() as int) == name
    &&& arg[name.len() as int] == '='
}

/// What follows the first `=` in an argument of the form `name=value`.
pub open spec fn equals_value(arg: Seq<char>, name: Seq<char>) -> Seq<char> {
    arg.subrange(name.len() as int + 1, arg.len() as int)
}

/// `name`, then `=`, then `value`.
pub open spec fn joined(name: Seq<char>, value: Seq<char>) -> Seq<char> {
    name + seq!['='] + value
}

/// Whether two strings hold the same characters.
pub fn str_eq(a: &str, b: &str) -> (same: bool)
    ensures
        same == (a@ == b@),
{
    let left = a.as_bytes();
    let right = b.as_bytes();
    proof {
        vstd::utf8::encode_utf8_decode_utf8(a@);
        vstd::utf8::encode_utf8_decode_utf8(b@);
    }
    if left.len() != right.len() {
        return false;
    }
    let mut i: usize = 0;
    while i < left.len()
        invariant
            i <= left@.len(),
            left@.len() == right@.len(),
            left@ == a.spec_bytes(),
            right@ == b.spec_bytes(),
            forall|j: int| 0 <= j < i ==> left@[j] == right@[j],
        decreases left@.len() - i,
    {
        if left[i] != right[i] {
            assert(left@[i as int] != right@[i as int]);
            return false;
        }
        i += 1;
    }
    assert(left@ =~= right@);
    true
}

/// The value of an argument written as `name=value`, or `None` where `arg` is
/// not of that form.
pub fn split_equals(arg: &str, name: &str) -> (value: Option<String>)
    ensures
        equals_form(arg@, name@) ==> value is Some && value.unwrap()@ == equals_value(
            arg@,
            name@,
        ),
        !equals_form(arg@, name@) ==> value is None,
{
    let arg_len: usize = arg.unicode_len();
    let name_len: usize = name.unicode_len();
    if arg_len <= name_len {
        return None;
    }
    if !str_eq(arg.substring_char(0, name_len), name) {
        return None;
    }
    if arg.get_char(name_len) != '=' {
        return None;
    }
    Some(arg.substring_char(name_len + 1, arg_len).to_owned())
}

/// Builds `name=value`.
pub fn join_equals(name: &str, value: &str) -> (arg: String)
    ensures
        arg@ == joined(name@, value@),
        equals_form(arg@, name@),
        equals_value(arg@, name@) == value@,
{
    let mut arg = name.to_owned();
    arg.append("=");
    arg.append(value);
    proof {
        reveal_strlit("=");
        assert("="@ =~= seq!['=']);
        lemma_joined(name@, value@);
    }
    arg
}

/// An argument built as `name=value` is of the equals form and holds `value`.
pub proof fn lemma_joined(name: Seq<char>, value: Seq<char>)
    ensures
        equals_form(joined(name, value), name),
        equals_value(joined(name, value), name) == value,
{
    let arg = joined(name, value);
    assert(arg.subrange(0, name.len() as int) =~= name);
    assert(arg.subrange(name.len() as int + 1, arg.len() as int) =~= value);
}

/// Whether a character is white space, as `char::is_whitespace` tells it.
pub uninterp spec fn is_whitespace(c: char) -> bool;

/// `char::is_whitespace`: its answer is what [`is_whitespace`] names. Nothing
/// is claimed of which characters those are.
pub assume_specification[ char::is_whitespace ](c: char) -> (white: bool)
    ensures
        white == is_whitespace(c),
;

/// `s` without the white space at its end.
pub open spec fn spec_trim_end(s: Seq<char>) -> Seq<char>
    decreases s.len(),
{
    if s.len() > 0 && is_whitespace(s.last()) {
        spec_trim_end(s.drop_last())
    } else {
        s
    }
}

/// `s` without the white space at its end.
pub fn trim_end(s: &str) -> (trimmed: String)
    ensures
        trimmed@ == spec_trim_end(s@),
{
    let mut end: usize = s.unicode_len();
    assert(s@.subrange(0, end as int) =~= s@);
    while end > 0 && s.get_char(end - 1).is_whitespace()
        invariant
            end <= s@.len(),
            spec_trim_end(s@) == spec_trim_end(s@.subrange(0, end as int)),
        decreases end,
    {
        assert(s@.subrange(0, end as int).drop_last() =~= s@.subrange(0, end - 1));
        end -= 1;
    }
    s.substring_char(0, end).to_owned()
}

/// What is left after trimming ends in no white space, and what was cut off
/// is white space only.
pub proof fn lemma_trim_end(s: Seq<char>)
    ensures
        spec_trim_end(s).len() <= s.len(),
        spec_trim_end(s) == s.subrange(0, spec_trim_end(s).len() as int),
        spec_trim_end(s).len() > 0 ==> !is_whitespace(spec_trim_end(s).last()),
        forall|j: int| spec_trim_end(s).len() <= j < s.len() ==> is_whitespace(#[trigger] s[j]),
    decreases s.len(),
{
    if s.len() > 0 && is_whitespace(s.last()) {
        lemma_trim_end(s.drop_last());
        assert(spec_trim_end(s) =~= s.subrange(0, spec_trim_end(s).len() as int));
        assert forall|j: int| spec_trim_end(s).len() <= j < s.len() implies is_whitespace(
            #[trigger] s[j],
        ) by {
            if j < s.len() - 1 {
                assert(s.drop_last()[j] == s[j]);
            }
        }
    } else {
        assert(s =~= s.subrange(0, s.len() as int));
    }
}

} // verus!
