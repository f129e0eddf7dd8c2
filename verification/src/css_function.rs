//! CSS functions of three values and an alpha value, as the notations of colors
//! are: the name of the function, and in brackets its values with one space
//! between any two, and a slash before the alpha value where there is one.

use vstd::prelude::*;
use vstd::slice::slice_subrange;
use crate::css_types::{find_char, find_from, lemma_find_from, no_space};
use crate::text::{ascii_lower, chars_of, starts_with_ignoring_case, starts_with_word};

verus! {

/// The values of a function as they are written.
pub struct FunctionFields {
    pub first: Seq<char>,
    pub second: Seq<char>,
    pub third: Seq<char>,
    pub alpha: Option<Seq<char>>,
}

/// The three or four values of a function, with its name and brackets around them.
pub open spec fn function_text(
    name: Seq<char>,
    first: Seq<char>,
    second: Seq<char>,
    third: Seq<char>,
    alpha: Option<Seq<char>>,
) -> Seq<char> {
    let values = name + seq!['('] + first + seq![' '] + second + seq![' '] + third;
    match alpha {
        Some(a) => values + seq![' ', '/', ' '] + a + seq![')'],
        None => values + seq![')'],
    }
}

/// The characters that are held, where any are.
pub open spec fn held_text(chars: Option<Vec<char>>) -> Option<Seq<char>> {
    match chars {
        Some(c) => Some(c@),
        None => None,
    }
}

/// What stands between the brackets of a printed function.
pub open spec fn function_values_text(
    first: Seq<char>,
    second: Seq<char>,
    third: Seq<char>,
    alpha: Option<Seq<char>>,
) -> Seq<char> {
    let values = first + seq![' '] + second + seq![' '] + third;
    match alpha {
        Some(a) => values + seq![' ', '/', ' '] + a,
        None => values,
    }
}

/// The values that stand between the brackets of a function, or none if they do
/// not have the shape of three values, or of three values, a slash and a fourth,
/// with one space between any two. A value is what stands between two spaces.
pub open spec fn values_of(inner: Seq<char>) -> Option<FunctionFields> {
    let first_end = find_from(inner, ' ', 0);
    let second_end = find_from(inner, ' ', first_end + 1);
    let third_end = find_from(inner, ' ', second_end + 1);
    let slash_end = find_from(inner, ' ', third_end + 1);
    let alpha_end = find_from(inner, ' ', slash_end + 1);
    if second_end >= inner.len() {
        None
    } else {
        let first = inner.subrange(0, first_end);
        let second = inner.subrange(first_end + 1, second_end);
        let third = inner.subrange(second_end + 1, third_end);
        if third_end == inner.len() {
            Some(FunctionFields { first, second, third, alpha: None })
        } else if slash_end < inner.len() && alpha_end == inner.len() && inner.subrange(
            third_end + 1,
            slash_end,
        ) == seq!['/'] {
            Some(
                FunctionFields {
                    first,
                    second,
                    third,
                    alpha: Some(inner.subrange(slash_end + 1, alpha_end)),
                },
            )
        } else {
            None
        }
    }
}

/// The values of a function string, or none if the string does not have the shape
/// of the function of the given name: the name, in upper or lower case, and between
/// brackets what `values_of` knows as values. The name is given in lower case.
pub open spec fn function_fields(s: Seq<char>, name: Seq<char>) -> Option<FunctionFields> {
    if !starts_with_word(s, name + seq!['(']) || s.len() < name.len() + 2 || s.last() != ')' {
        None
    } else {
        values_of(s.subrange(name.len() + 1 as int, s.len() - 1))
    }
}

/// Puts the name of a function, brackets and spaces around its three or four values.
pub fn format_function(
    name: &str,
    first: Vec<char>,
    second: Vec<char>,
    third: Vec<char>,
    alpha: Option<Vec<char>>,
) -> (text: Vec<char>)
    ensures
        text@ == function_text(name@, first@, second@, third@, held_text(alpha)),
{
    let ghost wanted = function_text(name@, first@, second@, third@, held_text(alpha));
    let mut first = first;
    let mut second = second;
    let mut third = third;
    let mut text = chars_of(name);
    text.push('(');
    text.append(&mut first);
    text.push(' ');
    text.append(&mut second);
    text.push(' ');
    text.append(&mut third);
    match alpha {
        Some(mut a) => {
            text.push(' ');
            text.push('/');
            text.push(' ');
            text.append(&mut a);
        },
        None => {},
    }
    text.push(')');
    assert(text@ =~= wanted);
    text
}

/// Takes what stands between the brackets of a function apart: its three values
/// and, where there is one, its alpha value, or none if the shape is another.
pub fn values_between_brackets<'a>(inner: &'a [char]) -> (values: Option<
    (&'a [char], &'a [char], &'a [char], Option<&'a [char]>),
>)
    ensures
        match values_of(inner@) {
            None => values is None,
            Some(fields) => values matches Some(v) && v.0@ == fields.first && v.1@
                == fields.second && v.2@ == fields.third && match fields.alpha {
                None => v.3 is None,
                Some(alpha) => v.3 matches Some(a) && a@ == alpha,
            },
        },
{
    let first_end = find_char(inner, ' ', 0);
    if first_end >= inner.len() {
        return None;
    }
    let second_end = find_char(inner, ' ', first_end + 1);
    if second_end >= inner.len() {
        return None;
    }
    let third_end = find_char(inner, ' ', second_end + 1);
    let first = slice_subrange(inner, 0, first_end);
    let second = slice_subrange(inner, first_end + 1, second_end);
    let third = slice_subrange(inner, second_end + 1, third_end);
    if third_end == inner.len() {
        return Some((first, second, third, None));
    }
    let slash_end = find_char(inner, ' ', third_end + 1);
    if slash_end >= inner.len() {
        return None;
    }
    let alpha_end = find_char(inner, ' ', slash_end + 1);
    if alpha_end != inner.len() {
        return None;
    }
    let slash = slice_subrange(inner, third_end + 1, slash_end);
    if slash.len() != 1 || slash[0] != '/' {
        assert(slash@ != seq!['/']) by {
            if slash@.len() == 1 {
                assert(seq!['/'][0] == '/');
            }
        }
        return None;
    }
    assert(slash@ =~= seq!['/']);
    let alpha = slice_subrange(inner, slash_end + 1, alpha_end);
    Some((first, second, third, Some(alpha)))
}

/// Takes a function string apart: its three values and, where there is one, its
/// alpha value, or none if the string does not have the shape of the function of
/// the given name. The name is given in lower case.
pub fn function_values<'a>(chars: &'a [char], name: &str) -> (values: Option<
    (&'a [char], &'a [char], &'a [char], Option<&'a [char]>),
>)
    ensures
        match function_fields(chars@, name@) {
            None => values is None,
            Some(fields) => values matches Some(v) && v.0@ == fields.first && v.1@
                == fields.second && v.2@ == fields.third && match fields.alpha {
                None => v.3 is None,
                Some(alpha) => v.3 matches Some(a) && a@ == alpha,
            },
        },
{
    let name_len = name.unicode_len();
    let len = chars.len();
    if len < 2 || len - 2 < name_len || !starts_with_ignoring_case(chars, name)
        || chars[name_len] != '(' || chars[len - 1] != ')' {
        proof {
            let opening = name@ + seq!['('];
            if starts_with_word(chars@, opening) {
                assert forall|i: int| 0 <= i < name@.len() implies ascii_lower(
                    #[trigger] chars@[i],
                ) == name@[i] by {
                    assert(opening[i] == name@[i]);
                }
                assert(opening[name@.len() as int] == '(');
                assert(ascii_lower(chars@[name@.len() as int]) == '(');
            }
        }
        return None;
    }
    proof {
        let opening = name@ + seq!['('];
        assert forall|i: int| 0 <= i < opening.len() implies ascii_lower(#[trigger] chars@[i])
            == opening[i] by {
            if i < name@.len() {
                assert(opening[i] == name@[i]);
            }
        }
    }
    values_between_brackets(slice_subrange(chars, name_len + 1, len - 1))
}
/// A value without a space ends at the first space after its start, or where the
/// text ends.
pub proof fn lemma_field_end(before: Seq<char>, field: Seq<char>, after: Seq<char>)
    requires
        no_space(field),
        after.len() > 0 ==> after[0] == ' ',
    ensures
        find_from(before + field + after, ' ', before.len() as int) == before.len() + field.len(),
        (before + field + after).subrange(
            before.len() as int,
            (before.len() + field.len()) as int,
        ) == field,
{
    let text = before + field + after;
    let start = before.len() as int;
    let end = start + field.len();
    assert forall|i: int| start <= i < end implies text[i] != ' ' by {
        assert(text[i] == field[i - start]);
    }
    if after.len() > 0 {
        assert(text[end] == after[0]);
    }
    lemma_find_from(text, ' ', start, end);
    assert(text.subrange(start, end) =~= field);
}

/// A printed function starts with its name and an opening bracket and ends with a
/// closing bracket, and between the brackets stand its values.
pub proof fn lemma_function_text_brackets(
    name: Seq<char>,
    first: Seq<char>,
    second: Seq<char>,
    third: Seq<char>,
    alpha: Option<Seq<char>>,
)
    requires
        forall|i: int| 0 <= i < name.len() ==> ascii_lower(#[trigger] name[i]) == name[i],
    ensures
        ({
            let text = function_text(name, first, second, third, alpha);
            &&& starts_with_word(text, name + seq!['('])
            &&& text.len() >= name.len() + 2
            &&& text.last() == ')'
            &&& text.subrange(name.len() + 1 as int, text.len() - 1) == function_values_text(
                first,
                second,
                third,
                alpha,
            )
        }),
{
    let text = function_text(name, first, second, third, alpha);
    let opening = name + seq!['('];
    assert forall|i: int| 0 <= i < opening.len() implies ascii_lower(#[trigger] text[i])
        == opening[i] by {
        assert(text[i] == opening[i]);
        if i < name.len() {
            assert(opening[i] == name[i]);
        }
    }
    assert(text.subrange(name.len() + 1 as int, text.len() - 1) =~= function_values_text(
        first,
        second,
        third,
        alpha,
    ));
}

/// The values between the brackets of a printed function are the values that were
/// printed, where these are without a space.
#[verifier::spinoff_prover]
#[verifier::rlimit(80)]
pub proof fn lemma_values_of_text(
    first: Seq<char>,
    second: Seq<char>,
    third: Seq<char>,
    alpha: Option<Seq<char>>,
)
    requires
        no_space(first),
        no_space(second),
        no_space(third),
        alpha matches Some(a) ==> no_space(a),
    ensures
        values_of(function_values_text(first, second, third, alpha)) == Some(
            FunctionFields { first, second, third, alpha },
        ),
{
    let inner = function_values_text(first, second, third, alpha);
    let none = Seq::<char>::empty();
    let space = seq![' '];
    let tail = match alpha {
        Some(a) => seq![' ', '/', ' '] + a,
        None => none,
    };
    assert(inner =~= none + first + (space + second + space + third + tail));
    lemma_field_end(none, first, space + second + space + third + tail);
    assert(inner =~= (first + space) + second + (space + third + tail));
    lemma_field_end(first + space, second, space + third + tail);
    assert(inner =~= (first + space + second + space) + third + tail);
    lemma_field_end(first + space + second + space, third, tail);
    match alpha {
        None => {},
        Some(a) => {
            let slash = seq!['/'];
            assert(inner =~= (first + space + second + space + third + space) + slash + (space
                + a));
            lemma_field_end(first + space + second + space + third + space, slash, space + a);
            assert(inner =~= (first + space + second + space + third + space + slash + space)
                + a + none);
            lemma_field_end(
                first + space + second + space + third + space + slash + space,
                a,
                none,
            );
        },
    }
}

/// The values of a printed function are the values that were printed, where these
/// are without a space and the name is in lower case.
pub proof fn lemma_function_text_fields(
    name: Seq<char>,
    first: Seq<char>,
    second: Seq<char>,
    third: Seq<char>,
    alpha: Option<Seq<char>>,
)
    requires
        forall|i: int| 0 <= i < name.len() ==> ascii_lower(#[trigger] name[i]) == name[i],
        no_space(first),
        no_space(second),
        no_space(third),
        alpha matches Some(a) ==> no_space(a),
    ensures
        function_fields(function_text(name, first, second, third, alpha), name) == Some(
            FunctionFields { first, second, third, alpha },
        ),
{
    lemma_function_text_brackets(name, first, second, third, alpha);
    lemma_values_of_text(first, second, third, alpha);
}

} // verus!
