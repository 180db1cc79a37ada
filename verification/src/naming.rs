//! Names made from type names: `CreateOrder` becomes `create_order`, and a
//! code template gets the names of a context and its aggregate filled in.

use vstd::prelude::*;
use vstd::string::{StrSliceExecFns, StringExecFns};
use crate::text::{join, join3};

verus! {

/// True for the characters `char::is_uppercase` accepts.
pub uninterp spec fn upper_case(c: char) -> bool;

/// The lower-case form of a character, as `char::to_lowercase` yields it:
/// one character or more.
pub uninterp spec fn lower_case(c: char) -> Seq<char>;

/// A text with every occurrence of `from` replaced by `to`, as
/// `str::replace` computes it.
pub uninterp spec fn replaced(s: Seq<char>, from: Seq<char>, to: Seq<char>) -> Seq<char>;

/// True when `sep` stands in `s` at index `i`.
pub open spec fn occurs_at(s: Seq<char>, sep: Seq<char>, i: int) -> bool {
    0 <= i && i + sep.len() <= s.len() && s.subrange(i, i + sep.len()) == sep
}

/// True when `part` is what follows the last `sep` in `s`, or all of `s`
/// when `sep` does not occur in it.
pub open spec fn is_last_part(s: Seq<char>, sep: Seq<char>, part: Seq<char>) -> bool {
    ||| (forall|i: int| !occurs_at(s, sep, i)) && part == s
    ||| exists|j: int|
        {
            &&& #[trigger] occurs_at(s, sep, j)
            &&& forall|k: int| k > j ==> !occurs_at(s, sep, k)
            &&& part == s.subrange(j + sep.len(), s.len() as int)
        }
}

/// `char::is_uppercase`; the result is named by [`upper_case`].
#[verifier::external_body]
fn char_is_upper(c: char) -> (r: bool)
    ensures
        r == upper_case(c),
{
    c.is_uppercase()
}

/// `char::to_lowercase`, collected into a `String`; the result is named by
/// [`lower_case`] and has at least one character.
#[verifier::external_body]
fn char_lower(c: char) -> (r: String)
    ensures
        r@ == lower_case(c),
        r@.len() >= 1,
{
    c.to_lowercase().collect()
}

/// `str::rsplit` with a non-empty text as the separator, of which the first
/// piece is taken: what follows the last separator, or the whole text.
#[verifier::external_body]
fn last_part<'a>(s: &'a str, sep: &str) -> (r: &'a str)
    requires
        sep@.len() > 0,
    ensures
        is_last_part(s@, sep@, r@),
{
    s.rsplit(sep).next().unwrap_or(s)
}

/// `str::replace`; the result is named by [`replaced`].
#[verifier::external_body]
fn replace_all(s: &str, from: &str, to: &str) -> (r: String)
    ensures
        r@ == replaced(s@, from@, to@),
{
    s.replace(from, to)
}

/// What the character at index `i` contributes to the snake-case form: an
/// upper-case character its lower-case form, after an underscore unless it
/// is the first; any other character itself. With `whole` the lower-case
/// form is taken in full, without it only its first character.
pub open spec fn snake_piece(s: Seq<char>, i: int, whole: bool) -> Seq<char> {
    if upper_case(s[i]) {
        let lower = if whole {
            lower_case(s[i])
        } else {
            lower_case(s[i]).subrange(0, 1)
        };
        if i > 0 {
            seq!['_'] + lower
        } else {
            lower
        }
    } else {
        seq![s[i]]
    }
}

/// The snake-case form of the first `n` characters of `s`.
pub open spec fn snake_prefix(s: Seq<char>, n: int, whole: bool) -> Seq<char>
    decreases n,
{
    if n <= 0 {
        Seq::empty()
    } else {
        snake_prefix(s, n - 1, whole) + snake_piece(s, n - 1, whole)
    }
}

/// The snake-case form of a text.
pub open spec fn snake(s: Seq<char>, whole: bool) -> Seq<char> {
    snake_prefix(s, s.len() as int, whole)
}

fn snake_of(s: &str, whole: bool) -> (r: String)
    ensures
        r@ == snake(s@, whole),
{
    let n = s.unicode_len();
    let mut out = String::new();
    let mut i: usize = 0;
    proof {
        reveal_strlit("_");
    }
    while i < n
        invariant
            i <= n,
            n == s@.len(),
            "_"@ =~= seq!['_'],
            out@ == snake_prefix(s@, i as int, whole),
        decreases n - i,
    {
        let c = s.get_char(i);
        if char_is_upper(c) {
            if i > 0 {
                out.append("_");
            }
            let lower = char_lower(c);
            if whole {
                out.append(lower.as_str());
            } else {
                out.append(lower.as_str().substring_char(0, 1));
            }
            proof {
                assert(out@ =~= snake_prefix(s@, i as int, whole) + snake_piece(
                    s@,
                    i as int,
                    whole,
                ));
            }
        } else {
            out.append(s.substring_char(i, i + 1));
            proof {
                assert(s@.subrange(i as int, i + 1) =~= seq![s@[i as int]]);
            }
        }
        i += 1;
    }
    out
}

/// The snake-case form of a name in Pascal case: `CreateOrder` becomes
/// `create_order`. Of the lower-case form of each upper-case character the
/// first character is taken.
pub fn snake_case(s: &str) -> (r: String)
    ensures
        r@ == snake(s@, false),
{
    snake_of(s, false)
}

/// The snake-case form of the last segment of a type's path:
/// `orders::CreateOrder` becomes `create_order`.
pub fn type_name_to_snake_case(name: &str) -> (r: String)
    ensures
        exists|short: Seq<char>| #[trigger]
            is_last_part(name@, "::"@, short) && r@ == snake(short, true),
{
    proof {
        reveal_strlit("::");
    }
    let short = last_part(name, "::");
    snake_of(short, true)
}

/// The text `template` with the names of a context and its aggregate put
/// in the place of the markers, one replacement after the other: `CONTEXT`,
/// `AGGREGATE`, `AGGREGATE_LOWER`, `IAGGREGATERepository`,
/// `AGGREGATERepositoryImpl`.
pub open spec fn template_filled(
    template: Seq<char>,
    context: Seq<char>,
    aggregate: Seq<char>,
    aggregate_lower: Seq<char>,
) -> Seq<char> {
    replaced(
        replaced(
            replaced(
                replaced(replaced(template, "CONTEXT"@, context), "AGGREGATE"@, aggregate),
                "AGGREGATE_LOWER"@,
                aggregate_lower,
            ),
            "IAGGREGATERepository"@,
            "I"@ + aggregate + "Repository"@,
        ),
        "AGGREGATERepositoryImpl"@,
        aggregate + "RepositoryImpl"@,
    )
}

/// Fills a code template with the names of a context and its aggregate.
pub fn replace_template(template: &str, context: &str, aggregate: &str, aggregate_lower: &str) -> (r:
    String)
    ensures
        r@ == template_filled(template@, context@, aggregate@, aggregate_lower@),
{
    let first = replace_all(template, "CONTEXT", context);
    let second = replace_all(first.as_str(), "AGGREGATE", aggregate);
    let third = replace_all(second.as_str(), "AGGREGATE_LOWER", aggregate_lower);
    let interface = join3("I", aggregate, "Repository");
    let fourth = replace_all(third.as_str(), "IAGGREGATERepository", interface.as_str());
    let implementation = join(aggregate, "RepositoryImpl");
    replace_all(fourth.as_str(), "AGGREGATERepositoryImpl", implementation.as_str())
}

} // verus!
