//! Small text helpers.

use vstd::prelude::*;
use vstd::std_specs::iter::IteratorSpec;

verus! {

/// Whether `c` is one of the ASCII letters `A` to `Z`.
pub open spec fn is_ascii_upper(c: char) -> bool {
    'A' <= c && c <= 'Z'
}

/// The lower-case counterpart of an ASCII upper-case letter.
pub open spec fn ascii_lower(c: char) -> char
    recommends
        is_ascii_upper(c),
{
    ((c as u8 + 32) as u8) as char
}

/// The kebab-case form of a Pascal-case text: every ASCII upper-case letter
/// is lowered, and is preceded by a hyphen unless nothing has been produced
/// before it. Every other character is kept as it is.
pub open spec fn kebab_case(s: Seq<char>) -> Seq<char>
    decreases s.len(),
{
    if s.len() == 0 {
        Seq::empty()
    } else {
        let before = kebab_case(s.drop_last());
        let c = s.last();
        if is_ascii_upper(c) {
            if before.len() == 0 {
                before.push(ascii_lower(c))
            } else {
                before.push('-').push(ascii_lower(c))
            }
        } else {
            before.push(c)
        }
    }
}

/// Appends one character to a string, through `String::push` of the standard
/// library: the text afterwards is the text before followed by `c`.
#[verifier::external_body]
fn push_char(s: &mut String, c: char)
    ensures
        final(s)@ == old(s)@.push(c),
{
    s.push(c)
}

/// Convert an ASCII Pascal-case string to kebab case.
pub fn to_kebab_case(str: &str) -> (result: String)
    ensures
        result@ == kebab_case(str@),
{
    broadcast use vstd::string::axiom_spec_iter, vstd::string::next_postcondition;

    let mut result = String::new();
    let mut chars = str.chars();
    let ghost mut done: int = 0;
    assert(str@.take(0) =~= Seq::<char>::empty());
    assert(str@.skip(0) =~= str@);
    loop
        invariant
            0 <= done <= str@.len(),
            chars.remaining() == str@.skip(done),
            chars.decrease() is Some,
            result@ == kebab_case(str@.take(done)),
        ensures
            done == str@.len(),
        decreases str@.len() - done,
    {
        let ghost before = chars;
        let next = chars.next();
        match next {
            None => {
                break ;
            },
            Some(c) => {
                proof {
                    assert(c == str@[done]);
                    assert(str@.take(done + 1).drop_last() =~= str@.take(done));
                    assert(str@.take(done + 1).last() == c);
                    assert(str@.skip(done).drop_first() =~= str@.skip(done + 1));
                    done = done + 1;
                }
                if 'A' <= c && c <= 'Z' {
                    if !result.as_str().is_empty() {
                        push_char(&mut result, '-');
                    }
                    let lowered: u8 = c as u8 + 32;
                    push_char(&mut result, lowered as char);
                } else {
                    push_char(&mut result, c);
                }
            },
        }
    }
    assert(str@.take(done) =~= str@);
    result
}

} // verus!
