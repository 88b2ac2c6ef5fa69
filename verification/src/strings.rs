//! Small string helpers: handing text in and out by value, by reference and
//! behind a shared pointer, joining names with a title, and collecting the
//! strings of one list that are longer than everything already held.

use std::rc::Rc;
use vstd::prelude::*;

verus! {

/// How many bytes a text occupies in its UTF-8 form; this is the length an
/// ordinary byte-length call reports.
pub open spec fn byte_len(s: Seq<char>) -> usize {
    vstd::utf8::encode_utf8(s).len() as usize
}

/// The texts joined with one space between neighbours.
pub open spec fn join_spaces(parts: Seq<Seq<char>>) -> Seq<char>
    decreases parts.len(),
{
    if parts.len() == 0 {
        Seq::empty()
    } else if parts.len() == 1 {
        parts[0]
    } else {
        join_spaces(parts.drop_last()) + seq![' '] + parts.last()
    }
}

/// The longest byte length among the texts.
pub open spec fn max_byte_len(parts: Seq<Seq<char>>) -> usize
    decreases parts.len(),
{
    if parts.len() == 0 {
        0
    } else {
        let rest = max_byte_len(parts.drop_last());
        if byte_len(parts.last()) > rest {
            byte_len(parts.last())
        } else {
            rest
        }
    }
}

/// The texts whose byte length is above the bound, in their order.
pub open spec fn keep_big(parts: Seq<Seq<char>>, bound: usize) -> Seq<Seq<char>>
    decreases parts.len(),
{
    if parts.len() == 0 {
        Seq::empty()
    } else {
        let rest = keep_big(parts.drop_last(), bound);
        if byte_len(parts.last()) > bound {
            rest.push(parts.last())
        } else {
            rest
        }
    }
}

/// Hands a freshly made string to the caller, moving ownership out.
pub fn gives_ownership() -> (r: String)
    ensures
        r@ == "your string"@,
{
    String::from_str("your string")
}

/// Takes a string and returns the very same string to the caller.
pub fn takes_and_gives(s: String) -> (r: String)
    ensures
        r == s,
{
    s
}

/// The byte length of a borrowed string.
pub fn calculate_length(s: &String) -> (len: usize)
    ensures
        len == byte_len(s@),
{
    s.as_str().len()
}

/// Returns a heap-allocated string by value.
pub fn return_a_string_value() -> (r: String)
    ensures
        r@ == "Hello"@,
{
    String::from_str("Hello")
}

/// Returns a string slice that lives for the whole program.
pub fn return_a_string_ref() -> (r: &'static str)
    ensures
        r@ == "Hello"@,
{
    "Hello"
}

/// Returns a string behind a reference-counted pointer.
pub fn return_a_rc_string() -> (r: Rc<String>)
    ensures
        r@ == "Hello"@,
{
    Rc::new(String::from_str("Hello"))
}

/// Fills a slot the caller owns with a fixed greeting.
pub fn return_string_to_slot(out: &mut String)
    ensures
        final(out)@ == "Hello"@,
{
    *out = String::from_str("Hello");
}

/// Joins the strings of a list with single spaces.
#[verifier::loop_isolation(false)]
fn join_with_space(parts: &Vec<String>) -> (r: String)
    ensures
        r@ == join_spaces(parts.deep_view()),
{
    let mut r = String::new();
    let mut i: usize = 0;
    while i < parts.len()
        invariant
            0 <= i <= parts@.len(),
            r@ == join_spaces(parts.deep_view().subrange(0, i as int)),
        decreases parts@.len() - i,
    {
        if i > 0 {
            r.append(" ");
            proof {
                reveal_strlit(" ");
                assert(" "@ =~= seq![' ']);
            }
        }
        r.append(parts[i].as_str());
        proof {
            let dv = parts.deep_view();
            let pre = dv.subrange(0, i as int);
            let post = dv.subrange(0, i + 1);
            assert(post.drop_last() =~= pre);
            assert(post.last() == dv[i as int]);
            if i == 0 {
                assert(r@ =~= post[0]);
            }
        }
        i = i + 1;
    }
    proof {
        assert(parts.deep_view().subrange(0, parts@.len() as int) =~= parts.deep_view());
    }
    r
}

/// Appends the title to the name list itself, then joins the list.
pub fn stringify_mutable_name_with_title(name: &mut Vec<String>) -> (full: String)
    ensures
        final(name).deep_view() == old(name).deep_view().push("Esq."@),
        full@ == join_spaces(final(name).deep_view()),
{
    name.push(String::from_str("Esq."));
    proof {
        assert(name.deep_view() =~= old(name).deep_view().push("Esq."@));
    }
    join_with_space(name)
}

/// Takes the name list over, appends the title, and joins the result.
pub fn stringify_my_name_with_title(name: Vec<String>) -> (full: String)
    ensures
        full@ == join_spaces(name.deep_view().push("Esq."@)),
{
    let mut owned = name;
    let ghost given = owned.deep_view();
    owned.push(String::from_str("Esq."));
    proof {
        assert(owned.deep_view() =~= given.push("Esq."@));
    }
    join_with_space(&owned)
}

/// Joins the name list as it stands and appends the title to the copy,
/// leaving the list itself untouched.
pub fn stringify_copied_name_with_title(name: &mut Vec<String>) -> (full: String)
    ensures
        final(name)@ == old(name)@,
        full@ == join_spaces(old(name).deep_view()) + " Esq."@,
{
    let mut full = join_with_space(name);
    full.append(" Esq.");
    full
}

/// Pushes onto `dst` a copy of every string in `src` that is longer, in
/// bytes, than the longest string `dst` already holds; `src` is read in
/// order and left alone.
#[verifier::loop_isolation(false)]
pub fn add_big_strings(dst: &mut Vec<String>, src: &[String])
    requires
        old(dst)@.len() > 0,
    ensures
        final(dst).deep_view() == old(dst).deep_view() + keep_big(
            src.deep_view(),
            max_byte_len(old(dst).deep_view()),
        ),
{
    let ghost dv0 = old(dst).deep_view();
    let mut largest_len: usize = 0;
    let mut i: usize = 0;
    while i < dst.len()
        invariant
            0 <= i <= dst@.len(),
            dst@ == old(dst)@,
            largest_len == max_byte_len(dv0.subrange(0, i as int)),
        decreases dst@.len() - i,
    {
        let candidate: usize = dst[i].as_str().len();
        proof {
            assert(dv0[i as int] == old(dst)@[i as int]@);
            assert(candidate == byte_len(dv0[i as int]));
            let pre = dv0.subrange(0, i as int);
            let post = dv0.subrange(0, i + 1);
            assert(post.drop_last() =~= pre);
            assert(post.last() == dv0[i as int]);
        }
        if candidate > largest_len {
            largest_len = candidate;
        }
        i = i + 1;
    }
    proof {
        assert(dv0.subrange(0, dv0.len() as int) =~= dv0);
    }
    let ghost bound = max_byte_len(dv0);

    let mut j: usize = 0;
    while j < src.len()
        invariant
            0 <= j <= src@.len(),
            dst.deep_view() == dv0 + keep_big(src.deep_view().subrange(0, j as int), bound),
        decreases src@.len() - j,
    {
        let ghost sv = src.deep_view();
        let candidate: usize = src[j].as_str().len();
        proof {
            assert(sv[j as int] == src@[j as int]@);
            assert(candidate == byte_len(sv[j as int]));
        }
        let ghost before = dst.deep_view();
        if candidate > largest_len {
            dst.push(src[j].clone());
            proof {
                assert(dst@.last()@ == sv[j as int]);
                assert(dst.deep_view() =~= before.push(sv[j as int]));
            }
        }
        proof {
            let pre = sv.subrange(0, j as int);
            let post = sv.subrange(0, j + 1);
            assert(post.drop_last() =~= pre);
            assert(post.last() == sv[j as int]);
            if byte_len(sv[j as int]) > bound {
                assert(dv0 + keep_big(post, bound) =~= (dv0 + keep_big(pre, bound)).push(
                    sv[j as int],
                ));
                assert(dst.deep_view() == before.push(sv[j as int]));
            }
        }
        j = j + 1;
    }
    proof {
        assert(src.deep_view().subrange(0, src.deep_view().len() as int) =~= src.deep_view());
    }
}

/// The other scale of the two the temperature menu offers.
pub open spec fn spec_inverse(s: Seq<char>) -> Seq<char> {
    if s == "Farenheit"@ {
        "Celsius"@
    } else if s == "Celsius"@ {
        "Farenheit"@
    } else {
        "Invalid"@
    }
}

/// Character-for-character string comparison.
#[verifier::loop_isolation(false)]
fn str_equal(a: &str, b: &str) -> (r: bool)
    ensures
        r == (a@ == b@),
{
    let na: usize = a.unicode_len();
    let nb: usize = b.unicode_len();
    if na != nb {
        return false;
    }
    let mut i: usize = 0;
    while i < na
        invariant
            0 <= i <= na == a@.len() == b@.len(),
            forall|k: int| 0 <= k < i ==> a@[k] == b@[k],
        decreases na - i,
    {
        if a.get_char(i) != b.get_char(i) {
            return false;
        }
        i = i + 1;
    }
    proof {
        assert(a@ =~= b@);
    }
    true
}

/// Maps each scale name to the one to convert from; anything else is
/// answered with a fixed marker.
pub fn get_inverse(selection: &str) -> (r: &str)
    ensures
        r@ == spec_inverse(selection@),
{
    if str_equal(selection, "Farenheit") {
        "Celsius"
    } else if str_equal(selection, "Celsius") {
        "Farenheit"
    } else {
        "Invalid"
    }
}

} // verus!
