use vstd::prelude::*;
use vstd::std_specs::iter::IteratorSpec;

verus! {

broadcast use vstd::string::next_postcondition, vstd::string::axiom_spec_iter;

/// The characters of a string, in order.
pub fn chars_of(s: &str) -> (r: Vec<char>)
    ensures
        r@ == s@,
{
    let mut it = s.chars();
    let mut r: Vec<char> = Vec::new();
    loop
        invariant
            r@ + it.remaining() == s@,
            it.obeys_prophetic_iter_laws(),
            it.decrease() is Some,
        ensures
            r@ == s@,
        decreases it.decrease()->0,
    {
        let ghost before = it;
        match it.next() {
            Some(c) => {
                r.push(c);
            },
            None => {
                assert(before.remaining().len() == 0);
                assert(r@ =~= s@);
                break;
            },
        }
    }
    r
}


/// What `char::is_alphanumeric` says of a character (Alphabetic or Numeric).
pub uninterp spec fn alphanumeric(c: char) -> bool;

/// An ASCII letter, `a` to `z` or `A` to `Z`: what may start a label.
pub open spec fn ascii_letter(c: char) -> bool {
    ('a' <= c && c <= 'z') || ('A' <= c && c <= 'Z')
}

fn is_ascii_letter(c: char) -> (r: bool)
    ensures
        r == ascii_letter(c),
{
    ('a' <= c && c <= 'z') || ('A' <= c && c <= 'Z')
}

/// Relies on `char::is_alphanumeric`, which depends on the character alone.
#[verifier::external_body]
fn is_alphanumeric_char(c: char) -> (r: bool)
    ensures
        r == alphanumeric(c),
{
    c.is_alphanumeric()
}

/// Relies on `String::push`: appends one character.
#[verifier::external_body]
fn push_char(s: &mut String, c: char)
    ensures
        final(s)@ == old(s)@.push(c),
{
    s.push(c)
}

/// Space, tab, line feed or carriage return.
pub open spec fn is_multispace(c: char) -> bool {
    c == ' ' || c == '\t' || c == '\n' || c == '\r'
}

/// The first position at or after `pos` that does not hold a space (or the end).
pub open spec fn spaces_end(input: Seq<char>, pos: int) -> int
    decreases input.len() - pos,
{
    if pos >= input.len() || pos < 0 {
        pos
    } else if is_multispace(input[pos]) {
        spaces_end(input, pos + 1)
    } else {
        pos
    }
}

pub open spec fn is_label_char(c: char) -> bool {
    c == '_' || alphanumeric(c)
}

/// The first position at or after `pos` that does not continue a label.
pub open spec fn label_end(input: Seq<char>, pos: int) -> int
    decreases input.len() - pos,
{
    if pos >= input.len() || pos < 0 {
        pos
    } else if is_label_char(input[pos]) {
        label_end(input, pos + 1)
    } else {
        pos
    }
}

proof fn lemma_ends_advance(input: Seq<char>, pos: int)
    requires
        0 <= pos <= input.len(),
    ensures
        pos <= spaces_end(input, pos) <= input.len(),
        pos <= label_end(input, pos) <= input.len(),
    decreases input.len() - pos,
{
    if pos < input.len() {
        lemma_ends_advance(input, pos + 1);
    }
}

pub fn skip_multispace(input: &Vec<char>, pos: usize) -> (r: usize)
    requires
        pos <= input@.len(),
    ensures
        r as int == spaces_end(input@, pos as int),
        pos <= r <= input@.len(),
{
    let mut i = pos;
    while i < input.len() && (input[i] == ' ' || input[i] == '\t' || input[i] == '\n' || input[i] == '\r')
        invariant
            pos <= i <= input@.len(),
            spaces_end(input@, pos as int) == spaces_end(input@, i as int),
        decreases input@.len() - i,
    {
        i = i + 1;
    }
    i
}

/// Whether `tag` stands in `input` at `pos`.
pub open spec fn tag_at(input: Seq<char>, pos: int, tag: Seq<char>) -> bool {
    pos + tag.len() <= input.len() && input.subrange(pos, pos + tag.len()) == tag
}

/// The position after `tag` if it stands at `pos`.
pub fn match_tag(input: &Vec<char>, pos: usize, tag: &Vec<char>) -> (r: Option<usize>)
    requires
        pos <= input@.len(),
    ensures
        r == (if tag_at(input@, pos as int, tag@) {
            Some((pos + tag@.len()) as usize)
        } else {
            None
        }),
        r matches Some(p) ==> p == pos + tag@.len() && p <= input@.len(),
{
    if tag.len() > input.len() - pos {
        return None;
    }
    let mut i: usize = 0;
    while i < tag.len()
        invariant
            i <= tag@.len(),
            pos + tag@.len() <= input@.len(),
            input@.len() <= usize::MAX,
            forall|j: int| 0 <= j < i ==> input@[pos + j] == tag@[j],
        decreases tag@.len() - i,
    {
        if input[pos + i] != tag[i] {
            proof {
                assert(input@.subrange(pos as int, pos + tag@.len())[i as int] != tag@[i as int]);
            }
            return None;
        }
        i = i + 1;
    }
    assert(input@.subrange(pos as int, pos + tag@.len()) =~= tag@);
    Some(pos + tag.len())
}

/// The position after the character `c` if it stands at `pos`.
pub fn match_char(input: &Vec<char>, pos: usize, c: char) -> (r: Option<usize>)
    requires
        pos <= input@.len(),
    ensures
        r == (if pos < input@.len() && input@[pos as int] == c {
            Some((pos + 1) as usize)
        } else {
            None
        }),
        r matches Some(p) ==> p == pos + 1 && p <= input@.len(),
{
    if pos < input.len() && input[pos] == c {
        Some(pos + 1)
    } else {
        None
    }
}

/// A label between optional spaces: an ASCII letter, then letters, digits and
/// underscores.
/// Gives the label and the position after the spaces that follow it.
pub fn parse_label_with_underscores(input: &Vec<char>, pos: usize) -> (r: Option<(String, usize)>)
    requires
        pos <= input@.len(),
    ensures
        ({
            let start = spaces_end(input@, pos as int);
            match r {
                Some((label, after)) => {
                    &&& start < input@.len()
                    &&& ascii_letter(input@[start])
                    &&& label@ == input@.subrange(start, label_end(input@, start + 1))
                    &&& after as int == spaces_end(input@, label_end(input@, start + 1))
                },
                None => start >= input@.len() || !ascii_letter(input@[start]),
            }
        }),
        r matches Some((_, after)) ==> pos < after <= input@.len(),
{
    let start = skip_multispace(input, pos);
    if start >= input.len() || !is_ascii_letter(input[start]) {
        return None;
    }
    let mut label = String::new();
    let mut i = start;
    let ghost end = label_end(input@, start + 1);
    loop
        invariant
            start <= i <= input@.len(),
            label_end(input@, i as int) == label_end(input@, start + 1) || i == start,
            i > start ==> label_end(input@, i as int) == end,
            label@ == input@.subrange(start as int, i as int),
            ascii_letter(input@[start as int]),
            start < input@.len(),
            end == label_end(input@, start + 1),
        ensures
            i as int == end,
            label@ == input@.subrange(start as int, end),
        decreases input@.len() - i,
    {
        if i >= input.len() {
            break;
        }
        let c = input[i];
        let cont = if i == start { true } else { c == '_' || is_alphanumeric_char(c) };
        if !cont {
            break;
        }
        let ghost before = label@;
        push_char(&mut label, c);
        assert(label@ =~= input@.subrange(start as int, i + 1));
        i = i + 1;
    }
    proof {
        lemma_ends_advance(input@, start + 1);
        lemma_ends_advance(input@, i as int);
    }
    let after = skip_multispace(input, i);
    Some((label, after))
}

/// A label, as above, that must be one of `reference_vec`: gives the index of its
/// first occurrence there.
pub fn parse_element_of_preexisting_vec_and_return_index(
    reference_vec: &Vec<String>,
    input: &Vec<char>,
    pos: usize,
) -> (r: Option<(usize, usize)>)
    requires
        pos <= input@.len(),
    ensures
        match r {
            Some((index, after)) => index < reference_vec@.len() && pos < after <= input@.len() && (forall|j: int|
                0 <= j < index ==> reference_vec@[j]@ != reference_vec@[index as int]@),
            None => true,
        },
{
    match parse_label_with_underscores(input, pos) {
        None => None,
        Some((lab, after)) => {
            let mut i: usize = 0;
            while i < reference_vec.len()
                invariant
                    i <= reference_vec@.len(),
                    pos < after <= input@.len(),
                    forall|j: int| 0 <= j < i ==> reference_vec@[j]@ != lab@,
                decreases reference_vec@.len() - i,
            {
                if reference_vec[i] == lab {
                    assert(reference_vec@[i as int]@ == lab@);
                    return Some((i, after));
                }
                i = i + 1;
            }
            None
        },
    }
}

} // verus!
