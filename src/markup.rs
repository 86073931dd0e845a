//! Plain text out of a fragment of HTML.
use vstd::prelude::*;

verus! {

/// Whether a tag is open after reading `s`: the last `<` or `>` in it is a `<`.
pub open spec fn inside_tag(s: Seq<char>) -> bool
    decreases s.len(),
{
    if s.len() == 0 {
        false
    } else if s.last() == '<' {
        true
    } else if s.last() == '>' {
        false
    } else {
        inside_tag(s.drop_last())
    }
}

/// `s` without its tags: every `<` and `>` dropped, and every character
/// between a `<` and the next `>`.
pub open spec fn without_tags(s: Seq<char>) -> Seq<char>
    decreases s.len(),
{
    if s.len() == 0 {
        Seq::empty()
    } else {
        let c = s.last();
        let p = s.drop_last();
        if c == '<' || c == '>' || inside_tag(p) {
            without_tags(p)
        } else {
            without_tags(p).push(c)
        }
    }
}

/// Removes the tags of `input`, keeping the text between them.
pub fn remove_tags(input: &str) -> (r: String)
    ensures
        r@ == without_tags(input@),
{
    let mut result = String::new();
    let mut inside = false;
    let len = input.unicode_len();
    let mut i: usize = 0;
    while i < len
        invariant
            i <= len,
            len == input@.len(),
            inside == inside_tag(input@.subrange(0, i as int)),
            result@ == without_tags(input@.subrange(0, i as int)),
        decreases len - i,
    {
        let ch = input.get_char(i);
        let ghost next = input@.subrange(0, i + 1);
        assert(next.drop_last() =~= input@.subrange(0, i as int));
        assert(next.last() == ch);
        if ch == '<' {
            inside = true;
        } else if ch == '>' {
            inside = false;
        } else if !inside {
            result.append(input.substring_char(i, i + 1));
        }
        i += 1;
    }
    assert(input@.subrange(0, len as int) =~= input@);
    result
}

} // verus!
