//! The shape of what is configured.

use crate::text::push_char;
use vstd::prelude::*;

verus! {

/// `text` with a slash at its end: itself where it ends with one.
pub open spec fn with_trailing_slash(text: Seq<char>) -> Seq<char> {
    if text.len() > 0 && text.last() == '/' {
        text
    } else {
        text.push('/')
    }
}

/// The base address `address` as a path to resolve other paths against: with a slash
/// at its end.
pub fn base_path(address: &str) -> (path: String)
    ensures
        path@ == with_trailing_slash(address@),
{
    let mut path = String::new();
    let mut ends_with_slash = false;
    for c in it: address.chars()
        invariant
            it.seq() == address@,
            path@ == address@.take(it.index() as int),
            ends_with_slash == (it.index() > 0 && address@[it.index() - 1] == '/'),
    {
        push_char(&mut path, c);
        ends_with_slash = c == '/';
        assert(address@.take(it.index() + 1) =~= address@.take(it.index() as int).push(c));
    }
    assert(address@.take(address@.len() as int) =~= address@);
    if !ends_with_slash {
        push_char(&mut path, '/');
    }
    path
}

} // verus!
