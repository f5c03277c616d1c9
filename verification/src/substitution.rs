//! Replacing what an expression finds in a text, and copying the rest.

use crate::pattern::{captures_fit, Capture};
use crate::text::{byte_len, byte_slice, lemma_byte_slice_all, on_boundary, slice, slice_from};
use vstd::prelude::*;
use vstd::string::StringExecFns;

verus! {

/// Texts to put in place of identifiers.
pub trait Replacements {
    /// The text for each identifier that has one.
    spec fn texts(&self) -> Map<Seq<char>, Seq<char>>;

    /// The text for `identifier`, if it has one.
    fn replacement(&self, identifier: &str) -> (r: Option<String>)
        ensures
            match r {
                Some(text) => self.texts().contains_key(identifier@) && text@
                    == self.texts()[identifier@],
                None => !self.texts().contains_key(identifier@),
            },
    ;
}

/// The identifier that `capture` holds in `source`; none of its characters where the
/// group took no part in the match.
pub open spec fn identifier_of(source: Seq<char>, capture: Capture) -> Seq<char> {
    match capture.group {
        Some(group) => byte_slice(source, group.start as int, group.end as int),
        None => Seq::empty(),
    }
}

/// Where the match before `captures[i]` ends: the start of the text for the first.
pub open spec fn end_before(captures: Seq<Capture>, i: int) -> int {
    if i <= 0 {
        0
    } else {
        captures[i - 1].whole.end as int
    }
}

/// The identifier of the first of `captures`, from index `from` on, for which `texts`
/// holds no text.
pub open spec fn first_missing(
    source: Seq<char>,
    captures: Seq<Capture>,
    texts: Map<Seq<char>, Seq<char>>,
    from: int,
) -> Option<Seq<char>>
    decreases captures.len() - from,
{
    if from < 0 || from >= captures.len() {
        None
    } else if !texts.contains_key(identifier_of(source, captures[from])) {
        Some(identifier_of(source, captures[from]))
    } else {
        first_missing(source, captures, texts, from + 1)
    }
}

/// The text up to the end of the first `n` of `captures`: what stands before and
/// between them in `source`, and in place of each the text for its identifier.
pub open spec fn substituted(
    source: Seq<char>,
    captures: Seq<Capture>,
    texts: Map<Seq<char>, Seq<char>>,
    n: int,
) -> Seq<char>
    decreases n,
{
    if n <= 0 {
        Seq::empty()
    } else {
        substituted(source, captures, texts, n - 1) + byte_slice(
            source,
            end_before(captures, n - 1),
            captures[n - 1].whole.start as int,
        ) + texts[identifier_of(source, captures[n - 1])]
    }
}

/// `source` with each of `captures` replaced by the text for its identifier, or the
/// identifier of the first one, from the left, that has no text.
pub open spec fn filled(
    source: Seq<char>,
    captures: Seq<Capture>,
    texts: Map<Seq<char>, Seq<char>>,
) -> Result<Seq<char>, Seq<char>> {
    match first_missing(source, captures, texts, 0) {
        Some(identifier) => Err(identifier),
        None => Ok(
            substituted(source, captures, texts, captures.len() as int) + byte_slice(
                source,
                end_before(captures, captures.len() as int),
                byte_len(source) as int,
            ),
        ),
    }
}

/// Replaces each of `captures` in `source` by the text that `replacements` holds for
/// its identifier, and copies what stands around them. Fails at the first capture,
/// from the left, whose identifier has no text, and hands that identifier back.
pub fn fill<R: Replacements>(source: &str, captures: &Vec<Capture>, replacements: &R) -> (r: Result<
    String,
    String,
>)
    requires
        captures_fit(captures@, source@),
    ensures
        match r {
            Ok(text) => filled(source@, captures@, replacements.texts()) == Ok::<
                Seq<char>,
                Seq<char>,
            >(text@),
            Err(identifier) => filled(source@, captures@, replacements.texts()) == Err::<
                Seq<char>,
                Seq<char>,
            >(identifier@),
        },
{
    let mut out = String::new();
    let mut last: usize = 0;
    let mut i: usize = 0;
    proof {
        lemma_byte_slice_all(source@);
    }
    while i < captures.len()
        invariant
            i <= captures.len(),
            captures_fit(captures@, source@),
            last == end_before(captures@, i as int),
            on_boundary(source@, last as int),
            first_missing(source@, captures@, replacements.texts(), 0) == first_missing(
                source@,
                captures@,
                replacements.texts(),
                i as int,
            ),
            out@ == substituted(source@, captures@, replacements.texts(), i as int),
        decreases captures.len() - i,
    {
        let capture = captures[i];
        proof {
            reveal_strlit("");
            if i > 0 {
                assert(captures@[i - 1].whole.end <= captures@[i as int].whole.start);
            }
        }
        let identifier: &str = match capture.group {
            Some(group) => slice(source, group.start, group.end),
            None => "",
        };
        assert(identifier@ =~= identifier_of(source@, captures@[i as int]));
        match replacements.replacement(identifier) {
            None => {
                return Err(identifier.to_owned());
            },
            Some(text) => {
                out.append(slice(source, last, capture.whole.start));
                out.append(text.as_str());
                last = capture.whole.end;
            },
        }
        i += 1;
    }
    out.append(slice_from(source, last));
    Ok(out)
}

/// From `from` on, the first capture without a text decides: its identifier is
/// reported, and every capture before it has one.
pub proof fn lemma_first_missing(
    source: Seq<char>,
    captures: Seq<Capture>,
    texts: Map<Seq<char>, Seq<char>>,
    from: int,
)
    requires
        0 <= from <= captures.len(),
    ensures
        match first_missing(source, captures, texts, from) {
            Some(identifier) => exists|i: int|
                {
                    &&& from <= i < captures.len()
                    &&& identifier == identifier_of(source, #[trigger] captures[i])
                    &&& !texts.contains_key(identifier)
                    &&& forall|j: int|
                        from <= j < i ==> texts.contains_key(
                            identifier_of(source, #[trigger] captures[j]),
                        )
                },
            None => forall|j: int|
                from <= j < captures.len() ==> texts.contains_key(
                    identifier_of(source, #[trigger] captures[j]),
                ),
        },
    decreases captures.len() - from,
{
    if from < captures.len() {
        if texts.contains_key(identifier_of(source, captures[from])) {
            lemma_first_missing(source, captures, texts, from + 1);
            match first_missing(source, captures, texts, from + 1) {
                Some(identifier) => {
                    let i = choose|i: int|
                        {
                            &&& from + 1 <= i < captures.len()
                            &&& identifier == identifier_of(source, #[trigger] captures[i])
                            &&& !texts.contains_key(identifier)
                            &&& forall|j: int|
                                from + 1 <= j < i ==> texts.contains_key(
                                    identifier_of(source, #[trigger] captures[j]),
                                )
                        };
                    assert(forall|j: int|
                        from <= j < i ==> texts.contains_key(
                            identifier_of(source, #[trigger] captures[j]),
                        ));
                },
                None => {},
            }
        }
    }
}

/// Filling fails exactly when some capture has no text, and then with the
/// identifier of the first such capture from the left.
pub proof fn law_first_missing_reported(
    source: Seq<char>,
    captures: Seq<Capture>,
    texts: Map<Seq<char>, Seq<char>>,
)
    ensures
        match filled(source, captures, texts) {
            Err(identifier) => exists|i: int|
                {
                    &&& 0 <= i < captures.len()
                    &&& identifier == identifier_of(source, #[trigger] captures[i])
                    &&& !texts.contains_key(identifier)
                    &&& forall|j: int|
                        0 <= j < i ==> texts.contains_key(
                            identifier_of(source, #[trigger] captures[j]),
                        )
                },
            Ok(_) => forall|j: int|
                0 <= j < captures.len() ==> texts.contains_key(
                    identifier_of(source, #[trigger] captures[j]),
                ),
        },
{
    lemma_first_missing(source, captures, texts, 0);
}

} // verus!
