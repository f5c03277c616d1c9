//! Query templates: declaration lines are dropped, placeholders are replaced by the
//! literals of their parameters.

use crate::influxdb::flux_value::FluxValue;
use crate::pattern::{
    captures, captures_fit, compile, find, pattern_of, regex_captures, regex_find, Capture,
    PLACEHOLDER,
};
use crate::substitution::{fill, filled, substituted, Replacements};
use crate::text::{
    byte_len, byte_slice, first_line_len, is_line, lemma_byte_slice_all, lemma_first_line,
    lemma_first_line_of_concat, lines_of, push_char, slice_from, trim_start, trimmed_start,
};
use regex::Regex;
use vstd::hash_map::StringHashMap;
use vstd::prelude::*;
use vstd::string::{StrSliceExecFns, StringExecFns};

verus! {

/// The parameters of a query, each under its identifier.
pub struct FluxParams {
    map: StringHashMap<FluxValue>,
}

impl View for FluxParams {
    type V = Map<Seq<char>, FluxValue>;

    closed spec fn view(&self) -> Map<Seq<char>, FluxValue> {
        self.map@
    }
}

impl FluxParams {
    /// No parameters.
    pub fn new() -> (params: FluxParams)
        ensures
            params@ == Map::<Seq<char>, FluxValue>::empty(),
    {
        FluxParams { map: StringHashMap::new() }
    }

    /// Sets the parameter `identifier`, in place of an earlier one of that name.
    pub fn insert(&mut self, identifier: &str, value: FluxValue)
        ensures
            final(self)@ == old(self)@.insert(identifier@, value),
    {
        self.map.insert(identifier.to_owned(), value);
    }

    /// The parameter `identifier`, if it is set.
    pub fn get(&self, identifier: &str) -> (r: Option<&FluxValue>)
        ensures
            match r {
                Some(value) => self@.contains_key(identifier@) && *value == self@[identifier@],
                None => !self@.contains_key(identifier@),
            },
    {
        self.map.get(identifier)
    }

    /// Sets each parameter of `more` in turn, a later one in place of an earlier one of
    /// the same name.
    pub fn extend(&mut self, more: Vec<(String, FluxValue)>)
        ensures
            final(self)@ == extended(old(self)@, more@),
    {
        let ghost all = more@;
        let ghost start = self@;
        for pair in it: more
            invariant
                it.seq() == all,
                self@ == extended(start, all.take(it.index() as int)),
        {
            proof {
                assert(all.take(it.index() + 1).drop_last() =~= all.take(it.index() as int));
            }
            let (identifier, value) = pair;
            self.map.insert(identifier, value);
        }
        assert(all.take(all.len() as int) =~= all);
    }
}

/// The literal of each parameter, under its identifier.
pub open spec fn literals(params: Map<Seq<char>, FluxValue>) -> Map<Seq<char>, Seq<char>> {
    params.map_values(|value: FluxValue| value.rendered())
}

/// `params` with each pair of `more` set in turn.
pub open spec fn extended(params: Map<Seq<char>, FluxValue>, more: Seq<(String, FluxValue)>) -> Map<
    Seq<char>,
    FluxValue,
>
    decreases more.len(),
{
    if more.len() == 0 {
        params
    } else {
        extended(params, more.drop_last()).insert(more.last().0@, more.last().1)
    }
}

/// A template names a placeholder for which no parameter is set.
#[derive(Debug)]
pub struct TemplateError {
    /// The identifier of the placeholder.
    pub identifier: String,
}

impl TemplateError {
    /// The words of the error: the identifier and what is wrong with it.
    pub open spec fn spec_message(self) -> Seq<char> {
        "missing `"@ + self.identifier@ + "` parameter"@
    }

    /// Says which parameter is missing.
    pub fn message(&self) -> (text: String)
        ensures
            text@ == self.spec_message(),
    {
        let mut out = String::from_str("missing `");
        out.append(self.identifier.as_str());
        out.append("` parameter");
        out
    }
}

/// Whether `line` declares a placeholder: after its leading white space it starts with
/// a placeholder, which an equals sign follows, white space between them or not.
pub open spec fn declares(line: Seq<char>) -> bool {
    let body = trimmed_start(line);
    match regex_find(PLACEHOLDER@, body) {
        Some(found) => found.start == 0 && {
            let rest = trimmed_start(byte_slice(body, found.end as int, byte_len(body) as int));
            rest.len() > 0 && rest[0] == '='
        },
        None => false,
    }
}

/// `text` without the lines that declare a placeholder. The other lines stay as they
/// are, line feeds included.
pub open spec fn stripped(text: Seq<char>) -> Seq<char>
    decreases text.len(),
{
    if text.len() == 0 {
        Seq::empty()
    } else {
        proof {
            lemma_first_line(text);
        }
        let n = first_line_len(text) as int;
        let line = text.take(n);
        (if declares(line) {
            Seq::empty()
        } else {
            line
        }) + stripped(text.skip(n))
    }
}

/// The query that `template` gives with `params`: declaration lines dropped, then
/// every placeholder replaced.
pub open spec fn rendered_query(
    template: Seq<char>,
    params: Map<Seq<char>, Seq<char>>,
) -> Result<Seq<char>, Seq<char>> {
    let source = stripped(template);
    filled(source, regex_captures(PLACEHOLDER@, source), params)
}

/// What a result of rendering says: the query, or the missing identifier.
pub open spec fn outcome(r: Result<String, TemplateError>) -> Result<Seq<char>, Seq<char>> {
    match r {
        Ok(query) => Ok(query@),
        Err(e) => Err(e.identifier@),
    }
}

impl Replacements for FluxParams {
    open spec fn texts(&self) -> Map<Seq<char>, Seq<char>> {
        literals(self@)
    }

    fn replacement(&self, identifier: &str) -> (r: Option<String>) {
        match self.get(identifier) {
            Some(value) => Some(value.to_flux_repr()),
            None => None,
        }
    }
}

/// Replaces each of `captures` in `source` by the literal of the parameter that its
/// identifier names, and copies the text around them. Fails at the first capture, from
/// the left, whose identifier has no parameter.
pub fn fill_placeholders(source: &str, captures: &Vec<Capture>, params: &FluxParams) -> (r: Result<
    String,
    TemplateError,
>)
    requires
        captures_fit(captures@, source@),
    ensures
        outcome(r) == filled(source@, captures@, literals(params@)),
{
    match fill(source, captures, params) {
        Ok(query) => Ok(query),
        Err(identifier) => Err(TemplateError { identifier }),
    }
}

/// Renders queries from templates.
pub struct QueryBuilder {
    re: Regex,
}

impl QueryBuilder {
    #[verifier::type_invariant]
    spec fn finds_placeholders(self) -> bool {
        pattern_of(self.re) == PLACEHOLDER@
    }

    /// A builder that looks for placeholders: identifiers between two pairs of
    /// underscores.
    pub fn new() -> (builder: QueryBuilder)
        ensures
            builder.pattern() == PLACEHOLDER@,
    {
        QueryBuilder { re: compile(PLACEHOLDER) }
    }

    /// The expression that the builder searches templates for.
    pub closed spec fn pattern(self) -> Seq<char> {
        pattern_of(self.re)
    }

    /// Whether `line` declares a placeholder, and so is left out of the query.
    pub fn is_declaration(&self, line: &str) -> (r: bool)
        ensures
            r == declares(line@),
    {
        proof {
            use_type_invariant(self);
        }
        let body = trim_start(line);
        match find(&self.re, body) {
            Some(found) => {
                if found.start != 0 {
                    false
                } else {
                    let rest = trim_start(slice_from(body, found.end));
                    !rest.is_empty() && rest.get_char(0) == '='
                }
            },
            None => false,
        }
    }

    /// Copies `template` without the lines that declare a placeholder.
    pub fn strip_declarations(&self, template: &str) -> (source: String)
        ensures
            source@ == stripped(template@),
    {
        let mut source = String::new();
        let mut line = String::new();
        assert(Seq::<char>::empty() + template@.skip(0) =~= template@);
        assert(Seq::<char>::empty() + stripped(template@) =~= stripped(template@));
        for c in it: template.chars()
            invariant
                it.seq() == template@,
                forall|i: int| 0 <= i < line@.len() ==> line@[i] != '\n',
                stripped(template@) == source@ + stripped(
                    line@ + template@.skip(it.index() as int),
                ),
        {
            let ghost before = line@;
            let ghost rest = template@.skip(it.index() + 1);
            assert(before.push(c) + rest =~= before + template@.skip(it.index() as int));
            push_char(&mut line, c);
            if c == '\n' {
                proof {
                    lemma_stripped_first_line(line@, rest);
                    assert(Seq::<char>::empty() + rest =~= rest);
                }
                if !self.is_declaration(line.as_str()) {
                    source.append(line.as_str());
                }
                line = String::new();
            }
        }
        proof {
            assert(template@.skip(template@.len() as int) =~= Seq::<char>::empty());
            assert(line@ + Seq::<char>::empty() =~= line@);
            if line@.len() > 0 {
                lemma_stripped_first_line(line@, Seq::empty());
            }
        }
        if !line.as_str().is_empty() && !self.is_declaration(line.as_str()) {
            source.append(line.as_str());
        }
        source
    }

    /// Renders `template` with `params`: drops the lines that declare a placeholder,
    /// then replaces every placeholder, from left to right, by the literal of the
    /// parameter that it names. Fails at the first placeholder without a parameter.
    pub fn generate_query(&self, template: &str, params: &FluxParams) -> (r: Result<
        String,
        TemplateError,
    >)
        ensures
            outcome(r) == rendered_query(template@, literals(params@)),
    {
        proof {
            use_type_invariant(self);
        }
        let source = self.strip_declarations(template);
        let found = captures(&self.re, source.as_str());
        fill_placeholders(source.as_str(), &found, params)
    }
}

/// A text that starts with a line loses that line if it declares a placeholder, and
/// keeps it otherwise; the rest is stripped by itself.
pub proof fn lemma_stripped_first_line(line: Seq<char>, rest: Seq<char>)
    requires
        is_line(line),
        line.last() == '\n' || rest.len() == 0,
    ensures
        stripped(line + rest) == (if declares(line) {
            Seq::empty()
        } else {
            line
        }) + stripped(rest),
{
    lemma_first_line_of_concat(line, rest);
    assert((line + rest).take(line.len() as int) =~= line);
    assert((line + rest).skip(line.len() as int) =~= rest);
}

/// Where no line declares a placeholder, stripping changes nothing.
pub proof fn lemma_stripped_without_declarations(text: Seq<char>)
    requires
        forall|i: int| 0 <= i < lines_of(text).len() ==> !declares(#[trigger] lines_of(text)[i]),
    ensures
        stripped(text) == text,
    decreases text.len(),
{
    if text.len() > 0 {
        lemma_first_line(text);
        let n = first_line_len(text) as int;
        let rest = text.skip(n);
        assert(lines_of(text)[0] == text.take(n));
        assert forall|i: int| 0 <= i < lines_of(rest).len() implies !declares(
            #[trigger] lines_of(rest)[i],
        ) by {
            assert(lines_of(rest)[i] == lines_of(text)[i + 1]);
        }
        lemma_stripped_without_declarations(rest);
        assert(text.take(n) + rest =~= text);
    }
}

/// Stripping a text that ends with a line feed, followed by another text, strips each
/// by itself.
pub proof fn lemma_stripped_concat(before: Seq<char>, after: Seq<char>)
    requires
        before.len() == 0 || before.last() == '\n',
    ensures
        stripped(before + after) == stripped(before) + stripped(after),
    decreases before.len(),
{
    if before.len() == 0 {
        assert(before + after =~= after);
        assert(stripped(before) + stripped(after) =~= stripped(after));
    } else {
        lemma_first_line(before);
        let n = first_line_len(before) as int;
        let line = before.take(n);
        let rest = before.skip(n);
        assert(line.last() == '\n');
        assert(rest.len() > 0 ==> rest.last() == before.last());
        assert(line + (rest + after) =~= before + after);
        lemma_stripped_first_line(line, rest + after);
        lemma_stripped_concat(rest, after);
        let kept = if declares(line) {
            Seq::<char>::empty()
        } else {
            line
        };
        assert(kept + (stripped(rest) + stripped(after)) =~= (kept + stripped(rest))
            + stripped(after));
    }
}

/// A template in which no line declares a placeholder and in which no placeholder is
/// found renders as itself, whatever the parameters.
pub proof fn law_plain_template_unchanged(
    template: Seq<char>,
    params: Map<Seq<char>, Seq<char>>,
)
    requires
        forall|i: int|
            0 <= i < lines_of(template).len() ==> !declares(#[trigger] lines_of(template)[i]),
        regex_captures(PLACEHOLDER@, template).len() == 0,
    ensures
        rendered_query(template, params) == Ok::<Seq<char>, Seq<char>>(template),
{
    lemma_stripped_without_declarations(template);
    lemma_byte_slice_all(template);
    let none = regex_captures(PLACEHOLDER@, template);
    assert(substituted(template, none, params, 0) + template =~= template);
}

/// A line that declares a placeholder leaves no trace: the template renders as it
/// would without that line, whether the placeholder is used elsewhere or not.
pub proof fn law_declaration_line_dropped(
    before: Seq<char>,
    declaration: Seq<char>,
    after: Seq<char>,
    params: Map<Seq<char>, Seq<char>>,
)
    requires
        before.len() == 0 || before.last() == '\n',
        is_line(declaration),
        declaration.last() == '\n' || after.len() == 0,
        declares(declaration),
    ensures
        stripped(before + declaration + after) == stripped(before + after),
        rendered_query(before + declaration + after, params) == rendered_query(
            before + after,
            params,
        ),
{
    assert(before + declaration + after =~= before + (declaration + after));
    lemma_stripped_concat(before, declaration + after);
    lemma_stripped_first_line(declaration, after);
    lemma_stripped_concat(before, after);
    assert(Seq::<char>::empty() + stripped(after) =~= stripped(after));
}

} // verus!
