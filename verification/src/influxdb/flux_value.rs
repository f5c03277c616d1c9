//! Values that can be written as literals of the query language.

use crate::ordered_map::{map_pairs, pairs_of};
use crate::text::push_char;
use crate::timestamp::{rfc3339_utc, Timestamp};
use indexmap::IndexMap;
use vstd::prelude::*;
use vstd::std_specs::cmp::PartialEqSpecImpl;
use vstd::std_specs::convert::{FromSpecImpl, IntoSpec};
use vstd::string::StringExecFns;

verus! {

/// A scalar that can be compared and used as a dictionary key.
#[derive(Debug)]
pub enum Comparable {
    String(String),
    Time(Timestamp),
}

/// A value of the query language.
#[derive(Debug)]
pub enum FluxValue {
    Comparable(Comparable),
    Array(Vec<FluxValue>),
    Dictionary(Dictionary),
    RawExpression(String),
}

/// Key and value pairs in the order in which their keys were first inserted; no two
/// keys are the same.
#[derive(Debug)]
pub struct Dictionary {
    entries: Vec<(Comparable, FluxValue)>,
}

/// `parts` written one after the other with `sep` between each two neighbours.
pub open spec fn joined(parts: Seq<Seq<char>>, sep: Seq<char>) -> Seq<char>
    decreases parts.len(),
{
    if parts.len() == 0 {
        Seq::empty()
    } else if parts.len() == 1 {
        parts[0]
    } else {
        joined(parts.drop_last(), sep) + sep + parts.last()
    }
}

/// `text` between double quotes, nothing in it escaped.
pub open spec fn quoted(text: Seq<char>) -> Seq<char> {
    seq!['"'] + text + seq!['"']
}

/// `parts` between brackets, a comma and a space between each two neighbours.
pub open spec fn list_literal(parts: Seq<Seq<char>>) -> Seq<char> {
    seq!['['] + joined(parts, seq![',', ' ']) + seq![']']
}

/// Each of `texts` between double quotes.
pub open spec fn quoted_all(texts: Seq<Seq<char>>) -> Seq<Seq<char>> {
    Seq::new(texts.len(), |i: int| quoted(texts[i]))
}

/// Each of `pairs` as it stands in a dictionary from text to text.
pub open spec fn quoted_pairs(pairs: Seq<(Seq<char>, Seq<char>)>) -> Seq<Seq<char>> {
    Seq::new(pairs.len(), |i: int| pair_literal(quoted(pairs[i].0), quoted(pairs[i].1)))
}

/// `key: value`, as a pair stands in a dictionary.
pub open spec fn pair_literal(key: Seq<char>, value: Seq<char>) -> Seq<char> {
    key + seq![':', ' '] + value
}

impl Comparable {
    /// The literal of the query language for this scalar.
    pub open spec fn rendered(self) -> Seq<char> {
        match self {
            Comparable::String(s) => quoted(s@),
            Comparable::Time(t) => t.rendered(),
        }
    }

    /// Whether both hold the same text or the same instant.
    pub open spec fn same_as(self, other: Comparable) -> bool {
        match (self, other) {
            (Comparable::String(a), Comparable::String(b)) => a@ == b@,
            (Comparable::Time(a), Comparable::Time(b)) => a.spec_seconds() == b.spec_seconds()
                && a.spec_subsec_nanos() == b.spec_subsec_nanos(),
            _ => false,
        }
    }

    /// Whether both hold the same text or the same instant.
    pub fn eq(&self, other: &Comparable) -> (r: bool)
        ensures
            r == self.same_as(*other),
    {
        match (self, other) {
            (Comparable::String(a), Comparable::String(b)) => *a == *b,
            (Comparable::Time(a), Comparable::Time(b)) => a.seconds() == b.seconds()
                && a.subsec_nanos() == b.subsec_nanos(),
            _ => false,
        }
    }

    /// Writes the scalar as a literal: text between double quotes, with nothing
    /// escaped, and an instant as RFC 3339 in UTC.
    pub fn to_flux_repr(&self) -> (text: String)
        ensures
            text@ == self.rendered(),
    {
        match self {
            Comparable::String(s) => {
                let mut out = String::new();
                push_char(&mut out, '"');
                out.append(s.as_str());
                push_char(&mut out, '"');
                assert(out@ =~= seq!['"'] + s@ + seq!['"']);
                out
            },
            Comparable::Time(t) => t.to_rfc3339(),
        }
    }
}

impl Dictionary {
    #[verifier::type_invariant]
    spec fn distinct_keys(self) -> bool {
        forall|i: int, j: int|
            0 <= i < j < self.entries.len() ==> !(#[trigger] self.entries[i]).0.same_as(
                (#[trigger] self.entries[j]).0,
            )
    }

    /// The pairs, in order.
    pub closed spec fn entries(self) -> Seq<(Comparable, FluxValue)> {
        self.entries@
    }

    /// Whether some pair has the key `key`.
    pub open spec fn has_key(self, key: Comparable) -> bool {
        exists|i: int|
            0 <= i < self.entries().len() && (#[trigger] self.entries()[i]).0.same_as(key)
    }

    /// A dictionary without pairs.
    pub fn new() -> (dictionary: Dictionary)
        ensures
            dictionary.entries() == Seq::<(Comparable, FluxValue)>::empty(),
    {
        Dictionary { entries: Vec::new() }
    }

    /// The number of pairs.
    pub fn len(&self) -> (n: usize)
        ensures
            n == self.entries().len(),
    {
        self.entries.len()
    }

    /// The pair at `index`, in the order of first insertion.
    pub fn get_index(&self, index: usize) -> (r: Option<(&Comparable, &FluxValue)>)
        ensures
            match r {
                Some((key, value)) => {
                    &&& index < self.entries().len()
                    &&& *key == self.entries()[index as int].0
                    &&& *value == self.entries()[index as int].1
                },
                None => index >= self.entries().len(),
            },
    {
        if index < self.entries.len() {
            Some((&self.entries[index].0, &self.entries[index].1))
        } else {
            None
        }
    }

    /// The first pair, if there is one.
    pub fn first(&self) -> (r: Option<(&Comparable, &FluxValue)>)
        ensures
            match r {
                Some((key, value)) => {
                    &&& 0 < self.entries().len()
                    &&& *key == self.entries()[0].0
                    &&& *value == self.entries()[0].1
                },
                None => self.entries().len() == 0,
            },
    {
        self.get_index(0)
    }

    /// Where the pair with the key `key` stands, if there is one.
    pub fn get_index_of(&self, key: &Comparable) -> (r: Option<usize>)
        ensures
            match r {
                Some(index) => {
                    &&& index < self.entries().len()
                    &&& self.entries()[index as int].0.same_as(*key)
                },
                None => !self.has_key(*key),
            },
    {
        let mut i: usize = 0;
        while i < self.entries.len()
            invariant
                i <= self.entries.len(),
                forall|k: int| 0 <= k < i ==> !(#[trigger] self.entries@[k]).0.same_as(*key),
            decreases self.entries.len() - i,
        {
            if self.entries[i].0.eq(key) {
                return Some(i);
            }
            i += 1;
        }
        None
    }

    /// Sets the value under `key`. Where a pair with that key exists, it keeps its key
    /// and its place and takes the new value, and the earlier value is handed back;
    /// otherwise the pair is added at the end.
    pub fn insert(&mut self, key: Comparable, value: FluxValue) -> (r: Option<FluxValue>)
        ensures
            match r {
                Some(earlier) => exists|i: int|
                    {
                        &&& 0 <= i < old(self).entries().len()
                        &&& (#[trigger] old(self).entries()[i]).0.same_as(key)
                        &&& earlier == old(self).entries()[i].1
                        &&& final(self).entries() == old(self).entries().update(
                            i,
                            (old(self).entries()[i].0, value),
                        )
                    },
                None => {
                    &&& !old(self).has_key(key)
                    &&& final(self).entries() == old(self).entries().push((key, value))
                },
            },
    {
        proof {
            use_type_invariant(&*self);
        }
        match self.get_index_of(&key) {
            Some(index) => {
                let ghost before = self.entries@;
                let mut pairs: Vec<(Comparable, FluxValue)> = Vec::new();
                core::mem::swap(&mut pairs, &mut self.entries);
                let (kept, earlier) = pairs.remove(index);
                pairs.insert(index, (kept, value));
                assert(pairs@ =~= before.update(index as int, (before[index as int].0, value)));
                self.entries = pairs;
                Some(earlier)
            },
            None => {
                let ghost before = self.entries@;
                let mut pairs: Vec<(Comparable, FluxValue)> = Vec::new();
                core::mem::swap(&mut pairs, &mut self.entries);
                pairs.push((key, value));
                assert forall|i: int, j: int| 0 <= i < j < pairs@.len() implies !(
                #[trigger] pairs@[i]).0.same_as((#[trigger] pairs@[j]).0) by {
                    if j == before.len() {
                        assert(!before[i].0.same_as(key));
                    }
                }
                self.entries = pairs;
                None
            },
        }
    }
}

/// The literal of each value of `items`, in order.
pub open spec fn rendered_items(items: Seq<FluxValue>) -> Seq<Seq<char>>
    decreases items,
{
    if items.len() == 0 {
        Seq::empty()
    } else {
        rendered_items(items.drop_last()).push(items.last().rendered())
    }
}

/// `key: value` for each pair of `entries`, in order.
pub open spec fn rendered_entries(entries: Seq<(Comparable, FluxValue)>) -> Seq<Seq<char>>
    decreases entries,
{
    if entries.len() == 0 {
        Seq::empty()
    } else {
        rendered_entries(entries.drop_last()).push(
            pair_literal(entries.last().0.rendered(), entries.last().1.rendered()),
        )
    }
}

impl FluxValue {
    /// The literal of the query language for this value.
    pub open spec fn rendered(self) -> Seq<char>
        decreases self,
    {
        match self {
            FluxValue::Comparable(c) => c.rendered(),
            FluxValue::Array(items) => list_literal(rendered_items(items@)),
            FluxValue::Dictionary(d) => list_literal(rendered_entries(d.entries())),
            FluxValue::RawExpression(text) => text@,
        }
    }

    /// An array of what each of `items` converts to, in order.
    pub fn array_from<V: Into<FluxValue>>(items: Vec<V>) -> (r: FluxValue)
        ensures
            r matches FluxValue::Array(values) && values@.len() == items@.len() && forall|i: int|
                0 <= i < items@.len() ==> call_ensures(
                    <V as Into<FluxValue>>::into,
                    (items@[i],),
                    #[trigger] values@[i],
                ),
    {
        let mut values: Vec<FluxValue> = Vec::new();
        for item in it: items
            invariant
                it.seq() == items@,
                values@.len() == it.index(),
                forall|i: int|
                    0 <= i < it.index() ==> call_ensures(
                        <V as Into<FluxValue>>::into,
                        (items@[i],),
                        #[trigger] values@[i],
                    ),
        {
            values.push(item.into());
        }
        FluxValue::Array(values)
    }

    /// A dictionary from text to text with the pairs of `map`, in their order.
    pub fn dictionary_from(map: &IndexMap<String, String>) -> (r: FluxValue)
        ensures
            r.rendered() == list_literal(quoted_pairs(map_pairs(*map))),
    {
        let pairs = pairs_of(map);
        assert forall|i: int, j: int| 0 <= i < j < pairs@.len() implies (#[trigger] pairs@[i]).0@
            != (#[trigger] pairs@[j]).0@ by {
            assert(pairs.deep_view()[i].0 == pairs@[i].0@);
            assert(pairs.deep_view()[j].0 == pairs@[j].0@);
        }
        FluxValue::string_dictionary(&pairs)
    }

    /// An array of the texts `items`.
    pub fn string_array(items: &Vec<String>) -> (r: FluxValue)
        ensures
            r.rendered() == list_literal(quoted_all(items.deep_view())),
    {
        let ghost texts = items.deep_view();
        let mut values: Vec<FluxValue> = Vec::new();
        let mut i: usize = 0;
        while i < items.len()
            invariant
                i <= items.len(),
                texts == items.deep_view(),
                rendered_items(values@) == quoted_all(texts.take(i as int)),
            decreases items.len() - i,
        {
            let value = FluxValue::Comparable(Comparable::String(items[i].clone()));
            proof {
                assert(values@.push(value).drop_last() =~= values@);
                assert(texts[i as int] == items@[i as int]@);
                assert(value.rendered() == quoted(texts[i as int]));
                assert(rendered_items(values@.push(value)) == rendered_items(values@).push(
                    value.rendered(),
                ));
                assert(quoted_all(texts.take(i + 1)) =~= quoted_all(texts.take(i as int)).push(
                    quoted(texts[i as int]),
                ));
            }
            values.push(value);
            i += 1;
        }
        assert(texts.take(items.len() as int) =~= texts);
        FluxValue::Array(values)
    }

    /// A dictionary from text to text with the pairs `pairs`, whose keys differ from
    /// one another.
    pub fn string_dictionary(pairs: &Vec<(String, String)>) -> (r: FluxValue)
        requires
            forall|i: int, j: int|
                0 <= i < j < pairs@.len() ==> (#[trigger] pairs@[i]).0@ != (
                #[trigger] pairs@[j]).0@,
        ensures
            r.rendered() == list_literal(quoted_pairs(pairs.deep_view())),
    {
        let ghost texts = pairs.deep_view();
        let mut dictionary = Dictionary::new();
        let mut i: usize = 0;
        while i < pairs.len()
            invariant
                i <= pairs.len(),
                texts == pairs.deep_view(),
                forall|a: int, b: int|
                    0 <= a < b < pairs@.len() ==> (#[trigger] pairs@[a]).0@ != (
                    #[trigger] pairs@[b]).0@,
                dictionary.entries().len() == i,
                forall|k: int|
                    0 <= k < i ==> (#[trigger] dictionary.entries()[k]).0.same_as(
                        Comparable::String(pairs@[k].0),
                    ),
                rendered_entries(dictionary.entries()) == quoted_pairs(texts.take(i as int)),
            decreases pairs.len() - i,
        {
            let key = Comparable::String(pairs[i].0.clone());
            let value = FluxValue::Comparable(Comparable::String(pairs[i].1.clone()));
            let ghost before = dictionary.entries();
            proof {
                assert forall|k: int| 0 <= k < before.len() implies !(
                #[trigger] before[k]).0.same_as(key) by {
                    assert(before[k].0.same_as(Comparable::String(pairs@[k].0)));
                    assert(pairs@[k].0@ != pairs@[i as int].0@);
                }
                assert(before.push((key, value)).drop_last() =~= before);
                assert(texts[i as int] == (pairs@[i as int].0@, pairs@[i as int].1@));
                assert(key.rendered() == quoted(texts[i as int].0));
                assert(value.rendered() == quoted(texts[i as int].1));
                assert(rendered_entries(before.push((key, value))) == rendered_entries(before).push(
                    pair_literal(key.rendered(), value.rendered()),
                ));
                assert(quoted_pairs(texts.take(i + 1)) =~= quoted_pairs(texts.take(i as int)).push(
                    pair_literal(quoted(texts[i as int].0), quoted(texts[i as int].1)),
                ));
            }
            let earlier = dictionary.insert(key, value);
            assert(earlier is None);
            i += 1;
        }
        assert(texts.take(pairs.len() as int) =~= texts);
        FluxValue::Dictionary(dictionary)
    }

    /// Writes the value as a literal of the query language.
    #[verifier::loop_isolation(false)]
    pub fn to_flux_repr(&self) -> (text: String)
        ensures
            text@ == self.rendered(),
        decreases self,
    {
        match self {
            FluxValue::Comparable(c) => c.to_flux_repr(),
            FluxValue::Array(items) => {
                let mut out = String::new();
                push_char(&mut out, '[');
                let mut i: usize = 0;
                while i < items.len()
                    invariant
                        i <= items.len(),
                        out@ == seq!['['] + joined(
                            rendered_items(items@.take(i as int)),
                            seq![',', ' '],
                        ),
                    decreases items.len() - i,
                {
                    proof {
                        lemma_rendered_items_len(items@.take(i as int));
                        assert(items@.take(i + 1).drop_last() =~= items@.take(i as int));
                    }
                    if i > 0 {
                        push_separator(&mut out);
                    }
                    let piece = items[i].to_flux_repr();
                    out.append(piece.as_str());
                    proof {
                        lemma_joined_push(
                            rendered_items(items@.take(i as int)),
                            piece@,
                            seq![',', ' '],
                        );
                    }
                    i += 1;
                }
                assert(items@.take(items.len() as int) =~= items@);
                push_char(&mut out, ']');
                out
            },
            FluxValue::Dictionary(d) => {
                let mut out = String::new();
                push_char(&mut out, '[');
                let mut i: usize = 0;
                while i < d.entries.len()
                    invariant
                        i <= d.entries.len(),
                        out@ == seq!['['] + joined(
                            rendered_entries(d.entries@.take(i as int)),
                            seq![',', ' '],
                        ),
                    decreases d.entries.len() - i,
                {
                    proof {
                        lemma_rendered_entries_len(d.entries@.take(i as int));
                        assert(d.entries@.take(i + 1).drop_last() =~= d.entries@.take(i as int));
                    }
                    if i > 0 {
                        push_separator(&mut out);
                    }
                    let key = d.entries[i].0.to_flux_repr();
                    out.append(key.as_str());
                    push_char(&mut out, ':');
                    push_char(&mut out, ' ');
                    let value = d.entries[i].1.to_flux_repr();
                    out.append(value.as_str());
                    proof {
                        lemma_joined_push(
                            rendered_entries(d.entries@.take(i as int)),
                            key@ + seq![':', ' '] + value@,
                            seq![',', ' '],
                        );
                    }
                    i += 1;
                }
                assert(d.entries@.take(d.entries.len() as int) =~= d.entries@);
                push_char(&mut out, ']');
                out
            },
            FluxValue::RawExpression(text) => text.clone(),
        }
    }
}

fn push_separator(out: &mut String)
    ensures
        final(out)@ == old(out)@ + seq![',', ' '],
{
    push_char(out, ',');
    push_char(out, ' ');
    assert(out@ =~= old(out)@ + seq![',', ' ']);
}

/// Joining one more part puts a separator before it, unless it is the first.
pub proof fn lemma_joined_push(parts: Seq<Seq<char>>, part: Seq<char>, sep: Seq<char>)
    ensures
        joined(parts.push(part), sep) == if parts.len() == 0 {
            part
        } else {
            joined(parts, sep) + sep + part
        },
{
    assert(parts.push(part).drop_last() =~= parts);
}

/// There are as many literals as values.
pub proof fn lemma_rendered_items_len(items: Seq<FluxValue>)
    ensures
        rendered_items(items).len() == items.len(),
    decreases items.len(),
{
    if items.len() > 0 {
        lemma_rendered_items_len(items.drop_last());
    }
}

/// There are as many written pairs as pairs.
pub proof fn lemma_rendered_entries_len(entries: Seq<(Comparable, FluxValue)>)
    ensures
        rendered_entries(entries).len() == entries.len(),
    decreases entries.len(),
{
    if entries.len() > 0 {
        lemma_rendered_entries_len(entries.drop_last());
    }
}

/// The lengths of `parts`, added up.
pub open spec fn total_len(parts: Seq<Seq<char>>) -> nat
    decreases parts.len(),
{
    if parts.len() == 0 {
        0
    } else {
        total_len(parts.drop_last()) + parts.last().len()
    }
}

/// Joined parts hold, besides the parts themselves, one separator fewer than there
/// are parts.
pub proof fn law_joined_separators(parts: Seq<Seq<char>>, sep: Seq<char>)
    ensures
        parts.len() == 0 ==> joined(parts, sep).len() == 0,
        parts.len() > 0 ==> joined(parts, sep).len() == total_len(parts) + (parts.len() - 1)
            * sep.len(),
    decreases parts.len(),
{
    if parts.len() == 1 {
        assert(total_len(parts.drop_last()) == 0);
    } else if parts.len() > 1 {
        law_joined_separators(parts.drop_last(), sep);
        assert((parts.len() - 1) * sep.len() == (parts.len() - 2) * sep.len() + sep.len())
            by (nonlinear_arith);
    }
}

/// A text is written between exactly one double quote in front and one behind, and
/// is itself left as it is.
pub proof fn law_string_between_quotes(s: String)
    ensures
        Comparable::String(s).rendered().len() == s@.len() + 2,
        Comparable::String(s).rendered().first() == '"',
        Comparable::String(s).rendered().last() == '"',
        Comparable::String(s).rendered().subrange(1, s@.len() as int + 1) == s@,
{
    assert(Comparable::String(s).rendered().subrange(1, s@.len() as int + 1) =~= s@);
}

/// An array is written between brackets; inside stand the literals of its items and,
/// for `n` items, `n - 1` separators of a comma and a space.
pub proof fn law_array_separators(items: Vec<FluxValue>)
    ensures
        FluxValue::Array(items).rendered() == list_literal(rendered_items(items@)),
        rendered_items(items@).len() == items@.len(),
        items@.len() == 0 ==> FluxValue::Array(items).rendered() == seq!['[', ']'],
        items@.len() > 0 ==> FluxValue::Array(items).rendered().len() == 2 + total_len(
            rendered_items(items@),
        ) + 2 * (items@.len() - 1),
{
    lemma_rendered_items_len(items@);
    law_joined_separators(rendered_items(items@), seq![',', ' ']);
    let sep = seq![',', ' '];
    assert(sep.len() == 2);
    if items@.len() == 0 {
        assert(FluxValue::Array(items).rendered() =~= seq!['[', ']']);
    } else {
        assert((items@.len() - 1) * sep.len() == 2 * (items@.len() - 1)) by (nonlinear_arith)
            requires
                sep.len() == 2,
        ;
    }
}

/// A scalar as plain values.
pub enum ComparableView {
    String(Seq<char>),
    /// An instant, as seconds since the Unix epoch and nanoseconds past the second.
    Time { seconds: int, nanos: int },
}

/// A value of the query language as plain values.
pub enum FluxValueView {
    Comparable(ComparableView),
    Array(Seq<FluxValueView>),
    Dictionary(Seq<(ComparableView, FluxValueView)>),
    RawExpression(Seq<char>),
}

impl DeepView for Comparable {
    type V = ComparableView;

    open spec fn deep_view(&self) -> ComparableView {
        match self {
            Comparable::String(s) => ComparableView::String(s@),
            Comparable::Time(t) => ComparableView::Time {
                seconds: t.spec_seconds(),
                nanos: t.spec_subsec_nanos(),
            },
        }
    }
}

/// Each of `items` as plain values.
pub open spec fn item_views(items: Seq<FluxValue>) -> Seq<FluxValueView>
    decreases items,
{
    if items.len() == 0 {
        Seq::empty()
    } else {
        item_views(items.drop_last()).push(items.last().plain())
    }
}

/// Each of `entries` as plain values.
pub open spec fn entry_views(entries: Seq<(Comparable, FluxValue)>) -> Seq<
    (ComparableView, FluxValueView),
>
    decreases entries,
{
    if entries.len() == 0 {
        Seq::empty()
    } else {
        entry_views(entries.drop_last()).push(
            (entries.last().0.deep_view(), entries.last().1.plain()),
        )
    }
}

impl FluxValue {
    /// The value as plain values.
    pub open spec fn plain(self) -> FluxValueView
        decreases self,
    {
        match self {
            FluxValue::Comparable(c) => FluxValueView::Comparable(c.deep_view()),
            FluxValue::Array(items) => FluxValueView::Array(item_views(items@)),
            FluxValue::Dictionary(d) => FluxValueView::Dictionary(entry_views(d.entries())),
            FluxValue::RawExpression(text) => FluxValueView::RawExpression(text@),
        }
    }
}

impl DeepView for FluxValue {
    type V = FluxValueView;

    open spec fn deep_view(&self) -> FluxValueView {
        self.plain()
    }
}

impl ComparableView {
    /// The literal of the query language for this scalar.
    pub open spec fn literal(self) -> Seq<char> {
        match self {
            ComparableView::String(text) => quoted(text),
            ComparableView::Time { seconds, nanos } => rfc3339_utc(seconds, nanos),
        }
    }
}

/// The literal of each of `items`, in order.
pub open spec fn item_literals(items: Seq<FluxValueView>) -> Seq<Seq<char>>
    decreases items,
{
    if items.len() == 0 {
        Seq::empty()
    } else {
        item_literals(items.drop_last()).push(items.last().literal())
    }
}

/// `key: value` for each of `entries`, in order.
pub open spec fn entry_literals(entries: Seq<(ComparableView, FluxValueView)>) -> Seq<Seq<char>>
    decreases entries,
{
    if entries.len() == 0 {
        Seq::empty()
    } else {
        entry_literals(entries.drop_last()).push(
            pair_literal(entries.last().0.literal(), entries.last().1.literal()),
        )
    }
}

impl FluxValueView {
    /// The literal of the query language for this value.
    pub open spec fn literal(self) -> Seq<char>
        decreases self,
    {
        match self {
            FluxValueView::Comparable(c) => c.literal(),
            FluxValueView::Array(items) => list_literal(item_literals(items)),
            FluxValueView::Dictionary(entries) => list_literal(entry_literals(entries)),
            FluxValueView::RawExpression(text) => text,
        }
    }
}

/// The literal of a value is that of its plain values.
pub proof fn lemma_rendered_is_literal(value: FluxValue)
    ensures
        value.rendered() == value.deep_view().literal(),
    decreases value,
{
    match value {
        FluxValue::Comparable(c) => {},
        FluxValue::Array(items) => {
            lemma_rendered_items_are_literals(items@);
        },
        FluxValue::Dictionary(d) => {
            lemma_rendered_entries_are_literals(d.entries());
        },
        FluxValue::RawExpression(text) => {},
    }
}

/// The literals of values are those of their plain values.
pub proof fn lemma_rendered_items_are_literals(items: Seq<FluxValue>)
    ensures
        rendered_items(items) == item_literals(item_views(items)),
    decreases items,
{
    if items.len() > 0 {
        lemma_rendered_items_are_literals(items.drop_last());
        lemma_rendered_is_literal(items.last());
        let views = item_views(items);
        assert(views.drop_last() =~= item_views(items.drop_last()));
    }
}

/// The written pairs of a dictionary are those of its plain values.
pub proof fn lemma_rendered_entries_are_literals(entries: Seq<(Comparable, FluxValue)>)
    ensures
        rendered_entries(entries) == entry_literals(entry_views(entries)),
    decreases entries,
{
    if entries.len() > 0 {
        lemma_rendered_entries_are_literals(entries.drop_last());
        lemma_rendered_is_literal(entries.last().1);
        let views = entry_views(entries);
        assert(views.drop_last() =~= entry_views(entries.drop_last()));
    }
}

/// Rendering depends on nothing but what a value holds: two values that hold the same
/// render as the same text, and so does one value rendered twice.
pub proof fn law_same_value_same_literal(first: FluxValue, second: FluxValue)
    requires
        first.deep_view() == second.deep_view(),
    ensures
        first.rendered() == second.rendered(),
{
    lemma_rendered_is_literal(first);
    lemma_rendered_is_literal(second);
}

impl Clone for Comparable {
    fn clone(&self) -> (r: Comparable)
        ensures
            r == *self,
    {
        match self {
            Comparable::String(s) => Comparable::String(s.clone()),
            Comparable::Time(t) => Comparable::Time(*t),
        }
    }
}

impl PartialEq for Comparable {
    fn eq(&self, other: &Comparable) -> (r: bool) {
        Comparable::eq(self, other)
    }
}

impl PartialEqSpecImpl for Comparable {
    open spec fn obeys_eq_spec() -> bool {
        true
    }

    open spec fn eq_spec(&self, other: &Comparable) -> bool {
        self.same_as(*other)
    }
}

impl Eq for Comparable {

}

impl From<String> for Comparable {
    fn from(value: String) -> (r: Comparable) {
        Comparable::String(value)
    }
}

impl FromSpecImpl<String> for Comparable {
    open spec fn obeys_from_spec() -> bool {
        true
    }

    open spec fn from_spec(value: String) -> Comparable {
        Comparable::String(value)
    }
}

impl From<Timestamp> for Comparable {
    fn from(value: Timestamp) -> (r: Comparable) {
        Comparable::Time(value)
    }
}

impl FromSpecImpl<Timestamp> for Comparable {
    open spec fn obeys_from_spec() -> bool {
        true
    }

    open spec fn from_spec(value: Timestamp) -> Comparable {
        Comparable::Time(value)
    }
}

impl<V: Into<Comparable>> From<V> for FluxValue {
    fn from(value: V) -> (r: FluxValue) {
        FluxValue::Comparable(value.into())
    }
}

impl<V: Into<Comparable>> FromSpecImpl<V> for FluxValue {
    open spec fn obeys_from_spec() -> bool {
        <V as IntoSpec<Comparable>>::obeys_into_spec()
    }

    open spec fn from_spec(value: V) -> FluxValue {
        FluxValue::Comparable(<V as IntoSpec<Comparable>>::into_spec(value))
    }
}

impl<V: Into<FluxValue>> From<Vec<V>> for FluxValue {
    fn from(value: Vec<V>) -> (r: FluxValue) {
        FluxValue::array_from(value)
    }
}

impl<V: Into<FluxValue>> FromSpecImpl<Vec<V>> for FluxValue {
    open spec fn obeys_from_spec() -> bool {
        false
    }

    open spec fn from_spec(value: Vec<V>) -> FluxValue {
        arbitrary()
    }
}

impl From<Dictionary> for FluxValue {
    fn from(value: Dictionary) -> (r: FluxValue) {
        FluxValue::Dictionary(value)
    }
}

impl FromSpecImpl<Dictionary> for FluxValue {
    open spec fn obeys_from_spec() -> bool {
        true
    }

    open spec fn from_spec(value: Dictionary) -> FluxValue {
        FluxValue::Dictionary(value)
    }
}

impl From<IndexMap<String, String>> for FluxValue {
    fn from(value: IndexMap<String, String>) -> (r: FluxValue) {
        FluxValue::dictionary_from(&value)
    }
}

impl FromSpecImpl<IndexMap<String, String>> for FluxValue {
    open spec fn obeys_from_spec() -> bool {
        false
    }

    open spec fn from_spec(value: IndexMap<String, String>) -> FluxValue {
        arbitrary()
    }
}

} // verus!
