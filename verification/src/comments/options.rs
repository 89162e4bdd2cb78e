//! Options for listing comments: a builder that collects named parameters, and
//! the finished set that is written as a query string.
//!
//! Both hold one optional field for each parameter that the listing knows, so
//! no name can stand twice. What they hold is stated as a list of entries, in
//! the order in which they are written, and as the mapping from name to value
//! that the entries stand for.

use vstd::prelude::*;
use crate::query::{
    decoded_entries, encoded_entries, entry_views, form_urlencode, lemma_encoded_entries_decode,
    lemma_position_absent, lemma_position_found, lemma_position_is_first, position, Entries,
};

verus! {

/// The names of the entries, in their order.
pub open spec fn names(entries: Entries) -> Seq<Seq<char>> {
    Seq::new(entries.len(), |i: int| entries[i].0)
}

/// No name stands twice.
pub open spec fn distinct_names(entries: Entries) -> bool {
    forall|i: int, j: int| 0 <= i < j < entries.len() ==> entries[i].0 != entries[j].0
}

/// The mapping that the entries stand for: each name that occurs, to the value
/// of the first entry that bears it.
pub open spec fn entries_map(entries: Entries) -> Map<Seq<char>, Seq<char>> {
    Map::new(
        |name: Seq<char>| position(names(entries), name) < entries.len(),
        |name: Seq<char>| entries[position(names(entries), name)].1,
    )
}

/// The entries after `name` was set to `value`: the entry of that name holds
/// the new value in its old place; where there was none, a new entry stands
/// last.
pub open spec fn with_entry(entries: Entries, name: Seq<char>, value: Seq<char>) -> Entries {
    let place = position(names(entries), name);
    if 0 <= place < entries.len() {
        entries.update(place, (name, value))
    } else {
        entries.push((name, value))
    }
}

/// The name of the parameter that bounds a listing by time.
pub open spec fn since_name() -> Seq<char> {
    "since"@
}

/// What the mapping holds at `other` after `name` was set to `value`.
proof fn lemma_with_entry_at(
    entries: Entries,
    name: Seq<char>,
    value: Seq<char>,
    other: Seq<char>,
)
    ensures
        entries_map(with_entry(entries, name, value)).dom().contains(other) == (other == name
            || entries_map(entries).dom().contains(other)),
        entries_map(with_entry(entries, name, value)).dom().contains(other) ==> entries_map(
            with_entry(entries, name, value),
        )[other] == (if other == name {
            value
        } else {
            entries_map(entries)[other]
        }),
{
    let place = position(names(entries), name);
    let after = with_entry(entries, name, value);
    let old_place = position(names(entries), other);
    lemma_position_is_first(names(entries), name);
    lemma_position_is_first(names(entries), other);
    if place < entries.len() {
        assert(names(after) =~= names(entries));
    } else if old_place < entries.len() {
        assert(names(after)[old_place] == other);
        assert forall|i: int| 0 <= i < old_place implies names(after)[i] != other by {
            assert(names(after)[i] == names(entries)[i]);
        }
        lemma_position_found(names(after), other, old_place);
    } else if other == name {
        assert(names(after)[entries.len() as int] == other);
        assert forall|i: int| 0 <= i < entries.len() implies names(after)[i] != other by {
            assert(names(after)[i] == names(entries)[i]);
        }
        lemma_position_found(names(after), other, entries.len() as int);
    } else {
        assert forall|i: int| 0 <= i < after.len() implies names(after)[i] != other by {
            if i < entries.len() {
                assert(names(after)[i] == names(entries)[i]);
            }
        }
        lemma_position_absent(names(after), other);
    }
}

/// Setting a name keeps the names distinct and changes the mapping at that
/// name alone; an entry is added only where the name was not set before.
pub proof fn lemma_with_entry(entries: Entries, name: Seq<char>, value: Seq<char>)
    requires
        distinct_names(entries),
    ensures
        distinct_names(with_entry(entries, name, value)),
        entries_map(with_entry(entries, name, value)) == entries_map(entries).insert(name, value),
        entries_map(entries).dom().contains(name) ==> with_entry(entries, name, value).len()
            == entries.len(),
        !entries_map(entries).dom().contains(name) ==> with_entry(entries, name, value).len()
            == entries.len() + 1,
{
    let place = position(names(entries), name);
    let after = with_entry(entries, name, value);
    lemma_position_is_first(names(entries), name);
    if place >= entries.len() {
        assert forall|i: int, j: int| 0 <= i < j < after.len() implies after[i].0 != after[j].0 by {
            if j == entries.len() {
                assert(names(entries)[i] != name);
            }
        }
    }
    assert forall|other: Seq<char>| #[trigger]
        entries_map(after).dom().contains(other) == entries_map(entries).insert(
            name,
            value,
        ).dom().contains(other) by {
        lemma_with_entry_at(entries, name, value, other);
    }
    assert forall|other: Seq<char>| #[trigger]
        entries_map(after).dom().contains(other) implies entries_map(after)[other] == entries_map(
        entries,
    ).insert(name, value)[other] by {
        lemma_with_entry_at(entries, name, value, other);
    }
    assert(entries_map(after) =~= entries_map(entries).insert(name, value));
}

/// Exactly one entry bears `name`, and it holds `value`.
pub open spec fn holds_once(entries: Entries, name: Seq<char>, value: Seq<char>) -> bool {
    exists|place: int|
        {
            &&& 0 <= place < entries.len()
            &&& #[trigger] entries[place] == (name, value)
            &&& forall|other: int|
                0 <= other < entries.len() && other != place ==> entries[other].0 != name
        }
}

/// Setting one name twice leaves exactly one entry of that name, and it holds
/// the second value: the entries are those that the second call alone would
/// give.
pub proof fn lemma_second_value_wins(
    entries: Entries,
    name: Seq<char>,
    first: Seq<char>,
    second: Seq<char>,
)
    requires
        distinct_names(entries),
    ensures
        with_entry(with_entry(entries, name, first), name, second) == with_entry(
            entries,
            name,
            second,
        ),
        holds_once(with_entry(with_entry(entries, name, first), name, second), name, second),
        entries_map(with_entry(with_entry(entries, name, first), name, second)).dom().contains(
            name,
        ),
        entries_map(with_entry(with_entry(entries, name, first), name, second))[name] == second,
{
    let once = with_entry(entries, name, first);
    let twice = with_entry(once, name, second);
    let place = position(names(entries), name);
    lemma_position_is_first(names(entries), name);
    lemma_with_entry(entries, name, first);
    lemma_with_entry(once, name, second);
    if place < entries.len() {
        assert(names(once) =~= names(entries));
        assert(once.update(place, (name, second)) =~= entries.update(place, (name, second)));
        assert(twice[place] == (name, second));
    } else {
        assert(names(once)[entries.len() as int] == name);
        assert forall|i: int| 0 <= i < entries.len() implies names(once)[i] != name by {
            assert(names(once)[i] == names(entries)[i]);
        }
        lemma_position_found(names(once), name, entries.len() as int);
        assert(once.update(entries.len() as int, (name, second)) =~= entries.push((name, second)));
        assert(twice[entries.len() as int] == (name, second));
    }
}

/// The entries stand for the empty mapping exactly where there are none.
pub proof fn lemma_entries_map_empty(entries: Entries)
    ensures
        entries_map(entries) == Map::<Seq<char>, Seq<char>>::empty() <==> entries.len() == 0,
{
    if entries.len() == 0 {
        assert forall|name: Seq<char>| !entries_map(entries).dom().contains(name) by {
            lemma_position_is_first(names(entries), name);
        }
        assert(entries_map(entries) =~= Map::<Seq<char>, Seq<char>>::empty());
    } else {
        let name = entries[0].0;
        assert(names(entries)[0] == name);
        assert(position(names(entries), name) == 0);
        assert(entries_map(entries).dom().contains(name));
    }
}

/// A finished set of options for listing comments.
pub struct CommentListOptions {
    since: Option<String>,
}

impl View for CommentListOptions {
    type V = Map<Seq<char>, Seq<char>>;

    /// The mapping from parameter name to value.
    open spec fn view(&self) -> Map<Seq<char>, Seq<char>> {
        entries_map(self.entries())
    }
}

impl CommentListOptions {
    /// The parameters that are set, in the order in which they are written.
    pub closed spec fn entries(&self) -> Entries {
        match self.since {
            Some(since) => seq![(since_name(), since@)],
            None => Seq::empty(),
        }
    }

    /// A builder that holds no parameter yet.
    pub fn builder() -> (builder: CommentListOptionsBuilder)
        ensures
            builder.entries() == Seq::<(Seq<char>, Seq<char>)>::empty(),
    {
        CommentListOptionsBuilder::new()
    }

    /// The options as a query string, without a leading `?`; `None` where no
    /// parameter is set.
    pub fn serialize(&self) -> (query: Option<String>)
        ensures
            self.entries().len() == 0 <==> query is None,
            self@ == Map::<Seq<char>, Seq<char>>::empty() <==> query is None,
            query matches Some(text) ==> text@ == encoded_entries(self.entries()),
    {
        proof {
            lemma_entries_map_empty(self.entries());
        }
        let mut pairs: Vec<(String, String)> = Vec::new();
        if let Some(since) = &self.since {
            pairs.push(("since".to_owned(), since.clone()));
        }
        assert(entry_views(pairs@) =~= self.entries());
        if pairs.len() == 0 {
            None
        } else {
            Some(form_urlencode(&pairs))
        }
    }
}

/// No set of options holds a name twice.
pub proof fn lemma_options_names_distinct(options: CommentListOptions)
    ensures
        distinct_names(options.entries()),
{
}

/// Reading the query that was written for a set of options with at least one
/// entry gives back the entries that were built, each name with its value, and
/// so the mapping that the options stand for.
pub proof fn lemma_serialized_options_decode(options: CommentListOptions)
    requires
        options.entries().len() >= 1,
    ensures
        decoded_entries(encoded_entries(options.entries())) == Some(options.entries()),
        entries_map(decoded_entries(encoded_entries(options.entries()))->0) == options@,
{
    lemma_encoded_entries_decode(options.entries());
}

impl Default for CommentListOptions {
    fn default() -> (options: CommentListOptions)
        ensures
            options.entries() == Seq::<(Seq<char>, Seq<char>)>::empty(),
    {
        CommentListOptions { since: None }
    }
}

/// Collects the parameters of a listing, one setter call at a time.
pub struct CommentListOptionsBuilder {
    since: Option<String>,
}

impl View for CommentListOptionsBuilder {
    type V = Map<Seq<char>, Seq<char>>;

    /// The mapping from parameter name to value.
    open spec fn view(&self) -> Map<Seq<char>, Seq<char>> {
        entries_map(self.entries())
    }
}

impl CommentListOptionsBuilder {
    /// The parameters that are set, in the order in which they are written.
    pub closed spec fn entries(&self) -> Entries {
        match self.since {
            Some(since) => seq![(since_name(), since@)],
            None => Seq::empty(),
        }
    }

    /// A builder that holds no parameter.
    pub fn new() -> (builder: CommentListOptionsBuilder)
        ensures
            builder.entries() == Seq::<(Seq<char>, Seq<char>)>::empty(),
    {
        CommentListOptionsBuilder { since: None }
    }

    /// Sets the `since` parameter, in place of any value it had, and hands the
    /// builder back for the next call.
    pub fn since(&mut self, since: &str) -> (builder: &mut CommentListOptionsBuilder)
        ensures
            builder.entries() == with_entry(old(self).entries(), since_name(), since@),
            builder@ == old(self)@.insert(since_name(), since@),
            holds_once(builder.entries(), since_name(), since@),
            *final(self) == *final(builder),
    {
        proof {
            let before = self.entries();
            assert(distinct_names(before));
            lemma_with_entry(before, since_name(), since@);
            if before.len() > 0 {
                assert(names(before)[0] == since_name());
                assert(with_entry(before, since_name(), since@) =~= seq![(since_name(), since@)]);
            } else {
                lemma_position_is_first(names(before), since_name());
                assert(with_entry(before, since_name(), since@) =~= seq![(since_name(), since@)]);
            }
        }
        self.since = Some(since.to_owned());
        assert(self.entries() =~= seq![(since_name(), since@)]);
        assert(self.entries()[0] == (since_name(), since@));
        self
    }

    /// The options as they stand now. The builder is left as it is and may be
    /// changed and built again.
    pub fn build(&self) -> (options: CommentListOptions)
        ensures
            options.entries() == self.entries(),
            options@ == self@,
    {
        let since: Option<String> = match &self.since {
            Some(since) => Some(since.clone()),
            None => None,
        };
        CommentListOptions { since }
    }
}

/// No builder holds a name twice.
pub proof fn lemma_builder_names_distinct(builder: CommentListOptionsBuilder)
    ensures
        distinct_names(builder.entries()),
{
}

impl Default for CommentListOptionsBuilder {
    fn default() -> (builder: CommentListOptionsBuilder)
        ensures
            builder.entries() == Seq::<(Seq<char>, Seq<char>)>::empty(),
    {
        CommentListOptionsBuilder::new()
    }
}

} // verus!
