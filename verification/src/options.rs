//! The options of tmux, as `show-options` prints them.

use crate::split::{
    first_index_of, lemma_first_index_of, lemma_first_index_of_bounds, lemma_split_last,
    lemma_split_step, split_on,
};
use crate::text::{
    chars_of, is_space, same_text, trim_end, trim_end_spec, trim_start, trim_start_spec,
};
use vstd::prelude::*;

verus! {

/// The texts of a list of names with their values.
pub open spec fn pairs_view(entries: Seq<(String, String)>) -> Seq<(Seq<char>, Seq<char>)> {
    entries.map_values(|p: (String, String)| (p.0@, p.1@))
}

/// Some pair has the name `k`.
pub open spec fn has_key(pairs: Seq<(Seq<char>, Seq<char>)>, k: Seq<char>) -> bool {
    exists|i: int| 0 <= i < pairs.len() && (#[trigger] pairs[i]).0 == k
}

/// The index of a pair with the name `k`.
pub open spec fn key_index(pairs: Seq<(Seq<char>, Seq<char>)>, k: Seq<char>) -> int {
    choose|i: int| 0 <= i < pairs.len() && (#[trigger] pairs[i]).0 == k
}

/// No two pairs have the same name.
pub open spec fn distinct_keys(pairs: Seq<(Seq<char>, Seq<char>)>) -> bool {
    forall|i: int, j: int|
        0 <= i < j < pairs.len() ==> (#[trigger] pairs[i]).0 != (#[trigger] pairs[j]).0
}

/// The map that takes each name to the value that stands with it.
pub open spec fn pairs_map(pairs: Seq<(Seq<char>, Seq<char>)>) -> Map<Seq<char>, Seq<char>> {
    Map::new(|k: Seq<char>| has_key(pairs, k), |k: Seq<char>| pairs[key_index(pairs, k)].1)
}

/// Where no name occurs twice, each name is mapped to the value beside it.
pub proof fn lemma_pairs_map_lookup(pairs: Seq<(Seq<char>, Seq<char>)>, i: int)
    requires
        distinct_keys(pairs),
        0 <= i < pairs.len(),
    ensures
        pairs_map(pairs).contains_key(pairs[i].0),
        pairs_map(pairs)[pairs[i].0] == pairs[i].1,
{
    let k = pairs[i].0;
    assert(has_key(pairs, k));
    let j = key_index(pairs, k);
    assert(0 <= j < pairs.len() && pairs[j].0 == k);
    if j < i {
        assert(pairs[j].0 != pairs[i].0);
    } else if i < j {
        assert(pairs[i].0 != pairs[j].0);
    }
}

/// A pair with a new name, put at the end, adds that name to the map.
pub proof fn lemma_pairs_map_push(pairs: Seq<(Seq<char>, Seq<char>)>, k: Seq<char>, v: Seq<char>)
    requires
        distinct_keys(pairs),
        !has_key(pairs, k),
    ensures
        distinct_keys(pairs.push((k, v))),
        pairs_map(pairs.push((k, v))) == pairs_map(pairs).insert(k, v),
{
    let longer = pairs.push((k, v));
    assert forall|i: int, j: int| 0 <= i < j < longer.len() implies (#[trigger] longer[i]).0 != (
    #[trigger] longer[j]).0 by {
        if j < pairs.len() {
            assert(pairs[i].0 != pairs[j].0);
        } else {
            assert(longer[i] == pairs[i]);
            if pairs[i].0 == k {
                assert(has_key(pairs, k));
            }
        }
    }
    lemma_pairs_map_change(pairs, longer, pairs.len() as int, k, v);
}

/// A pair put in the place of one with the same name gives that name the new
/// value.
pub proof fn lemma_pairs_map_update(
    pairs: Seq<(Seq<char>, Seq<char>)>,
    i: int,
    k: Seq<char>,
    v: Seq<char>,
)
    requires
        distinct_keys(pairs),
        0 <= i < pairs.len(),
        pairs[i].0 == k,
    ensures
        distinct_keys(pairs.update(i, (k, v))),
        pairs_map(pairs.update(i, (k, v))) == pairs_map(pairs).insert(k, v),
{
    let changed = pairs.update(i, (k, v));
    assert forall|a: int, b: int| 0 <= a < b < changed.len() implies (#[trigger] changed[a]).0 != (
    #[trigger] changed[b]).0 by {
        assert(changed[a].0 == pairs[a].0);
        assert(changed[b].0 == pairs[b].0);
        assert(pairs[a].0 != pairs[b].0);
    }
    lemma_pairs_map_change(pairs, changed, i, k, v);
}

/// Where `after` differs from `before` only in holding `(k, v)` at `at`, and
/// no other pair of either has the name `k`, the map of `after` is the map
/// of `before` with `k` taken to `v`.
proof fn lemma_pairs_map_change(
    before: Seq<(Seq<char>, Seq<char>)>,
    after: Seq<(Seq<char>, Seq<char>)>,
    at: int,
    k: Seq<char>,
    v: Seq<char>,
)
    requires
        distinct_keys(before),
        distinct_keys(after),
        0 <= at < after.len(),
        after[at] == (k, v),
        before.len() <= after.len() <= before.len() + 1,
        after.len() == before.len() ==> at < before.len() && before[at].0 == k,
        after.len() > before.len() ==> at == before.len() && !has_key(before, k),
        forall|i: int| 0 <= i < before.len() && i != at ==> before[i] == after[i],
    ensures
        pairs_map(after) == pairs_map(before).insert(k, v),
{
    let target = pairs_map(before).insert(k, v);
    assert forall|q: Seq<char>| pairs_map(after).contains_key(q) <==> target.contains_key(
        q,
    ) by {
        if has_key(after, q) {
            let j = key_index(after, q);
            if j != at {
                assert(before[j].0 == q);
                assert(has_key(before, q));
            }
        }
        if q == k {
            assert(after[at].0 == k);
            assert(has_key(after, q));
        } else if has_key(before, q) {
            let j = key_index(before, q);
            assert(j != at || before.len() == after.len());
            assert(after[j].0 == q);
            assert(has_key(after, q));
        }
    }
    assert forall|q: Seq<char>| pairs_map(after).contains_key(q) implies pairs_map(after)[q]
        == target[q] by {
        let j = key_index(after, q);
        lemma_pairs_map_lookup(after, j);
        if j != at {
            assert(before[j] == after[j]);
            lemma_pairs_map_lookup(before, j);
        }
    }
    assert(pairs_map(after) =~= target);
}

/// The options of tmux: a map from the name of an option to its value as
/// tmux prints it. No name occurs twice.
#[derive(Debug)]
pub struct OptionsMap {
    entries: Vec<(String, String)>,
}

impl View for OptionsMap {
    type V = Map<Seq<char>, Seq<char>>;

    closed spec fn view(&self) -> Map<Seq<char>, Seq<char>> {
        pairs_map(pairs_view(self.entries@))
    }
}

impl OptionsMap {
    #[verifier::type_invariant]
    spec fn well_formed(&self) -> bool {
        distinct_keys(pairs_view(self.entries@))
    }

    /// The map without any option.
    pub fn new() -> (options: OptionsMap)
        ensures
            options@ == Map::<Seq<char>, Seq<char>>::empty(),
    {
        let options = OptionsMap { entries: Vec::new() };
        assert(options@ =~= Map::<Seq<char>, Seq<char>>::empty());
        options
    }

    /// The place of the option `name`, if the map holds it.
    fn position(&self, name: &str) -> (r: Option<usize>)
        ensures
            match r {
                Some(i) => i < self.entries@.len() && self.entries@[i as int].0@ == name@,
                None => !has_key(pairs_view(self.entries@), name@),
            },
    {
        let mut i: usize = 0;
        while i < self.entries.len()
            invariant
                i <= self.entries@.len(),
                forall|j: int| 0 <= j < i ==> (#[trigger] self.entries@[j]).0@ != name@,
            decreases self.entries@.len() - i,
        {
            if same_text(self.entries[i].0.as_str(), name) {
                return Some(i);
            }
            i = i + 1;
        }
        proof {
            let pairs = pairs_view(self.entries@);
            if has_key(pairs, name@) {
                let j = key_index(pairs, name@);
                assert(pairs[j].0 == self.entries@[j].0@);
            }
        }
        None
    }

    /// The value of the option `name`, if the map holds it.
    pub fn get(&self, name: &str) -> (r: Option<&String>)
        ensures
            match r {
                Some(value) => self@.contains_key(name@) && self@[name@] == value@,
                None => !self@.contains_key(name@),
            },
    {
        proof {
            use_type_invariant(self);
        }
        match self.position(name) {
            Some(i) => {
                proof {
                    lemma_pairs_map_lookup(pairs_view(self.entries@), i as int);
                }
                Some(&self.entries[i].1)
            },
            None => None,
        }
    }

    /// Whether the map holds the option `name`.
    pub fn contains_key(&self, name: &str) -> (r: bool)
        ensures
            r == self@.contains_key(name@),
    {
        self.get(name).is_some()
    }

    /// Give the option `name` the value `value`, in place of the value that
    /// it had, if it had one.
    pub fn insert(&mut self, name: String, value: String)
        ensures
            final(self)@ == old(self)@.insert(name@, value@),
    {
        proof {
            use_type_invariant(&*self);
        }
        let ghost pairs = pairs_view(self.entries@);
        let found = self.position(name.as_str());
        let mut taken = OptionsMap::new();
        std::mem::swap(self, &mut taken);
        let mut entries: Vec<(String, String)> = taken.entries;
        match found {
            Some(i) => {
                proof {
                    lemma_pairs_map_update(pairs, i as int, name@, value@);
                    assert(pairs_view(entries@.update(i as int, (name, value))) =~= pairs.update(
                        i as int,
                        (name@, value@),
                    ));
                }
                entries[i] = (name, value);
            },
            None => {
                proof {
                    lemma_pairs_map_push(pairs, name@, value@);
                    assert(pairs_view(entries@.push((name, value))) =~= pairs.push(
                        (name@, value@),
                    ));
                }
                entries.push((name, value));
            },
        }
        *self = OptionsMap { entries };
    }

    /// Whether the map holds no option.
    pub fn is_empty(&self) -> (r: bool)
        ensures
            r <==> self@ == Map::<Seq<char>, Seq<char>>::empty(),
    {
        proof {
            use_type_invariant(self);
            let pairs = pairs_view(self.entries@);
            if pairs.len() > 0 {
                lemma_pairs_map_lookup(pairs, 0);
            } else {
                assert(self@ =~= Map::<Seq<char>, Seq<char>>::empty());
            }
        }
        self.entries.len() == 0
    }

    /// The options as a list of names with their values, each name once.
    pub fn into_entries(self) -> (entries: Vec<(String, String)>)
        ensures
            distinct_keys(pairs_view(entries@)),
            pairs_map(pairs_view(entries@)) == self@,
    {
        proof {
            use_type_invariant(&self);
        }
        self.entries
    }
}

/// The character that ends the name of an option in its line.
pub const NAME_END: char = ' ';

/// The character that ends a line.
pub const LINE_END: char = '\n';

/// The value `''`, which tmux prints for an option that is set to nothing.
pub open spec fn empty_quotes() -> Seq<char> {
    seq!['\'', '\'']
}

/// The option that a line of `show-options` holds, if it holds one.
///
/// The name is what stands before the first space, the value what follows
/// it, without the white space at its start. A line gives no option where
/// its name is empty, or where its value is empty or `''`; so a line without
/// a space gives none.
pub open spec fn option_entry(line: Seq<char>) -> Option<(Seq<char>, Seq<char>)> {
    let k = first_index_of(line, NAME_END);
    let name = line.take(k);
    let value = trim_start_spec(line.skip(k));
    if name.len() == 0 || value.len() == 0 || value == empty_quotes() {
        None
    } else {
        Some((name, value))
    }
}

/// The options that the lines hold. Where a name occurs in two lines, the
/// later line gives its value.
pub open spec fn options_of_lines(lines: Seq<Seq<char>>) -> Map<Seq<char>, Seq<char>>
    decreases lines.len(),
{
    if lines.len() == 0 {
        Map::empty()
    } else {
        let before = options_of_lines(lines.drop_last());
        match option_entry(lines.last()) {
            Some((name, value)) => before.insert(name, value),
            None => before,
        }
    }
}

/// The options that the output of `show-options` holds: those of its lines,
/// once the white space at its end is dropped.
pub open spec fn options_of_text(text: Seq<char>) -> Map<Seq<char>, Seq<char>> {
    options_of_lines(split_on(trim_end_spec(text), LINE_END))
}

/// Read the option that a line holds, if it holds one.
pub fn read_option(line: &str) -> (r: Option<(String, String)>)
    ensures
        match r {
            Some((name, value)) => option_entry(line@) == Some((name@, value@)),
            None => option_entry(line@) is None,
        },
{
    let chars: Vec<char> = chars_of(line);
    let n: usize = chars.len();
    let mut k: usize = 0;
    while k < n && chars[k] != NAME_END
        invariant
            n == chars@.len(),
            k <= n,
            forall|j: int| 0 <= j < k ==> #[trigger] chars@[j] != NAME_END,
        decreases n - k,
    {
        k = k + 1;
    }
    proof {
        lemma_first_index_of(line@, NAME_END, k as int);
        assert(line@.subrange(0, k as int) =~= line@.take(k as int));
        assert(line@.subrange(k as int, n as int) =~= line@.skip(k as int));
    }
    let name: &str = line.substring_char(0, k);
    let value: &str = trim_start(line.substring_char(k, n));
    proof {
        reveal_strlit("''");
        assert("''"@ =~= empty_quotes());
    }
    if k == 0 || value.is_empty() || same_text(value, "''") {
        None
    } else {
        Some((name.to_owned(), value.to_owned()))
    }
}

/// Read the options that the output of `show-options` holds.
pub fn parse_options(text: &str) -> (options: OptionsMap)
    ensures
        options@ == options_of_text(text@),
{
    let trimmed: &str = trim_end(text);
    let chars: Vec<char> = chars_of(trimmed);
    let n: usize = chars.len();
    let mut options = OptionsMap::new();
    let ghost mut done: Seq<Seq<char>> = Seq::empty();
    let mut start: usize = 0;
    let mut i: usize = 0;
    proof {
        assert(chars@.skip(0) =~= chars@);
        assert(done + split_on(chars@, LINE_END) =~= split_on(chars@, LINE_END));
    }
    while i < n
        invariant
            n == chars@.len(),
            chars@ == trimmed@,
            start <= i <= n,
            forall|j: int| start <= j < i ==> #[trigger] chars@[j] != LINE_END,
            split_on(chars@, LINE_END) == done + split_on(chars@.skip(start as int), LINE_END),
            options@ == options_of_lines(done),
        decreases n - i,
    {
        if chars[i] == LINE_END {
            let line: &str = trimmed.substring_char(start, i);
            proof {
                let rest = chars@.skip(start as int);
                lemma_split_step(rest, LINE_END, i - start);
                assert(rest.take(i - start) =~= chars@.subrange(start as int, i as int));
                assert(rest.skip(i - start + 1) =~= chars@.skip(i + 1));
                assert(done + (seq![line@] + split_on(chars@.skip(i + 1), LINE_END))
                    =~= done.push(line@) + split_on(chars@.skip(i + 1), LINE_END));
                assert(done.push(line@).drop_last() =~= done);
            }
            match read_option(line) {
                Some((name, value)) => {
                    options.insert(name, value);
                },
                None => {},
            }
            proof {
                done = done.push(line@);
            }
            start = i + 1;
        }
        i = i + 1;
    }
    let line: &str = trimmed.substring_char(start, n);
    proof {
        let rest = chars@.skip(start as int);
        lemma_split_last(rest, LINE_END);
        assert(rest =~= chars@.subrange(start as int, n as int));
        assert(done + seq![line@] =~= done.push(line@));
        assert(done.push(line@).drop_last() =~= done);
    }
    match read_option(line) {
        Some((name, value)) => {
            options.insert(name, value);
        },
        None => {},
    }
    options
}

/// The name of an option that a line holds is not empty and holds no space.
/// Its value is not empty, is not `''`, and does not start with white space.
pub proof fn lemma_option_entry(line: Seq<char>)
    requires
        option_entry(line) is Some,
    ensures
        ({
            let (name, value) = option_entry(line)->Some_0;
            &&& name.len() > 0
            &&& forall|i: int| 0 <= i < name.len() ==> #[trigger] name[i] != NAME_END
            &&& value.len() > 0
            &&& value != empty_quotes()
            &&& !is_space(value[0])
        }),
{
    lemma_first_index_of_bounds(line, NAME_END);
    let k = first_index_of(line, NAME_END);
    let name = line.take(k);
    assert forall|i: int| 0 <= i < name.len() implies #[trigger] name[i] != NAME_END by {
        assert(name[i] == line[i]);
    }
    lemma_trim_start_starts_with_text(line.skip(k));
}

/// What is left once the white space at the start is dropped does not start
/// with white space.
pub proof fn lemma_trim_start_starts_with_text(s: Seq<char>)
    ensures
        trim_start_spec(s).len() > 0 ==> !is_space(trim_start_spec(s)[0]),
    decreases s.len(),
{
    if s.len() > 0 && is_space(s.first()) {
        lemma_trim_start_starts_with_text(s.drop_first());
    }
}

/// Every option that the lines hold has a name that is not empty and a value
/// that is neither empty nor `''`.
pub proof fn lemma_options_hold_values(lines: Seq<Seq<char>>, name: Seq<char>)
    requires
        options_of_lines(lines).contains_key(name),
    ensures
        name.len() > 0,
        options_of_lines(lines)[name].len() > 0,
        options_of_lines(lines)[name] != empty_quotes(),
    decreases lines.len(),
{
    if lines.len() > 0 {
        let before = lines.drop_last();
        match option_entry(lines.last()) {
            Some((n, v)) => {
                lemma_option_entry(lines.last());
                if n != name {
                    lemma_options_hold_values(before, name);
                }
            },
            None => {
                lemma_options_hold_values(before, name);
            },
        }
    }
}

} // verus!
