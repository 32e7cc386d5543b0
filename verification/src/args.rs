//! An editor for a process argument vector: finding switches, reading the
//! value of a flag written as `--name value` or `--name=value`, and splicing
//! ranges of arguments.

use vstd::prelude::*;
use crate::text::{equals_form, equals_value, joined, lemma_joined, split_equals, str_eq};

verus! {

/// The arguments as sequences of characters.
pub open spec fn views(args: Seq<String>) -> Seq<Seq<char>> {
    args.map_values(|s: String| s@)
}

/// `arg` carries the flag `name`: it is the bare switch, or `name=value`.
pub open spec fn names_flag(arg: Seq<char>, name: Seq<char>) -> bool {
    arg == name || equals_form(arg, name)
}

/// The first position at or after `from` whose argument carries `name`.
pub open spec fn first_named_from(args: Seq<Seq<char>>, name: Seq<char>, from: int) -> Option<int>
    decreases args.len() - from,
{
    if from < 0 || from >= args.len() {
        None
    } else if names_flag(args[from], name) {
        Some(from)
    } else {
        first_named_from(args, name, from + 1)
    }
}

/// The first position whose argument carries `name`.
pub open spec fn first_named(args: Seq<Seq<char>>, name: Seq<char>) -> Option<int> {
    first_named_from(args, name, 0)
}

/// The value of the flag `name` with the range `start..end` of positions that
/// the flag and its value occupy, as `(value, start, end)`.
///
/// Only the first argument that carries `name` counts. Where that argument is
/// the bare switch, the value is the next argument, and there is none when the
/// switch stands last.
pub open spec fn spec_get(args: Seq<Seq<char>>, name: Seq<char>) -> Option<(Seq<char>, int, int)> {
    match first_named(args, name) {
        None => None,
        Some(i) => if args[i] == name {
            if i + 1 < args.len() {
                Some((args[i + 1], i, i + 2))
            } else {
                None
            }
        } else {
            Some((equals_value(args[i], name), i, i + 1))
        },
    }
}

/// `args` with the positions `start..end` replaced by `new_elements`.
pub open spec fn spec_replace(
    args: Seq<Seq<char>>,
    start: int,
    end: int,
    new_elements: Seq<Seq<char>>,
) -> Seq<Seq<char>> {
    args.subrange(0, start) + new_elements + args.subrange(end, args.len() as int)
}

/// `first_named_from` returns the least position from `from` on that carries
/// `name`, and `None` exactly when no such position exists.
pub proof fn lemma_first_named_from(args: Seq<Seq<char>>, name: Seq<char>, from: int)
    requires
        0 <= from,
    ensures
        match first_named_from(args, name, from) {
            Some(i) => {
                &&& from <= i < args.len()
                &&& names_flag(args[i], name)
                &&& forall|j: int| from <= j < i ==> !names_flag(#[trigger] args[j], name)
            },
            None => forall|j: int| from <= j < args.len() ==> !names_flag(#[trigger] args[j], name),
        },
    decreases args.len() - from,
{
    if from < args.len() && !names_flag(args[from], name) {
        lemma_first_named_from(args, name, from + 1);
    }
}

/// A position that carries `name`, with none before it that does, is the
/// first one.
pub proof fn lemma_first_named_is(args: Seq<Seq<char>>, name: Seq<char>, i: int)
    requires
        0 <= i < args.len(),
        names_flag(args[i], name),
        forall|j: int| 0 <= j < i ==> !names_flag(#[trigger] args[j], name),
    ensures
        first_named(args, name) == Some(i),
{
    lemma_first_named_from(args, name, 0);
}

/// A flag found by [`get_arg_in`]: its value and the range of positions that
/// the flag and its value occupy.
#[derive(Clone, Debug, PartialEq, Eq)]
pub struct FoundArg {
    pub value: String,
    pub start: usize,
    pub end: usize,
}

impl View for FoundArg {
    type V = (Seq<char>, int, int);

    open spec fn view(&self) -> (Seq<char>, int, int) {
        (self.value@, self.start as int, self.end as int)
    }
}

/// Whether `name` occurs among `args` as a bare switch.
pub fn get_flag(args: &[String], name: &str) -> (present: bool)
    ensures
        present == views(args@).contains(name@),
{
    find_flag(args, name).is_some()
}

/// The first position at which `name` occurs as a bare switch.
pub fn find_flag(args: &[String], name: &str) -> (position: Option<usize>)
    ensures
        match position {
            Some(i) => {
                &&& i < args@.len()
                &&& args@[i as int]@ == name@
                &&& forall|j: int| 0 <= j < i ==> (#[trigger] args@[j])@ != name@
            },
            None => !views(args@).contains(name@),
        },
        position is Some == views(args@).contains(name@),
{
    let mut i: usize = 0;
    while i < args.len()
        invariant
            i <= args@.len(),
            forall|j: int| 0 <= j < i ==> (#[trigger] args@[j])@ != name@,
        decreases args@.len() - i,
    {
        if str_eq(args[i].as_str(), name) {
            assert(views(args@)[i as int] == name@);
            return Some(i);
        }
        i += 1;
    }
    assert forall|j: int| 0 <= j < views(args@).len() implies views(args@)[j] != name@ by {
        assert(args@[j]@ != name@);
    }
    None
}

/// The value of the flag `name`, written as `name value` or `name=value`, and
/// the range of positions that it occupies.
pub fn get_arg_in(args: &[String], name: &str) -> (found: Option<FoundArg>)
    ensures
        match spec_get(views(args@), name@) {
            Some(triple) => found is Some && found.unwrap()@ == triple,
            None => found is None,
        },
{
    let ghost all = views(args@);
    let mut i: usize = 0;
    while i < args.len()
        invariant
            i <= args@.len(),
            all == views(args@),
            first_named(all, name@) == first_named_from(all, name@, i as int),
        decreases args@.len() - i,
    {
        assert(all[i as int] == args@[i as int]@);
        if str_eq(args[i].as_str(), name) {
            if i + 1 < args.len() {
                assert(all[i + 1] == args@[i + 1]@);
                return Some(FoundArg { value: args[i + 1].clone(), start: i, end: i + 2 });
            } else {
                return None;
            }
        }
        match split_equals(args[i].as_str(), name) {
            Some(value) => {
                return Some(FoundArg { value, start: i, end: i + 1 });
            },
            None => {},
        }
        i += 1;
    }
    None
}

/// The value of the flag `name`, written as `name value` or `name=value`.
pub fn get_arg(args: &[String], name: &str) -> (value: Option<String>)
    ensures
        match spec_get(views(args@), name@) {
            Some(triple) => value is Some && value.unwrap()@ == triple.0,
            None => value is None,
        },
{
    match get_arg_in(args, name) {
        Some(found) => Some(found.value),
        None => None,
    }
}

/// The value of the flag `arg_name`, written as `arg_name value` or
/// `arg_name=value`.
pub fn get_arg_equals(arg_name: &str, args: &[String]) -> (value: Option<String>)
    ensures
        match spec_get(views(args@), arg_name@) {
            Some(triple) => value is Some && value.unwrap()@ == triple.0,
            None => value is None,
        },
{
    get_arg(args, arg_name)
}

/// The value of `--manifest-path`, in either form.
pub fn manifest_path_arg(args: &[String]) -> (value: Option<String>)
    ensures
        match spec_get(views(args@), "--manifest-path"@) {
            Some(triple) => value is Some && value.unwrap()@ == triple.0,
            None => value is None,
        },
{
    get_arg_equals("--manifest-path", args)
}

/// An argument vector: the ordered arguments of one process invocation.
#[derive(Clone, Debug, PartialEq, Eq)]
pub struct ArgList {
    pub items: Vec<String>,
}

impl View for ArgList {
    type V = Seq<Seq<char>>;

    open spec fn view(&self) -> Seq<Seq<char>> {
        views(self.items@)
    }
}

impl ArgList {
    /// An argument vector that holds `items` in their order.
    pub fn new(items: Vec<String>) -> (list: ArgList)
        ensures
            list.items == items,
            list@ == views(items@),
    {
        ArgList { items }
    }

    /// The number of arguments.
    pub fn len(&self) -> (n: usize)
        ensures
            n == self@.len(),
    {
        self.items.len()
    }

    /// The arguments, in their order.
    pub fn into_vec(self) -> (items: Vec<String>)
        ensures
            items == self.items,
            views(items@) == self@,
    {
        self.items
    }

    /// The first position at which `name` occurs as a bare switch.
    pub fn find(&self, name: &str) -> (position: Option<usize>)
        ensures
            match position {
                Some(i) => {
                    &&& i < self@.len()
                    &&& self@[i as int] == name@
                    &&& forall|j: int| 0 <= j < i ==> #[trigger] self@[j] != name@
                },
                None => !self@.contains(name@),
            },
    {
        find_flag(self.items.as_slice(), name)
    }

    /// The value of the flag `name`, in either form, and the range of
    /// positions that it occupies.
    pub fn get(&self, name: &str) -> (found: Option<FoundArg>)
        ensures
            match spec_get(self@, name@) {
                Some(triple) => found is Some && found.unwrap()@ == triple,
                None => found is None,
            },
    {
        get_arg_in(self.items.as_slice(), name)
    }

    /// Replaces the arguments at the positions `start..end` by `new_elements`.
    /// The arguments outside the range keep their order.
    pub fn replace(&mut self, start: usize, end: usize, new_elements: Vec<String>)
        requires
            start <= end <= old(self)@.len(),
        ensures
            final(self)@ == spec_replace(
                old(self)@,
                start as int,
                end as int,
                views(new_elements@),
            ),
    {
        let mut tail = self.items.split_off(end);
        self.items.truncate(start);
        let mut middle = new_elements;
        self.items.append(&mut middle);
        self.items.append(&mut tail);
        assert(self@ =~= spec_replace(
            old(self)@,
            start as int,
            end as int,
            views(new_elements@),
        ));
    }

    /// Adds the flag `name` with `value` at the end, as two arguments, unless
    /// the vector already holds a value for `name`. Says whether it did.
    pub fn append(&mut self, name: &str, value: &str) -> (added: bool)
        ensures
            added == (spec_get(old(self)@, name@) is None),
            added ==> final(self)@ == old(self)@.push(name@).push(value@),
            !added ==> final(self)@ == old(self)@,
    {
        if self.get(name).is_some() {
            return false;
        }
        self.items.push(name.to_owned());
        self.items.push(value.to_owned());
        assert(self@ =~= old(self)@.push(name@).push(value@));
        true
    }
}

/// Where the first argument that carries `name` is the bare switch at `i` and
/// another argument follows it, the flag's value is that argument and its
/// range is `i..i + 2`.
pub proof fn lemma_get_spaced(args: Seq<Seq<char>>, name: Seq<char>, i: int)
    requires
        0 <= i,
        i + 1 < args.len(),
        args[i] == name,
        forall|j: int| 0 <= j < i ==> !names_flag(#[trigger] args[j], name),
    ensures
        spec_get(args, name) == Some((args[i + 1], i, i + 2)),
{
    lemma_first_named_is(args, name, i);
}

/// Where the first argument that carries `name` is `name=value` at `i`, the
/// flag's value is `value` and its range is `i..i + 1`.
pub proof fn lemma_get_joined(args: Seq<Seq<char>>, name: Seq<char>, value: Seq<char>, i: int)
    requires
        0 <= i < args.len(),
        args[i] == joined(name, value),
        forall|j: int| 0 <= j < i ==> !names_flag(#[trigger] args[j], name),
    ensures
        spec_get(args, name) == Some((value, i, i + 1)),
{
    lemma_joined(name, value);
    lemma_first_named_is(args, name, i);
    assert(args[i].len() > name.len());
}

/// Where no argument carries `name`, the flag is absent.
pub proof fn lemma_get_absent(args: Seq<Seq<char>>, name: Seq<char>)
    requires
        forall|j: int| 0 <= j < args.len() ==> !names_flag(#[trigger] args[j], name),
    ensures
        spec_get(args, name) is None,
{
    lemma_first_named_from(args, name, 0);
}

/// Whatever `spec_get` finds lies inside the vector, so its range can be
/// handed to `replace`.
pub proof fn lemma_get_range(args: Seq<Seq<char>>, name: Seq<char>)
    ensures
        match spec_get(args, name) {
            Some((value, start, end)) => 0 <= start < end <= args.len() && end <= start + 2,
            None => true,
        },
{
    lemma_first_named_from(args, name, 0);
}

/// Replacing the range of a found flag by `name` and a new value as two
/// arguments, then reading the flag again, gives the new value at the same
/// start.
pub proof fn lemma_replace_then_get_spaced(
    args: Seq<Seq<char>>,
    name: Seq<char>,
    value: Seq<char>,
)
    requires
        spec_get(args, name) is Some,
    ensures
        ({
            let (_, start, end) = spec_get(args, name).unwrap();
            spec_get(spec_replace(args, start, end, seq![name, value]), name) == Some(
                (value, start, start + 2),
            )
        }),
{
    lemma_first_named_from(args, name, 0);
    let (_, start, end) = spec_get(args, name).unwrap();
    let after = spec_replace(args, start, end, seq![name, value]);
    assert forall|j: int| 0 <= j < start implies !names_flag(#[trigger] after[j], name) by {
        assert(after[j] == args[j]);
    }
    assert(after[start] == name);
    assert(after[start + 1] == value);
    lemma_get_spaced(after, name, start);
}

/// Replacing the range of a found flag by the single argument `name=value`,
/// then reading the flag again, gives the new value at the same start.
pub proof fn lemma_replace_then_get_joined(
    args: Seq<Seq<char>>,
    name: Seq<char>,
    value: Seq<char>,
)
    requires
        spec_get(args, name) is Some,
    ensures
        ({
            let (_, start, end) = spec_get(args, name).unwrap();
            spec_get(spec_replace(args, start, end, seq![joined(name, value)]), name) == Some(
                (value, start, start + 1),
            )
        }),
{
    lemma_first_named_from(args, name, 0);
    let (_, start, end) = spec_get(args, name).unwrap();
    let after = spec_replace(args, start, end, seq![joined(name, value)]);
    assert forall|j: int| 0 <= j < start implies !names_flag(#[trigger] after[j], name) by {
        assert(after[j] == args[j]);
    }
    assert(after[start] == joined(name, value));
    lemma_get_joined(after, name, value, start);
}

} // verus!
