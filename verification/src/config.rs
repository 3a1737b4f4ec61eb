//! Configuration: the values given to options, and how two sets of them
//! merge.
//!
//! A configuration maps option names to lists of values. One is kept per
//! application and profile; on every run it is merged with what the command
//! line supplies. The command line wins, except for append-only options,
//! whose values are united.

use vstd::prelude::*;
use vstd::string::StringExecFns;
use crate::aspects::{
    ArgView, AspectView, ConfigArg, ContainerAspect, DockerfileSnippet, SnippetView, blank_aspect,
};
use crate::strings::copy_strings;

verus! {

/// The values of one option.
#[derive(Debug)]
pub struct ConfigEntry {
    pub name: String,
    pub values: Vec<String>,
}

/// The mathematical value of a [`ConfigEntry`].
pub struct EntryView {
    pub name: Seq<char>,
    pub values: Seq<Seq<char>>,
}

impl View for ConfigEntry {
    type V = EntryView;

    open spec fn view(&self) -> EntryView {
        EntryView { name: self.name@, values: self.values.deep_view() }
    }
}

impl DeepView for ConfigEntry {
    type V = EntryView;

    open spec fn deep_view(&self) -> EntryView {
        self@
    }
}

/// What a list of entries says of `name`: the values of the last entry that
/// goes by it.
pub open spec fn lookup(entries: Seq<EntryView>, name: Seq<char>) -> Option<Seq<Seq<char>>>
    decreases entries.len(),
{
    if entries.len() == 0 {
        None
    } else if entries.last().name == name {
        Some(entries.last().values)
    } else {
        lookup(entries.drop_last(), name)
    }
}

/// The mapping that a list of entries stands for.
pub open spec fn mapping(entries: Seq<EntryView>) -> Map<Seq<char>, Seq<Seq<char>>> {
    Map::new(
        |name: Seq<char>| lookup(entries, name) is Some,
        |name: Seq<char>| lookup(entries, name)->Some_0,
    )
}

/// `values` without repetitions: of equal values the first one stays, and
/// the rest keep their order.
pub open spec fn distinct(values: Seq<Seq<char>>) -> Seq<Seq<char>>
    decreases values.len(),
{
    if values.len() == 0 {
        Seq::empty()
    } else {
        let head = distinct(values.drop_last());
        if head.contains(values.last()) {
            head
        } else {
            head.push(values.last())
        }
    }
}

/// The union of persisted and supplied values in the order of discovery:
/// the persisted ones first, then the supplied ones, each value once.
pub open spec fn united(persisted: Seq<Seq<char>>, supplied: Seq<Seq<char>>) -> Seq<Seq<char>> {
    distinct(persisted + supplied)
}

/// Whether `args` declare the option `name` append-only.
pub open spec fn append_only(args: Seq<ArgView>, name: Seq<char>) -> bool {
    exists|i: int| 0 <= i < args.len() && #[trigger] args[i].name == name && args[i].multiple
}

/// Whether `args` declare an option `name`.
pub open spec fn declares(args: Seq<ArgView>, name: Seq<char>) -> bool {
    exists|i: int| 0 <= i < args.len() && #[trigger] args[i].name == name
}

/// The merged value of one option, from its persisted and its supplied value.
pub open spec fn merged_value(
    persisted: Option<Seq<Seq<char>>>,
    supplied: Option<Seq<Seq<char>>>,
    unite: bool,
) -> Option<Seq<Seq<char>>> {
    if unite {
        match (persisted, supplied) {
            (None, None) => None,
            (Some(p), None) => Some(united(p, Seq::empty())),
            (None, Some(s)) => Some(united(Seq::empty(), s)),
            (Some(p), Some(s)) => Some(united(p, s)),
        }
    } else {
        match supplied {
            Some(s) => Some(s),
            None => persisted,
        }
    }
}

/// The merge of a persisted configuration with a supplied one, under the
/// options that `args` declare.
pub open spec fn merged(
    persisted: Map<Seq<char>, Seq<Seq<char>>>,
    supplied: Map<Seq<char>, Seq<Seq<char>>>,
    args: Seq<ArgView>,
) -> Map<Seq<char>, Seq<Seq<char>>> {
    Map::new(
        |name: Seq<char>| persisted.contains_key(name) || supplied.contains_key(name),
        |name: Seq<char>|
            merged_value(persisted.get(name), supplied.get(name), append_only(args, name))->Some_0,
    )
}

/// The arguments that the values of an option with the run flag `flag` add
/// to a container run: the flag and the value, once for every value.
pub open spec fn flagged(flag: Seq<char>, values: Seq<Seq<char>>) -> Seq<Seq<char>> {
    values.flat_map(|value: Seq<char>| seq![flag, value])
}

/// The snippets that the values of an option with the snippet `snippet` add
/// to the image recipe: for every value one at the snippet's priority, whose
/// text is the snippet's followed by the value.
pub open spec fn templated(snippet: SnippetView, values: Seq<Seq<char>>) -> Seq<SnippetView> {
    values.map_values(
        |value: Seq<char>| SnippetView { order: snippet.order, content: snippet.content + value },
    )
}

/// The aspect that the values of one option make. It goes by the option's
/// name and brings what the option's run flag and snippet make of the
/// values.
pub open spec fn derived_aspect(arg: ArgView, values: Seq<Seq<char>>) -> AspectView {
    AspectView {
        run_args: Ok(
            match arg.run_flag {
                Some(flag) => flagged(flag, values),
                None => Seq::empty(),
            },
        ),
        dockerfile_snippets: match arg.snippet {
            Some(snippet) => templated(snippet, values),
            None => Seq::empty(),
        },
        ..blank_aspect(arg.name)
    }
}

/// The aspects that a configuration makes under the options `args`: one for
/// each option that has values, in the order of `args`.
pub open spec fn derived_aspects(
    args: Seq<ArgView>,
    config: Map<Seq<char>, Seq<Seq<char>>>,
) -> Seq<AspectView> {
    args.filter(|arg: ArgView| config.contains_key(arg.name)).map_values(
        |arg: ArgView| derived_aspect(arg, config[arg.name]),
    )
}

/// The aspects of one more option.
pub proof fn lemma_derived_aspects_push(
    args: Seq<ArgView>,
    arg: ArgView,
    config: Map<Seq<char>, Seq<Seq<char>>>,
)
    ensures
        derived_aspects(args.push(arg), config) == if config.contains_key(arg.name) {
            derived_aspects(args, config).push(derived_aspect(arg, config[arg.name]))
        } else {
            derived_aspects(args, config)
        },
{
    let configured = |arg: ArgView| config.contains_key(arg.name);
    let derive = |arg: ArgView| derived_aspect(arg, config[arg.name]);
    args.lemma_filter_push(arg, configured);
    if config.contains_key(arg.name) {
        args.filter(configured).lemma_push_map_commute(derive, arg);
    }
}

/// A list of entries after one more entry.
pub proof fn lemma_mapping_push(entries: Seq<EntryView>, entry: EntryView)
    ensures
        mapping(entries.push(entry)) == mapping(entries).insert(entry.name, entry.values),
{
    assert(entries.push(entry).drop_last() =~= entries);
    assert(mapping(entries.push(entry)) =~= mapping(entries).insert(entry.name, entry.values));
}

/// What a list of entries says of `name` after the values of one entry were
/// replaced.
pub proof fn lemma_lookup_update(
    entries: Seq<EntryView>,
    i: int,
    values: Seq<Seq<char>>,
    name: Seq<char>,
)
    requires
        0 <= i < entries.len(),
        forall|j: int| i < j < entries.len() ==> entries[j].name != entries[i].name,
    ensures
        lookup(entries.update(i, EntryView { name: entries[i].name, values }), name) == if name
            == entries[i].name {
            Some(values)
        } else {
            lookup(entries, name)
        },
    decreases entries.len(),
{
    let entry = EntryView { name: entries[i].name, values };
    let updated = entries.update(i, entry);
    if i == entries.len() - 1 {
        assert(updated.drop_last() =~= entries.drop_last());
    } else {
        lemma_lookup_update(entries.drop_last(), i, values, name);
        assert(updated.drop_last() =~= entries.drop_last().update(i, entry));
        assert(updated.last() == entries.last());
        assert(entries[entries.len() - 1].name != entries[i].name);
    }
}

/// A list of entries after the values of one entry were replaced.
pub proof fn lemma_mapping_update(entries: Seq<EntryView>, i: int, values: Seq<Seq<char>>)
    requires
        0 <= i < entries.len(),
        forall|j: int| i < j < entries.len() ==> entries[j].name != entries[i].name,
    ensures
        mapping(entries.update(i, EntryView { name: entries[i].name, values })) == mapping(
            entries,
        ).insert(entries[i].name, values),
{
    let updated = entries.update(i, EntryView { name: entries[i].name, values });
    let expected = mapping(entries).insert(entries[i].name, values);
    assert forall|name: Seq<char>| #[trigger]
        mapping(updated).dom().contains(name) == expected.dom().contains(name) by {
        lemma_lookup_update(entries, i, values, name);
    }
    assert forall|name: Seq<char>| #[trigger]
        mapping(updated).dom().contains(name) implies mapping(updated)[name] == expected[name] by {
        lemma_lookup_update(entries, i, values, name);
    }
    assert(mapping(updated) =~= expected);
}

/// What the last entry of a name says is what the whole list says of it.
pub proof fn lemma_lookup_last_match(entries: Seq<EntryView>, i: int)
    requires
        0 <= i < entries.len(),
        forall|j: int| i < j < entries.len() ==> entries[j].name != entries[i].name,
    ensures
        lookup(entries, entries[i].name) == Some(entries[i].values),
    decreases entries.len(),
{
    if i < entries.len() - 1 {
        lemma_lookup_last_match(entries.drop_last(), i);
    }
}

/// A name that no entry goes by has no values.
pub proof fn lemma_lookup_no_match(entries: Seq<EntryView>, name: Seq<char>)
    requires
        forall|j: int| 0 <= j < entries.len() ==> entries[j].name != name,
    ensures
        lookup(entries, name) is None,
    decreases entries.len(),
{
    if entries.len() > 0 {
        lemma_lookup_no_match(entries.drop_last(), name);
    }
}

/// A value is among the distinct ones exactly if it is among the values.
pub proof fn lemma_distinct_contains(values: Seq<Seq<char>>, value: Seq<char>)
    ensures
        distinct(values).contains(value) <==> values.contains(value),
    decreases values.len(),
{
    if values.len() > 0 {
        let init = values.drop_last();
        lemma_distinct_contains(init, value);
        lemma_distinct_contains(init, values.last());
        let head = distinct(init);
        if values.contains(value) {
            let i = choose|i: int| 0 <= i < values.len() && values[i] == value;
            if i < values.len() - 1 {
                assert(init[i] == value);
            }
        }
        if distinct(values).contains(value) {
            if head.contains(value) {
                let i = choose|i: int| 0 <= i < init.len() && init[i] == value;
                assert(values[i] == value);
            } else {
                assert(head.push(values.last()).contains(value));
                let i = choose|i: int|
                    0 <= i < head.push(values.last()).len() && head.push(values.last())[i]
                        == value;
                assert(i == head.len());
                assert(values[values.len() - 1] == value);
            }
        } else if values.contains(value) {
            if head.contains(values.last()) {
            } else {
                assert(head.push(values.last())[head.len() as int] == values.last());
                if value != values.last() {
                    let i = choose|i: int| 0 <= i < head.len() && head[i] == value;
                    assert(head.push(values.last())[i] == value);
                }
            }
        }
    }
}

/// No value occurs twice among the distinct ones.
pub proof fn lemma_distinct_no_duplicates(values: Seq<Seq<char>>)
    ensures
        distinct(values).no_duplicates(),
    decreases values.len(),
{
    if values.len() > 0 {
        lemma_distinct_no_duplicates(values.drop_last());
    }
}

/// Values that are distinct already stay as they are, and stay in front when
/// more values follow.
pub proof fn lemma_distinct_keeps_prefix(front: Seq<Seq<char>>, back: Seq<Seq<char>>)
    requires
        front.no_duplicates(),
    ensures
        front.is_prefix_of(distinct(front + back)),
    decreases back.len(),
{
    if back.len() == 0 {
        assert(front + back =~= front);
        lemma_distinct_same(front);
    } else {
        lemma_distinct_keeps_prefix(front, back.drop_last());
        assert((front + back).drop_last() =~= front + back.drop_last());
    }
}

/// Values without repetitions are their own distinct values.
pub proof fn lemma_distinct_same(values: Seq<Seq<char>>)
    requires
        values.no_duplicates(),
    ensures
        distinct(values) == values,
    decreases values.len(),
{
    if values.len() > 0 {
        let init = values.drop_last();
        lemma_distinct_same(init);
        lemma_distinct_contains(init, values.last());
        if init.contains(values.last()) {
            let i = choose|i: int| 0 <= i < init.len() && init[i] == values.last();
            assert(values[i] == values[values.len() - 1]);
        }
        assert(init.push(values.last()) =~= values);
    }
}

/// The merge rule, option by option. An option that the command line
/// supplies and that is not append-only takes the supplied value; one that
/// the command line leaves out keeps the persisted value. An append-only
/// option takes the union of both: every persisted and every supplied value,
/// none twice, and the persisted ones in front in their own order where they
/// hold no repetition themselves.
pub proof fn law_merge(
    persisted: Map<Seq<char>, Seq<Seq<char>>>,
    supplied: Map<Seq<char>, Seq<Seq<char>>>,
    args: Seq<ArgView>,
    name: Seq<char>,
)
    ensures
        merged(persisted, supplied, args).contains_key(name) <==> persisted.contains_key(name)
            || supplied.contains_key(name),
        !append_only(args, name) && supplied.contains_key(name) ==> merged(
            persisted,
            supplied,
            args,
        )[name] == supplied[name],
        !append_only(args, name) && !supplied.contains_key(name) && persisted.contains_key(name)
            ==> merged(persisted, supplied, args)[name] == persisted[name],
        append_only(args, name) && persisted.contains_key(name) && supplied.contains_key(name)
            ==> {
            let union = merged(persisted, supplied, args)[name];
            &&& union == united(persisted[name], supplied[name])
            &&& union.no_duplicates()
            &&& forall|value: Seq<char>|
                union.contains(value) <==> persisted[name].contains(value)
                    || supplied[name].contains(value)
            &&& persisted[name].no_duplicates() ==> persisted[name].is_prefix_of(union)
        },
{
    if append_only(args, name) && persisted.contains_key(name) && supplied.contains_key(name) {
        let p = persisted[name];
        let s = supplied[name];
        let union = united(p, s);
        lemma_distinct_no_duplicates(p + s);
        assert forall|value: Seq<char>|
            union.contains(value) <==> p.contains(value) || s.contains(value) by {
            lemma_distinct_contains(p + s, value);
            if p.contains(value) {
                let i = choose|i: int| 0 <= i < p.len() && p[i] == value;
                assert((p + s)[i] == value);
            }
            if s.contains(value) {
                let i = choose|i: int| 0 <= i < s.len() && s[i] == value;
                assert((p + s)[p.len() + i] == value);
            }
            if (p + s).contains(value) {
                let i = choose|i: int| 0 <= i < (p + s).len() && (p + s)[i] == value;
                if i < p.len() {
                    assert(p[i] == value);
                } else {
                    assert(s[i - p.len()] == value);
                }
            }
        }
        if p.no_duplicates() {
            lemma_distinct_keeps_prefix(p, s);
        }
    }
}

/// The name of the option that selects a profile.
pub const PROFILE: &'static str = "profile";

/// The options that every application has, whatever its aspects.
pub open spec fn cli_args_view() -> Seq<ArgView> {
    seq![
        ArgView { name: PROFILE@, multiple: false, required: false, run_flag: None, snippet: None },
    ]
}

/// The options that every application has, whatever its aspects: the
/// profile.
pub fn cli_args() -> (args: Vec<ConfigArg>)
    ensures
        args.deep_view() == cli_args_view(),
{
    let mut args: Vec<ConfigArg> = Vec::new();
    args.push(ConfigArg::new(PROFILE));
    assert(args.deep_view() =~= cli_args_view());
    args
}

/// The profile that a configuration selects: the first value of the profile
/// option, if it has one.
pub open spec fn profile_of(config: Map<Seq<char>, Seq<Seq<char>>>) -> Option<Seq<char>> {
    if config.contains_key(PROFILE@) && config[PROFILE@].len() > 0 {
        Some(config[PROFILE@][0])
    } else {
        None
    }
}

/// The values of options, by option name.
#[derive(Debug)]
pub struct Config {
    entries: Vec<ConfigEntry>,
}

impl View for Config {
    type V = Map<Seq<char>, Seq<Seq<char>>>;

    closed spec fn view(&self) -> Map<Seq<char>, Seq<Seq<char>>> {
        mapping(self.entries.deep_view())
    }
}

/// Whether `values` holds `value`.
fn holds(values: &Vec<String>, value: &String) -> (found: bool)
    ensures
        found == values.deep_view().contains(value@),
{
    let mut i: usize = 0;
    while i < values.len()
        invariant
            i <= values.len(),
            forall|j: int| 0 <= j < i ==> values.deep_view()[j] != value@,
        decreases values.len() - i,
    {
        if values[i] == *value {
            assert(values.deep_view()[i as int] == value@);
            return true;
        }
        i = i + 1;
    }
    false
}

/// Appends to `into` the values of `from` that it does not hold yet, where
/// `into` holds the distinct values of `seen`.
fn unite_into(into: &mut Vec<String>, from: &Vec<String>, Ghost(seen): Ghost<Seq<Seq<char>>>)
    requires
        old(into).deep_view() == distinct(seen),
    ensures
        final(into).deep_view() == distinct(seen + from.deep_view()),
{
    let mut i: usize = 0;
    proof {
        assert(seen + from.deep_view().take(0) =~= seen);
    }
    while i < from.len()
        invariant
            i <= from.len(),
            into.deep_view() == distinct(seen + from.deep_view().take(i as int)),
        decreases from.len() - i,
    {
        let ghost so_far = seen + from.deep_view().take(i as int);
        proof {
            assert((seen + from.deep_view().take(i + 1)).drop_last() =~= so_far);
            assert((seen + from.deep_view().take(i + 1)).last() == from.deep_view()[i as int]);
        }
        if !holds(into, &from[i]) {
            let ghost before = into.deep_view();
            into.push(from[i].clone());
            assert(into.deep_view() =~= before.push(from.deep_view()[i as int]));
        }
        i = i + 1;
    }
    proof {
        assert(from.deep_view().take(i as int) =~= from.deep_view());
    }
}

/// Whether `args` declare the option `name`, and whether append-only.
fn declared(args: &Vec<ConfigArg>, name: &String) -> (found: (bool, bool))
    ensures
        found.0 == declares(args.deep_view(), name@),
        found.1 == append_only(args.deep_view(), name@),
{
    let mut any = false;
    let mut multiple = false;
    let mut i: usize = 0;
    while i < args.len()
        invariant
            i <= args.len(),
            any == declares(args.deep_view().take(i as int), name@),
            multiple == append_only(args.deep_view().take(i as int), name@),
        decreases args.len() - i,
    {
        let ghost all = args.deep_view();
        let ghost seen = all.take(i as int);
        let ghost next = all.take(i + 1);
        proof {
            assert(next =~= seen.push(all[i as int]));
            if declares(seen, name@) {
                let j = choose|j: int| 0 <= j < seen.len() && #[trigger] seen[j].name == name@;
                assert(next[j].name == name@);
            }
            if append_only(seen, name@) {
                let j = choose|j: int|
                    0 <= j < seen.len() && #[trigger] seen[j].name == name@ && seen[j].multiple;
                assert(next[j].name == name@ && next[j].multiple);
            }
            if declares(next, name@) {
                let j = choose|j: int| 0 <= j < next.len() && #[trigger] next[j].name == name@;
                if j < i {
                    assert(seen[j].name == name@);
                }
            }
            if append_only(next, name@) {
                let j = choose|j: int|
                    0 <= j < next.len() && #[trigger] next[j].name == name@ && next[j].multiple;
                if j < i {
                    assert(seen[j].name == name@ && seen[j].multiple);
                }
            }
        }
        if args[i].name == *name {
            assert(next[i as int].name == name@);
            any = true;
            if args[i].multiple {
                multiple = true;
            }
        }
        i = i + 1;
    }
    assert(args.deep_view().take(i as int) =~= args.deep_view());
    (any, multiple)
}

/// The aspect that the values `values` of the option `arg` make.
pub fn derive(arg: &ConfigArg, values: &Vec<String>) -> (aspect: ContainerAspect)
    ensures
        aspect@ == derived_aspect(arg@, values.deep_view()),
{
    let mut run_args: Vec<String> = Vec::new();
    let mut snippets: Vec<DockerfileSnippet> = Vec::new();
    assert(run_args.deep_view() =~= Seq::empty());
    assert(snippets.deep_view() =~= Seq::empty());
    if let Some(flag) = &arg.run_flag {
        let ghost pair = |value: Seq<char>| seq![flag@, value];
        let mut k: usize = 0;
        assert(values.deep_view().take(0).flat_map(pair) =~= Seq::empty()) by {
            assert(values.deep_view().take(0).map_values(pair) =~= Seq::empty());
        }
        while k < values.len()
            invariant
                k <= values.len(),
                pair == |value: Seq<char>| seq![flag@, value],
                run_args.deep_view() == values.deep_view().take(k as int).flat_map(pair),
            decreases values.len() - k,
        {
            proof {
                values.deep_view().lemma_flat_map_take_append(pair, k as int);
            }
            let ghost before = run_args.deep_view();
            run_args.push(flag.clone());
            run_args.push(values[k].clone());
            assert(run_args.deep_view() =~= before + seq![flag@, values.deep_view()[k as int]]);
            k = k + 1;
        }
        assert(values.deep_view().take(k as int) =~= values.deep_view());
    }
    if let Some(snippet) = &arg.snippet {
        let ghost template = snippet@;
        let mut k: usize = 0;
        assert(snippets.deep_view() =~= templated(template, values.deep_view().take(0)));
        while k < values.len()
            invariant
                k <= values.len(),
                template == snippet@,
                snippets.deep_view() == templated(template, values.deep_view().take(k as int)),
            decreases values.len() - k,
        {
            let ghost before = snippets.deep_view();
            let mut content = snippet.content.clone();
            content.append(values[k].as_str());
            snippets.push(DockerfileSnippet { order: snippet.order, content });
            proof {
                let value = values.deep_view()[k as int];
                let made = SnippetView { order: template.order, content: template.content + value };
                assert(snippets.deep_view() =~= before.push(made));
                assert(values.deep_view().take(k + 1) =~= values.deep_view().take(k as int).push(
                    value,
                ));
                assert(templated(template, values.deep_view().take(k + 1)) =~= before.push(made));
            }
            k = k + 1;
        }
        assert(values.deep_view().take(k as int) =~= values.deep_view());
    }
    let mut aspect = ContainerAspect::new(arg.name.clone());
    aspect.run_args = Ok(run_args);
    aspect.dockerfile_snippets = snippets;
    aspect
}

/// Whether no two entries go by one name.
pub open spec fn names_differ(entries: Seq<EntryView>) -> bool {
    forall|i: int, j: int| 0 <= i < j < entries.len() ==> entries[i].name != entries[j].name
}

/// An option has values exactly if an entry goes by its name.
pub proof fn lemma_mapping_dom(entries: Seq<EntryView>, name: Seq<char>)
    ensures
        mapping(entries).contains_key(name) <==> exists|j: int|
            0 <= j < entries.len() && #[trigger] entries[j].name == name,
    decreases entries.len(),
{
    if entries.len() > 0 {
        lemma_mapping_dom(entries.drop_last(), name);
        if mapping(entries).contains_key(name) {
            if entries.last().name == name {
                assert(entries[entries.len() - 1].name == name);
            } else {
                let j = choose|j: int|
                    0 <= j < entries.drop_last().len() && #[trigger] entries.drop_last()[j].name
                        == name;
                assert(entries[j].name == name);
            }
        }
        if exists|j: int| 0 <= j < entries.len() && #[trigger] entries[j].name == name {
            let j = choose|j: int| 0 <= j < entries.len() && #[trigger] entries[j].name == name;
            if entries.last().name != name {
                assert(entries.drop_last()[j].name == name);
            }
        }
    }
}

/// Whether one of the first `count` entries goes by `name`.
pub open spec fn named_among(entries: Seq<EntryView>, count: int, name: Seq<char>) -> bool {
    exists|j: int| 0 <= j < count && j < entries.len() && #[trigger] entries[j].name == name
}

/// The mathematical value of values that may be missing.
pub open spec fn values_view(values: Option<&Vec<String>>) -> Option<Seq<Seq<char>>> {
    match values {
        Some(v) => Some(v.deep_view()),
        None => None,
    }
}

/// The merged value of one option that has a persisted or a supplied value.
fn merge_values(persisted: Option<&Vec<String>>, supplied: Option<&Vec<String>>, unite: bool) -> (r:
    Vec<String>)
    requires
        persisted is Some || supplied is Some,
    ensures
        Some(r.deep_view()) == merged_value(values_view(persisted), values_view(supplied), unite),
{
    if unite {
        let mut union: Vec<String> = Vec::new();
        let ghost mut seen: Seq<Seq<char>> = Seq::empty();
        assert(union.deep_view() =~= distinct(seen));
        if let Some(p) = persisted {
            unite_into(&mut union, p, Ghost(seen));
            proof {
                seen = seen + p.deep_view();
            }
        }
        if let Some(s) = supplied {
            unite_into(&mut union, s, Ghost(seen));
            proof {
                seen = seen + s.deep_view();
            }
        }
        proof {
            let empty = Seq::<Seq<char>>::empty();
            match (persisted, supplied) {
                (Some(p), Some(s)) => {
                    assert(seen =~= p.deep_view() + s.deep_view());
                },
                (Some(p), None) => {
                    assert(seen =~= p.deep_view() + empty);
                },
                (None, Some(s)) => {
                    assert(seen =~= empty + s.deep_view());
                },
                (None, None) => {},
            }
        }
        union
    } else {
        match supplied {
            Some(s) => copy_strings(s),
            None => match persisted {
                Some(p) => copy_strings(p),
                None => Vec::new(),
            },
        }
    }
}

impl Config {
    #[verifier::type_invariant]
    spec fn names_are_distinct(&self) -> bool {
        names_differ(self.entries.deep_view())
    }

    /// The entries, in the order in which the options first got values. No
    /// two of them go by one name.
    pub closed spec fn entries_view(&self) -> Seq<EntryView> {
        self.entries.deep_view()
    }

    /// A configuration that gives no option a value.
    pub fn new() -> (config: Config)
        ensures
            config@ == Map::<Seq<char>, Seq<Seq<char>>>::empty(),
            config.entries_view() == Seq::<EntryView>::empty(),
    {
        let config = Config { entries: Vec::new() };
        assert(config.entries.deep_view() =~= Seq::empty());
        assert(config@ =~= Map::<Seq<char>, Seq<Seq<char>>>::empty());
        config
    }

    /// The place of the entry that goes by `name`.
    fn position(&self, name: &String) -> (at: Option<usize>)
        ensures
            match at {
                Some(i) => {
                    &&& i < self.entries.len()
                    &&& self.entries.deep_view()[i as int].name == name@
                    &&& forall|j: int|
                        0 <= j < self.entries.len() && j != i ==> self.entries.deep_view()[j].name
                            != name@
                },
                None => forall|j: int|
                    0 <= j < self.entries.len() ==> self.entries.deep_view()[j].name != name@,
            },
    {
        proof {
            use_type_invariant(self);
        }
        let mut i: usize = self.entries.len();
        while i > 0
            invariant
                i <= self.entries.len(),
                names_differ(self.entries.deep_view()),
                forall|j: int|
                    i <= j < self.entries.len() ==> self.entries.deep_view()[j].name != name@,
            decreases i,
        {
            i = i - 1;
            if self.entries[i].name == *name {
                assert forall|j: int| 0 <= j < self.entries.len() && j != i implies
                    self.entries.deep_view()[j].name != name@ by {
                    if j < i {
                        assert(self.entries.deep_view()[j].name != self.entries.deep_view()[i as int].name);
                    }
                }
                return Some(i);
            }
        }
        None
    }

    /// The values of the option `name`, if it has any.
    pub fn get(&self, name: &str) -> (values: Option<&Vec<String>>)
        ensures
            match values {
                Some(v) => self@.contains_key(name@) && v.deep_view() == self@[name@],
                None => !self@.contains_key(name@),
            },
    {
        let key = String::from_str(name);
        match self.position(&key) {
            Some(i) => {
                proof {
                    lemma_lookup_last_match(self.entries.deep_view(), i as int);
                }
                Some(&self.entries[i].values)
            },
            None => {
                proof {
                    lemma_lookup_no_match(self.entries.deep_view(), name@);
                }
                None
            },
        }
    }

    /// Gives the option `name` the values `values`, in place of any it had.
    /// An option that is new goes last.
    pub fn set(&mut self, name: &str, values: Vec<String>)
        ensures
            final(self)@ == old(self)@.insert(name@, values.deep_view()),
            final(self).entries_view() == if old(self)@.contains_key(name@) {
                let i = choose|i: int|
                    0 <= i < old(self).entries_view().len() && old(self).entries_view()[i].name
                        == name@;
                old(self).entries_view().update(
                    i,
                    EntryView { name: name@, values: values.deep_view() },
                )
            } else {
                old(self).entries_view().push(
                    EntryView { name: name@, values: values.deep_view() },
                )
            },
    {
        let key = String::from_str(name);
        let ghost before = self.entries.deep_view();
        let ghost entry = EntryView { name: name@, values: values.deep_view() };
        proof {
            use_type_invariant(&*self);
            lemma_mapping_dom(before, name@);
        }
        match self.position(&key) {
            Some(i) => {
                proof {
                    lemma_mapping_update(before, i as int, values.deep_view());
                    assert(before.update(i as int, entry).len() == before.len());
                    assert(names_differ(before.update(i as int, entry)));
                }
                let mut entries = Vec::new();
                std::mem::swap(&mut entries, &mut self.entries);
                entries[i].values = values;
                assert(entries.deep_view() =~= before.update(i as int, entry));
                self.entries = entries;
            },
            None => {
                proof {
                    lemma_mapping_push(before, entry);
                    assert(names_differ(before.push(entry)));
                }
                let mut entries = Vec::new();
                std::mem::swap(&mut entries, &mut self.entries);
                entries.push(ConfigEntry { name: key, values });
                assert(entries.deep_view() =~= before.push(entry));
                self.entries = entries;
            },
        }
    }

    /// The number of options that have values.
    pub fn len(&self) -> (n: usize)
        ensures
            n == self.entries_view().len(),
    {
        self.entries.len()
    }

    /// The option at place `i`, with its values.
    pub fn entry(&self, i: usize) -> (entry: &ConfigEntry)
        requires
            i < self.entries_view().len(),
        ensures
            entry@ == self.entries_view()[i as int],
            self@.contains_key(entry@.name),
            self@[entry@.name] == entry@.values,
    {
        proof {
            use_type_invariant(self);
            lemma_lookup_last_match(self.entries.deep_view(), i as int);
        }
        &self.entries[i]
    }

    /// A copy of this configuration.
    pub fn duplicate(&self) -> (copy: Config)
        ensures
            copy@ == self@,
            copy.entries_view() == self.entries_view(),
    {
        proof {
            use_type_invariant(self);
        }
        let mut entries: Vec<ConfigEntry> = Vec::new();
        let mut i: usize = 0;
        while i < self.entries.len()
            invariant
                i <= self.entries.len(),
                entries.deep_view() == self.entries.deep_view().take(i as int),
            decreases self.entries.len() - i,
        {
            let ghost before = entries.deep_view();
            let entry = ConfigEntry {
                name: self.entries[i].name.clone(),
                values: copy_strings(&self.entries[i].values),
            };
            entries.push(entry);
            assert(entries.deep_view() =~= before.push(self.entries.deep_view()[i as int]));
            assert(self.entries.deep_view().take(i + 1) =~= before.push(
                self.entries.deep_view()[i as int],
            ));
            i = i + 1;
        }
        assert(self.entries.deep_view().take(i as int) =~= self.entries.deep_view());
        Config { entries }
    }

    /// This configuration, which was persisted, merged with the one that the
    /// command line supplied. Of an option that both give, the supplied value
    /// stands, unless `args` declare the option append-only: then it gets
    /// the persisted and the supplied values, each once, in that order.
    pub fn merge(&self, supplied: &Config, args: &Vec<ConfigArg>) -> (result: Config)
        ensures
            result@ == merged(self@, supplied@, args.deep_view()),
    {
        let ghost target = merged(self@, supplied@, args.deep_view());
        let mut result = Config::new();
        let mut i: usize = 0;
        while i < self.len()
            invariant
                i <= self.entries_view().len(),
                target == merged(self@, supplied@, args.deep_view()),
                forall|name: Seq<char>|
                    #![trigger result@.contains_key(name)]
                    result@.contains_key(name) <==> named_among(
                        self.entries_view(),
                        i as int,
                        name,
                    ),
                forall|name: Seq<char>| #[trigger]
                    result@.contains_key(name) ==> result@[name] == target[name],
            decreases self.entries_view().len() - i,
        {
            let entry = self.entry(i);
            let unite = declared(args, &entry.name).1;
            let value = merge_values(
                Some(&entry.values),
                supplied.get(entry.name.as_str()),
                unite,
            );
            let ghost before = result@;
            result.set(entry.name.as_str(), value);
            proof {
                let entries = self.entries_view();
                assert forall|name: Seq<char>|
                    #![trigger result@.contains_key(name)]
                    result@.contains_key(name) <==> named_among(
                        entries,
                        i + 1,
                        name,
                    ) by {
                    if named_among(entries, i + 1, name) {
                        let j = choose|j: int|
                            0 <= j < i + 1 && j < entries.len() && #[trigger] entries[j].name
                                == name;
                        if j < i {
                            assert(named_among(entries, i as int, name));
                        }
                    }
                    if before.contains_key(name) {
                        assert(named_among(entries, i as int, name));
                        let j = choose|j: int|
                            0 <= j < i && j < entries.len() && #[trigger] entries[j].name == name;
                        assert(entries[j].name == name);
                    }
                    if name == entry@.name {
                        assert(entries[i as int].name == name);
                    }
                }
            }
            i = i + 1;
        }
        let mut k: usize = 0;
        proof {
            assert forall|name: Seq<char>|
                #![trigger result@.contains_key(name)]
                result@.contains_key(name) <==> self@.contains_key(name) || named_among(
                    supplied.entries_view(),
                    k as int,
                    name,
                ) by {
                self.lemma_named(name);
                assert(named_among(self.entries_view(), i as int, name) <==> result@.contains_key(
                    name,
                ));
            }
        }
        while k < supplied.len()
            invariant
                k <= supplied.entries_view().len(),
                target == merged(self@, supplied@, args.deep_view()),
                forall|name: Seq<char>|
                    #![trigger result@.contains_key(name)]
                    result@.contains_key(name) <==> self@.contains_key(name) || named_among(
                        supplied.entries_view(),
                        k as int,
                        name,
                    ),
                forall|name: Seq<char>| #[trigger]
                    result@.contains_key(name) ==> result@[name] == target[name],
            decreases supplied.entries_view().len() - k,
        {
            let entry = supplied.entry(k);
            if self.get(entry.name.as_str()).is_none() {
                let unite = declared(args, &entry.name).1;
                let value = merge_values(None, Some(&entry.values), unite);
                result.set(entry.name.as_str(), value);
            }
            proof {
                let entries = supplied.entries_view();
                assert forall|name: Seq<char>|
                    #![trigger result@.contains_key(name)]
                    result@.contains_key(name) <==> self@.contains_key(name) || named_among(
                        entries,
                        k + 1,
                        name,
                    ) by {
                    if named_among(entries, k + 1, name) {
                        let j = choose|j: int|
                            0 <= j < k + 1 && j < entries.len() && #[trigger] entries[j].name
                                == name;
                        if j < k {
                            assert(named_among(entries, k as int, name));
                        }
                    }
                    if named_among(entries, k as int, name) {
                        let j = choose|j: int|
                            0 <= j < k && j < entries.len() && #[trigger] entries[j].name == name;
                        assert(entries[j].name == name);
                    }
                    if name == entry@.name {
                        assert(entries[k as int].name == name);
                    }
                }
            }
            k = k + 1;
        }
        proof {
            assert forall|name: Seq<char>| #[trigger]
                result@.dom().contains(name) == target.dom().contains(name) by {
                supplied.lemma_named(name);
            }
            assert(result@ =~= target);
        }
        result
    }

    /// The values of this configuration for the options that `args` declare.
    pub fn restricted_to(&self, args: &Vec<ConfigArg>) -> (result: Config)
        ensures
            result@ == self@.restrict(Set::new(|name: Seq<char>| declares(args.deep_view(), name))),
    {
        let ghost target = self@.restrict(
            Set::new(|name: Seq<char>| declares(args.deep_view(), name)),
        );
        let mut result = Config::new();
        let mut i: usize = 0;
        while i < self.len()
            invariant
                i <= self.entries_view().len(),
                forall|name: Seq<char>|
                    #![trigger result@.contains_key(name)]
                    result@.contains_key(name) <==> declares(args.deep_view(), name)
                        && named_among(self.entries_view(), i as int, name),
                forall|name: Seq<char>| #[trigger]
                    result@.contains_key(name) ==> result@[name] == self@[name],
            decreases self.entries_view().len() - i,
        {
            let entry = self.entry(i);
            if declared(args, &entry.name).0 {
                result.set(entry.name.as_str(), copy_strings(&entry.values));
            }
            proof {
                let entries = self.entries_view();
                assert forall|name: Seq<char>|
                    #![trigger result@.contains_key(name)]
                    result@.contains_key(name) <==> declares(args.deep_view(), name)
                        && named_among(entries, i + 1, name) by {
                    if named_among(entries, i + 1, name) {
                        let j = choose|j: int|
                            0 <= j < i + 1 && j < entries.len() && #[trigger] entries[j].name
                                == name;
                        if j < i {
                            assert(named_among(entries, i as int, name));
                        }
                    }
                    if named_among(entries, i as int, name) {
                        let j = choose|j: int|
                            0 <= j < i && j < entries.len() && #[trigger] entries[j].name == name;
                        assert(entries[j].name == name);
                    }
                    if name == entry@.name {
                        assert(entries[i as int].name == name);
                    }
                }
            }
            i = i + 1;
        }
        proof {
            assert forall|name: Seq<char>| #[trigger]
                result@.dom().contains(name) == target.dom().contains(name) by {
                self.lemma_named(name);
            }
            assert(result@ =~= target);
        }
        result
    }

    /// The aspects that this configuration makes under the options `args`:
    /// one for each option that has values, in the order of `args`.
    pub fn get_aspects(&self, args: &Vec<ConfigArg>) -> (aspects: Vec<ContainerAspect>)
        ensures
            aspects.deep_view() == derived_aspects(args.deep_view(), self@),
    {
        let ghost all = args.deep_view();
        let mut aspects: Vec<ContainerAspect> = Vec::new();
        let mut i: usize = 0;
        proof {
            reveal(Seq::filter);
            assert(all.take(0) =~= Seq::empty());
            assert(derived_aspects(all.take(0), self@) =~= Seq::empty());
            assert(aspects.deep_view() =~= Seq::empty());
        }
        while i < args.len()
            invariant
                i <= args.len(),
                all == args.deep_view(),
                aspects.deep_view() == derived_aspects(all.take(i as int), self@),
            decreases args.len() - i,
        {
            proof {
                lemma_derived_aspects_push(all.take(i as int), all[i as int], self@);
                assert(all.take(i as int).push(all[i as int]) =~= all.take(i + 1));
            }
            let arg = &args[i];
            if let Some(values) = self.get(arg.name.as_str()) {
                let ghost before = aspects.deep_view();
                let aspect = derive(arg, values);
                aspects.push(aspect);
                assert(aspects.deep_view() =~= before.push(
                    derived_aspect(all[i as int], self@[all[i as int].name]),
                ));
            }
            i = i + 1;
        }
        assert(all.take(i as int) =~= all);
        aspects
    }

    /// An option has values exactly if an entry goes by its name.
    proof fn lemma_named(&self, name: Seq<char>)
        ensures
            self@.contains_key(name) <==> named_among(
                self.entries_view(),
                self.entries_view().len() as int,
                name,
            ),
    {
        lemma_mapping_dom(self.entries.deep_view(), name);
    }

    /// The profile that this configuration selects.
    pub fn profile(&self) -> (profile: Option<String>)
        ensures
            match profile {
                Some(name) => profile_of(self@) == Some(name@),
                None => profile_of(self@) is None,
            },
    {
        match self.get(PROFILE) {
            Some(values) => if values.len() > 0 {
                Some(values[0].clone())
            } else {
                None
            },
            None => None,
        }
    }
}

} // verus!
