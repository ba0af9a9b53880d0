//! Tunable parameters that a script declares with `param(name, default, min, max)`.
//!
//! A host renders one control per parameter and feeds new values back with
//! [`ParamRegistry::set`]; the script reads the current value back each time it calls
//! `param`, so a value chosen by the host survives a reload of the script.

use vstd::prelude::*;
use vstd::string::StringExecFns;

use crate::json::{
    json_string, law_params_json_reads_back, parse_params_json, row_fields, scalar_texts,
    write_json_string,
};
use crate::text::{join_strings, joined, string_views};

verus! {

/// The bounds a script gives when it declares a parameter.
pub struct ParamSpec<V> {
    pub default: V,
    pub min: V,
    pub max: V,
}

/// The value at position `i` of the script's extra arguments, else `fallback`.
pub open spec fn arg_or<V>(args: Seq<V>, i: int, fallback: V) -> V {
    if 0 <= i < args.len() {
        args[i]
    } else {
        fallback
    }
}

impl<V: Copy> ParamSpec<V> {
    /// Reads `default, min, max` from the arguments that follow the name in
    /// `param(name, default, min, max)`; a missing one takes the matching `fallback` field.
    pub fn from_args(args: &Vec<V>, fallback: ParamSpec<V>) -> (spec: ParamSpec<V>)
        ensures
            spec.default == arg_or(args@, 0, fallback.default),
            spec.min == arg_or(args@, 1, fallback.min),
            spec.max == arg_or(args@, 2, fallback.max),
            args@.len() >= 1 ==> spec.default == args@[0],
            args@.len() >= 2 ==> spec.min == args@[1],
            args@.len() >= 3 ==> spec.max == args@[2],
            args@.len() < 1 ==> spec.default == fallback.default,
            args@.len() < 2 ==> spec.min == fallback.min,
            args@.len() < 3 ==> spec.max == fallback.max,
    {
        let default = if args.len() > 0 { args[0] } else { fallback.default };
        let min = if args.len() > 1 { args[1] } else { fallback.min };
        let max = if args.len() > 2 { args[2] } else { fallback.max };
        ParamSpec { default, min, max }
    }
}

/// An argument that was given is taken as it is; one that was left out takes the fallback.
pub proof fn law_arg_or_takes_given<V>(args: Seq<V>, i: int, fallback: V)
    requires
        0 <= i,
    ensures
        i < args.len() ==> arg_or(args, i, fallback) == args[i],
        i >= args.len() ==> arg_or(args, i, fallback) == fallback,
{
}

/// One declared parameter.
pub struct ParamDef<V> {
    pub name: String,
    pub value: V,
    pub min: V,
    pub max: V,
}

/// A declared parameter as the contracts see it.
pub struct ParamEntry<V> {
    pub name: Seq<char>,
    pub value: V,
    pub min: V,
    pub max: V,
}

impl<V> ParamDef<V> {
    pub open spec fn entry(&self) -> ParamEntry<V> {
        ParamEntry { name: self.name@, value: self.value, min: self.min, max: self.max }
    }
}

/// The parameters declared so far, in the order of their first declaration.
pub struct ParamRegistry<V> {
    defs: Vec<ParamDef<V>>,
}

/// Some parameter carries this name.
pub open spec fn has_name<V>(s: Seq<ParamEntry<V>>, name: Seq<char>) -> bool {
    exists|i: int| 0 <= i < s.len() && s[i].name == name
}

/// The position of the parameter with this name (meaningful when [`has_name`] holds).
pub open spec fn index_of<V>(s: Seq<ParamEntry<V>>, name: Seq<char>) -> int {
    choose|i: int| 0 <= i < s.len() && s[i].name == name
}

/// No two parameters share a name.
pub open spec fn names_distinct<V>(s: Seq<ParamEntry<V>>) -> bool {
    forall|i: int, j: int| 0 <= i < s.len() && 0 <= j < s.len() && i != j ==> s[i].name != s[j].name
}

/// What `param(name, ..)` gives back: the stored value of a known name, else the default.
pub open spec fn declared_value<V>(s: Seq<ParamEntry<V>>, name: Seq<char>, spec: ParamSpec<V>) -> V {
    if has_name(s, name) {
        s[index_of(s, name)].value
    } else {
        spec.default
    }
}

/// The parameters after `param(name, ..)`: a new name is appended with its default value.
pub open spec fn after_declare<V>(s: Seq<ParamEntry<V>>, name: Seq<char>, spec: ParamSpec<V>) -> Seq<
    ParamEntry<V>,
> {
    if has_name(s, name) {
        s
    } else {
        s.push(ParamEntry { name, value: spec.default, min: spec.min, max: spec.max })
    }
}

/// The parameters after the host sets `name` to `value`: unknown names change nothing.
pub open spec fn after_set<V>(s: Seq<ParamEntry<V>>, name: Seq<char>, value: V) -> Seq<ParamEntry<V>> {
    if has_name(s, name) {
        let i = index_of(s, name);
        s.update(i, ParamEntry { name: s[i].name, value, min: s[i].min, max: s[i].max })
    } else {
        s
    }
}

/// With distinct names, the position of a name is the one carrying it.
pub proof fn lemma_index_of_unique<V>(s: Seq<ParamEntry<V>>, name: Seq<char>, i: int)
    requires
        names_distinct(s),
        0 <= i < s.len(),
        s[i].name == name,
    ensures
        has_name(s, name),
        index_of(s, name) == i,
{
    assert(has_name(s, name));
}

impl<V> View for ParamRegistry<V> {
    type V = Seq<ParamEntry<V>>;

    closed spec fn view(&self) -> Seq<ParamEntry<V>> {
        self.defs@.map_values(|d: ParamDef<V>| d.entry())
    }
}

impl<V> ParamRegistry<V> {
    /// The registry's invariant: no two parameters share a name.
    #[verifier::type_invariant]
    spec fn names_are_distinct(self) -> bool {
        names_distinct(self@)
    }
}

impl<V: Copy> ParamRegistry<V> {

    /// An empty registry.
    pub fn new() -> (r: Self)
        ensures
            names_distinct(r@),
            r@ == Seq::<ParamEntry<V>>::empty(),
    {
        let r = ParamRegistry { defs: Vec::new() };
        assert(r@ =~= Seq::<ParamEntry<V>>::empty());
        r
    }

    /// The declared parameters, in declaration order.
    pub fn defs(&self) -> (d: &Vec<ParamDef<V>>)
        ensures
            d@.map_values(|x: ParamDef<V>| x.entry()) == self@,
            names_distinct(self@),
    {
        proof {
            use_type_invariant(self);
        }
        &self.defs
    }

    /// The number of declared parameters.
    pub fn len(&self) -> (n: usize)
        ensures
            n == self@.len(),
            names_distinct(self@),
    {
        proof {
            use_type_invariant(self);
        }
        self.defs.len()
    }

    fn find(&self, key: &String) -> (r: Option<usize>)
        ensures
            names_distinct(self@),
            match r {
                Some(i) => i < self@.len() && has_name(self@, key@) && index_of(self@, key@) == i,
                None => !has_name(self@, key@),
            },
    {
        proof {
            use_type_invariant(self);
        }
        let mut i: usize = 0;
        while i < self.defs.len()
            invariant
                i <= self.defs@.len(),
                names_distinct(self@),
                forall|j: int| 0 <= j < i ==> #[trigger] self@[j].name != key@,
            decreases self.defs.len() - i,
        {
            assert(self@[i as int] == self.defs@[i as int].entry());
            if self.defs[i].name == *key {
                proof {
                    lemma_index_of_unique(self@, key@, i as int);
                }
                return Some(i);
            }
            i = i + 1;
        }
        proof {
            if has_name(self@, key@) {
                let k = choose|k: int| 0 <= k < self@.len() && self@[k].name == key@;
                assert(self@[k].name != key@);
            }
        }
        None
    }

    /// `param(name, default, min, max)`: the stored value of a parameter declared before,
    /// else registers `name` with `spec` and gives back `spec.default`.
    pub fn declare(&mut self, name: String, spec: ParamSpec<V>) -> (v: V)
        ensures
            names_distinct(final(self)@),
            v == declared_value(old(self)@, name@, spec),
            final(self)@ == after_declare(old(self)@, name@, spec),
            forall|i: int|
                0 <= i < old(self)@.len() && #[trigger] old(self)@[i].name == name@ ==> v == old(
                    self,
                )@[i].value && final(self)@ == old(self)@,
            (forall|i: int| 0 <= i < old(self)@.len() ==> #[trigger] old(self)@[i].name != name@)
                ==> v == spec.default && final(self)@ == old(self)@.push(
                ParamEntry { name: name@, value: spec.default, min: spec.min, max: spec.max },
            ),
    {
        proof {
            use_type_invariant(&*self);
            law_declare_reads_stored_or_default(self@, name@, spec);
        }
        match self.find(&name) {
            Some(i) => {
                assert(self@[i as int] == self.defs@[i as int].entry());
                self.defs[i].value
            },
            None => {
                let ghost before = self@;
                let ghost key = name@;
                let d = ParamDef { name, value: spec.default, min: spec.min, max: spec.max };
                let mut defs: Vec<ParamDef<V>> = Vec::new();
                std::mem::swap(&mut defs, &mut self.defs);
                defs.push(d);
                assert(defs@.map_values(|x: ParamDef<V>| x.entry()) =~= before.push(
                    ParamEntry { name: key, value: spec.default, min: spec.min, max: spec.max },
                ));
                proof {
                    lemma_declare_keeps_names_distinct(before, key, spec);
                }
                self.defs = defs;
                assert(self@ =~= before.push(
                    ParamEntry { name: key, value: spec.default, min: spec.min, max: spec.max },
                ));
                spec.default
            },
        }
    }

    /// The host sets a declared parameter's value; an unknown name changes nothing.
    pub fn set(&mut self, name: &str, value: V)
        ensures
            names_distinct(final(self)@),
            final(self)@ == after_set(old(self)@, name@, value),
            final(self)@.len() == old(self)@.len(),
            forall|j: int|
                0 <= j < old(self)@.len() && old(self)@[j].name != name@ ==> #[trigger] final(self)@[j] == old(self)@[j],
            forall|j: int|
                0 <= j < old(self)@.len() && old(self)@[j].name == name@ ==> #[trigger] final(self)@[j] == (ParamEntry {
                    name: old(self)@[j].name,
                    value,
                    min: old(self)@[j].min,
                    max: old(self)@[j].max,
                }),
    {
        proof {
            use_type_invariant(&*self);
            law_set_changes_only_named(self@, name@, value);
        }
        let key = String::from_str(name);
        match self.find(&key) {
            Some(i) => {
                let ghost before = self@;
                let mut defs: Vec<ParamDef<V>> = Vec::new();
                std::mem::swap(&mut defs, &mut self.defs);
                defs[i].value = value;
                assert(defs@.map_values(|x: ParamDef<V>| x.entry()) =~= after_set(
                    before,
                    name@,
                    value,
                ));
                proof {
                    lemma_set_keeps_names_distinct(before, name@, value);
                }
                self.defs = defs;
                assert(self@ =~= after_set(before, name@, value));
            },
            None => {},
        }
    }
}

/// A declared parameter with its numbers already written out, ready for a host UI.
pub struct ParamText {
    pub name: String,
    pub value: String,
    pub min: String,
    pub max: String,
}

/// The JSON object of one parameter: `{"name":<JSON string>,"value":..,"min":..,"max":..}`.
pub open spec fn param_json_item(row: ParamText) -> Seq<char> {
    "{\"name\":"@ + json_string(row.name@) + ",\"value\":"@ + row.value@ + ",\"min\":"@
        + row.min@ + ",\"max\":"@ + row.max@ + "}"@
}

/// The JSON array of all parameters, in order: `[item,item,..]`.
pub open spec fn params_json_text(rows: Seq<ParamText>) -> Seq<char> {
    "["@ + joined(rows.map_values(|r: ParamText| param_json_item(r)), ","@) + "]"@
}

fn param_json_object(row: &ParamText) -> (s: String)
    ensures
        s@ == param_json_item(*row),
{
    let mut s = String::from_str("{\"name\":");
    write_json_string(&row.name, &mut s);
    s.append(",\"value\":");
    s.append(row.value.as_str());
    s.append(",\"min\":");
    s.append(row.min.as_str());
    s.append(",\"max\":");
    s.append(row.max.as_str());
    s.append("}");
    s
}

/// The declared parameters as JSON (`[{"name","value","min","max"}, ...]`) for a host UI.
/// Each name is written as a JSON string; the numbers are the texts given. Where those are
/// JSON numbers or `null`, the whole text is JSON that reads back to the rows (see
/// [`law_params_json_reads_back`]).
pub fn params_json(rows: &Vec<ParamText>) -> (json: String)
    ensures
        json@ == params_json_text(rows@),
        scalar_texts(rows@) ==> parse_params_json(json@) == Some(
            rows@.map_values(|r: ParamText| row_fields(r)),
        ),
{
    let mut items: Vec<String> = Vec::new();
    let mut i: usize = 0;
    while i < rows.len()
        invariant
            i <= rows.len(),
            items@.len() == i,
            forall|j: int| 0 <= j < i ==> #[trigger] items@[j]@ == param_json_item(rows@[j]),
        decreases rows.len() - i,
    {
        let item = param_json_object(&rows[i]);
        items.push(item);
        i = i + 1;
    }
    let body = join_strings(&items, ",");
    assert(string_views(items@) =~= rows@.map_values(|r: ParamText| param_json_item(r)));
    let mut json = String::from_str("[");
    json.append(body.as_str());
    json.append("]");
    proof {
        if scalar_texts(rows@) {
            law_params_json_reads_back(rows@);
        }
    }
    json
}

/// Declaring a name that is not yet declared keeps the names distinct.
pub proof fn lemma_declare_keeps_names_distinct<V>(
    s: Seq<ParamEntry<V>>,
    name: Seq<char>,
    spec: ParamSpec<V>,
)
    requires
        names_distinct(s),
    ensures
        names_distinct(after_declare(s, name, spec)),
{
}

/// Setting a value keeps the names distinct.
pub proof fn lemma_set_keeps_names_distinct<V>(s: Seq<ParamEntry<V>>, name: Seq<char>, value: V)
    requires
        names_distinct(s),
    ensures
        names_distinct(after_set(s, name, value)),
{
}

/// Declaring a parameter again, as a reloaded script does, gives back the value it has and
/// changes nothing: neither the value chosen by the host nor the bounds given first.
pub proof fn law_redeclare_keeps_value<V>(
    s: Seq<ParamEntry<V>>,
    name: Seq<char>,
    first: ParamSpec<V>,
    second: ParamSpec<V>,
)
    requires
        names_distinct(s),
    ensures
        declared_value(after_declare(s, name, first), name, second) == declared_value(
            s,
            name,
            first,
        ),
        after_declare(after_declare(s, name, first), name, second) == after_declare(
            s,
            name,
            first,
        ),
{
    if !has_name(s, name) {
        let s1 = after_declare(s, name, first);
        lemma_declare_keeps_names_distinct(s, name, first);
        lemma_index_of_unique(s1, name, s.len() as int);
    }
}

/// After the host sets a declared parameter, the script's next `param` call reads that value.
pub proof fn law_set_then_declare<V>(
    s: Seq<ParamEntry<V>>,
    name: Seq<char>,
    value: V,
    spec: ParamSpec<V>,
)
    requires
        names_distinct(s),
        has_name(s, name),
    ensures
        declared_value(after_set(s, name, value), name, spec) == value,
        after_declare(after_set(s, name, value), name, spec) == after_set(s, name, value),
{
    let i = index_of(s, name);
    let s2 = after_set(s, name, value);
    assert(names_distinct(s2));
    lemma_index_of_unique(s2, name, i);
}

/// Setting a parameter changes that parameter's value and nothing else: every other
/// parameter stays as it was, the length is kept, and the set one keeps its name and bounds.
pub proof fn law_set_changes_only_named<V>(s: Seq<ParamEntry<V>>, name: Seq<char>, value: V)
    requires
        names_distinct(s),
    ensures
        after_set(s, name, value).len() == s.len(),
        forall|j: int|
            0 <= j < s.len() && s[j].name != name ==> #[trigger] after_set(s, name, value)[j]
                == s[j],
        forall|j: int|
            0 <= j < s.len() && s[j].name == name ==> #[trigger] after_set(s, name, value)[j]
                == (ParamEntry { name: s[j].name, value, min: s[j].min, max: s[j].max }),
{
    if has_name(s, name) {
        let i = index_of(s, name);
        assert forall|j: int| 0 <= j < s.len() && s[j].name == name implies j == i by {
            if j != i {
                assert(s[i].name == name);
            }
        }
    }
}

/// `param(name, ..)` on a declared name gives back that parameter's stored value and changes
/// nothing; on a name not declared it gives back the default and appends the parameter.
pub proof fn law_declare_reads_stored_or_default<V>(
    s: Seq<ParamEntry<V>>,
    name: Seq<char>,
    spec: ParamSpec<V>,
)
    requires
        names_distinct(s),
    ensures
        forall|i: int|
            0 <= i < s.len() && #[trigger] s[i].name == name ==> declared_value(s, name, spec)
                == s[i].value && after_declare(s, name, spec) == s,
        (forall|i: int| 0 <= i < s.len() ==> #[trigger] s[i].name != name) ==> declared_value(
            s,
            name,
            spec,
        ) == spec.default && after_declare(s, name, spec) == s.push(
            ParamEntry { name, value: spec.default, min: spec.min, max: spec.max },
        ),
{
    assert forall|i: int| 0 <= i < s.len() && #[trigger] s[i].name == name implies declared_value(
        s,
        name,
        spec,
    ) == s[i].value && after_declare(s, name, spec) == s by {
        lemma_index_of_unique(s, name, i);
    }
}

/// Setting a name that no script declared changes nothing.
pub proof fn law_set_unknown_is_noop<V>(s: Seq<ParamEntry<V>>, name: Seq<char>, value: V)
    requires
        !has_name(s, name),
    ensures
        after_set(s, name, value) == s,
{
}

/// A first declaration appends the parameter last, so the JSON lists parameters in the
/// order the script first declared them; the earlier ones are untouched.
pub proof fn law_declare_appends_last<V>(s: Seq<ParamEntry<V>>, name: Seq<char>, spec: ParamSpec<V>)
    requires
        !has_name(s, name),
    ensures
        after_declare(s, name, spec).len() == s.len() + 1,
        after_declare(s, name, spec).take(s.len() as int) == s,
        after_declare(s, name, spec).last() == (ParamEntry {
            name,
            value: spec.default,
            min: spec.min,
            max: spec.max,
        }),
{
    assert(after_declare(s, name, spec).take(s.len() as int) =~= s);
}

} // verus!
