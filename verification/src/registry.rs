//! The shared tool registry.
//!
//! A registry maps tool names to a description and a JSON-schema-shaped
//! parameter value. Scripts fill it through the native bridge's registration
//! operation; the agent loop reads it to offer the model its catalogue of
//! callable tools. Entries keep their insertion order, so listing the
//! registry is deterministic. The registry value itself is sequential; the
//! process holds it behind one lock and every operation here runs while that
//! lock is held, so registrations and lookups never interleave.

use vstd::prelude::*;
use crate::json::{Json, JsonVal, json_text_valid, parse_json, sp_json};
use crate::text::bytes_eq;

verus! {

/// One registered tool: its unique name, a human-readable description and a
/// JSON-schema-shaped description of its parameters.
pub struct AgentTool {
    pub name: Vec<u8>,
    pub description: Vec<u8>,
    pub parameters: Json,
}

/// The model of one registry entry: name, description, parameter schema.
pub open spec fn tool_model(t: AgentTool) -> (Seq<u8>, Seq<u8>, JsonVal) {
    (t.name@, t.description@, t.parameters@)
}

/// The model of a whole registry, entry by entry, in insertion order.
pub open spec fn reg_model(tools: Seq<AgentTool>) -> Seq<(Seq<u8>, Seq<u8>, JsonVal)>
    decreases tools,
{
    if tools.len() == 0 {
        Seq::empty()
    } else {
        seq![tool_model(tools[0])] + reg_model(tools.subrange(1, tools.len() as int))
    }
}

/// A registry and its model have the same length.
pub broadcast proof fn lemma_reg_model_len(tools: Seq<AgentTool>)
    ensures
        #[trigger] reg_model(tools).len() == tools.len(),
    decreases tools,
{
    if tools.len() > 0 {
        lemma_reg_model_len(tools.subrange(1, tools.len() as int));
    }
}

/// The model of a registry, taken entry by entry.
pub broadcast proof fn lemma_reg_model_index(tools: Seq<AgentTool>, i: int)
    requires
        0 <= i < tools.len(),
    ensures
        #[trigger] reg_model(tools)[i] == tool_model(tools[i]),
    decreases tools,
{
    lemma_reg_model_len(tools);
    if i > 0 {
        lemma_reg_model_index(tools.subrange(1, tools.len() as int), i - 1);
    }
}

/// What registration does to a registry model: the first entry with the same
/// name is overwritten in place; a new name is appended.
pub open spec fn spec_register(
    m: Seq<(Seq<u8>, Seq<u8>, JsonVal)>,
    name: Seq<u8>,
    description: Seq<u8>,
    parameters: JsonVal,
) -> Seq<(Seq<u8>, Seq<u8>, JsonVal)>
    decreases m,
{
    if m.len() == 0 {
        seq![(name, description, parameters)]
    } else if m[0].0 == name {
        seq![(name, description, parameters)] + m.subrange(1, m.len() as int)
    } else {
        seq![m[0]] + spec_register(m.subrange(1, m.len() as int), name, description, parameters)
    }
}

/// What lookup finds in a registry model: the description and parameters of
/// the first entry with the given name.
pub open spec fn spec_lookup(m: Seq<(Seq<u8>, Seq<u8>, JsonVal)>, name: Seq<u8>) -> Option<
    (Seq<u8>, JsonVal),
>
    decreases m,
{
    if m.len() == 0 {
        Option::None
    } else if m[0].0 == name {
        Option::Some((m[0].1, m[0].2))
    } else {
        spec_lookup(m.subrange(1, m.len() as int), name)
    }
}

/// The tool registry: entries in insertion order, names unique.
pub struct ToolRegistry {
    pub tools: Vec<AgentTool>,
}

impl ToolRegistry {
    /// The mathematical model of this registry.
    pub open spec fn model(self) -> Seq<(Seq<u8>, Seq<u8>, JsonVal)> {
        reg_model(self.tools@)
    }

    /// Names are unique across entries.
    pub open spec fn well_formed(self) -> bool {
        forall|i: int, j: int|
            0 <= i < j < self.tools@.len() ==> #[trigger] self.tools@[i].name@ != #[trigger] self.tools@[j].name@
    }

    /// An empty registry.
    pub fn new() -> (r: ToolRegistry)
        ensures
            r.model() == Seq::<(Seq<u8>, Seq<u8>, JsonVal)>::empty(),
            r.well_formed(),
    {
        ToolRegistry { tools: Vec::new() }
    }

    /// Registers a tool. The parameter text must be valid JSON: on valid
    /// text the entry is inserted, overwriting a previous entry of the same
    /// name in place, and the call reports success; on invalid text the
    /// registry is left exactly as it was and the call reports failure.
    pub fn register(&mut self, name: Vec<u8>, description: Vec<u8>, parameters_text: &Vec<u8>) -> (r:
        bool)
        requires
            old(self).well_formed(),
        ensures
            r == json_text_valid(parameters_text@),
            !r ==> *final(self) == *old(self),
            r ==> final(self).model() == spec_register(
                old(self).model(),
                name@,
                description@,
                sp_json(parameters_text@)->Some_0,
            ),
            final(self).well_formed(),
    {
        let parsed = match parse_json(parameters_text) {
            None => {
                return false;
            },
            Some(p) => p,
        };
        self.insert_value(name, description, parsed);
        true
    }

    /// Inserts one entry, overwriting a previous entry of the same name in
    /// place and appending a new name at the end.
    #[verifier::rlimit(100)]
    #[verifier::loop_isolation(false)]
    pub fn insert_value(&mut self, name: Vec<u8>, description: Vec<u8>, parameters: Json)
        requires
            old(self).well_formed(),
        ensures
            final(self).model() == spec_register(
                old(self).model(),
                name@,
                description@,
                parameters@,
            ),
            final(self).well_formed(),
    {
        broadcast use lemma_reg_model_len, lemma_reg_model_index;

        let entry_params = parameters;
        let mut i: usize = 0;
        while i < self.tools.len()
            invariant
                0 <= i <= self.tools.len(),
                self.tools@ == old(self).tools@,
                forall|j: int| 0 <= j < i ==> #[trigger] self.tools@[j].name@ != name@,
            decreases self.tools.len() - i,
        {
            if bytes_eq(&self.tools[i].name, &name) {
                let ghost oldtools = self.tools@;
                let ghost gname = name@;
                let ghost gdesc = description@;
                let ghost gparams = entry_params@;
                self.tools.remove(i);
                self.tools.insert(i, AgentTool { name, description, parameters: entry_params });
                proof {
                    let t = self.tools@[i as int];
                    assert(t.name@ == gname && t.description@ == gdesc && t.parameters@ == gparams);
                    assert(self.tools@ =~= oldtools.update(i as int, t));
                    lemma_reg_model_update(oldtools, i as int, t);
                    lemma_reg_model_len(oldtools);
                    lemma_reg_model_index(oldtools, i as int);
                    assert(reg_model(oldtools)[i as int].0 == gname);
                    assert forall|j: int| 0 <= j < i implies #[trigger] reg_model(oldtools)[j].0
                        != gname by {
                        lemma_reg_model_index(oldtools, j);
                    }
                    lemma_spec_register_found(reg_model(oldtools), gname, gdesc, gparams, i as int);
                    assert(forall|k: int|
                        0 <= k < self.tools@.len() ==> #[trigger] self.tools@[k].name@
                            == oldtools[k].name@);
                }
                return ;
            }
            i = i + 1;
        }
        let ghost oldtools = self.tools@;
        let ghost gname = name@;
        let ghost gdesc = description@;
        let ghost gparams = entry_params@;
        self.tools.push(AgentTool { name, description, parameters: entry_params });
        proof {
            let t = self.tools@[oldtools.len() as int];
            assert(self.tools@ =~= oldtools.push(t));
            assert(t.name@ == gname && t.description@ == gdesc && t.parameters@ == gparams);
            lemma_reg_model_push(oldtools, t);
            lemma_reg_model_len(oldtools);
            assert forall|j: int| 0 <= j < oldtools.len() implies #[trigger] reg_model(
                oldtools,
            )[j].0 != gname by {
                lemma_reg_model_index(oldtools, j);
            }
            lemma_spec_register_absent(reg_model(oldtools), gname, gdesc, gparams);
            assert(tool_model(t) == (gname, gdesc, gparams));
            assert(reg_model(self.tools@) == spec_register(
                reg_model(oldtools),
                gname,
                gdesc,
                gparams,
            ));
            assert forall|a: int, b: int|
                0 <= a < b < self.tools@.len() implies #[trigger] self.tools@[a].name@
                != #[trigger] self.tools@[b].name@ by {
                if b < oldtools.len() as int {
                } else {
                    assert(self.tools@[b].name@ == gname);
                }
            }
        }
    }

    /// Whether a tool of this name is registered.
    #[verifier::loop_isolation(false)]
    pub fn contains(&self, name: &Vec<u8>) -> (r: bool)
        ensures
            r == (spec_lookup(self.model(), name@) is Some),
    {
        broadcast use lemma_reg_model_len, lemma_reg_model_index;

        let mut i: usize = 0;
        while i < self.tools.len()
            invariant
                0 <= i <= self.tools.len(),
                forall|j: int| 0 <= j < i ==> #[trigger] self.tools@[j].name@ != name@,
        decreases self.tools.len() - i,
        {
            if bytes_eq(&self.tools[i].name, &name) {
                proof {
                    lemma_reg_model_len(self.tools@);
                    lemma_reg_model_index(self.tools@, i as int);
                    assert forall|j: int| 0 <= j < i implies #[trigger] self.model()[j].0 != name@
                        by {
                        lemma_reg_model_index(self.tools@, j);
                    }
                    lemma_spec_lookup_found(self.model(), name@, i as int);
                }
                return true;
            }
            i = i + 1;
        }
        proof {
            lemma_reg_model_len(self.tools@);
            assert forall|j: int| 0 <= j < self.model().len() implies #[trigger] self.model()[j].0
                != name@ by {
                lemma_reg_model_index(self.tools@, j);
            }
            lemma_spec_lookup_absent(self.model(), name@);
        }
        false
    }

    /// How many tools are registered.
    pub fn count(&self) -> (r: usize)
        ensures
            r == self.model().len(),
    {
        broadcast use lemma_reg_model_len;

        self.tools.len()
    }
}

/// When the name sits at index `i` and nowhere earlier, registration
/// overwrites exactly that entry.
proof fn lemma_spec_register_found(
    m: Seq<(Seq<u8>, Seq<u8>, JsonVal)>,
    name: Seq<u8>,
    description: Seq<u8>,
    parameters: JsonVal,
    i: int,
)
    requires
        0 <= i < m.len(),
        m[i].0 == name,
        forall|j: int| 0 <= j < i ==> #[trigger] m[j].0 != name,
    ensures
        spec_register(m, name, description, parameters) == m.update(
            i,
            (name, description, parameters),
        ),
    decreases m,
{
    if i == 0 {
        assert(seq![(name, description, parameters)] + m.subrange(1, m.len() as int) =~= m.update(
            0,
            (name, description, parameters),
        ));
    } else {
        let tail = m.subrange(1, m.len() as int);
        assert(forall|j: int| 0 <= j < i - 1 ==> #[trigger] tail[j].0 != name);
        lemma_spec_register_found(tail, name, description, parameters, i - 1);
        assert(seq![m[0]] + tail.update(i - 1, (name, description, parameters)) =~= m.update(
            i,
            (name, description, parameters),
        ));
    }
}

/// When the name is absent, registration appends a new entry.
proof fn lemma_spec_register_absent(
    m: Seq<(Seq<u8>, Seq<u8>, JsonVal)>,
    name: Seq<u8>,
    description: Seq<u8>,
    parameters: JsonVal,
)
    requires
        forall|j: int| 0 <= j < m.len() ==> #[trigger] m[j].0 != name,
    ensures
        spec_register(m, name, description, parameters) == m.push((name, description, parameters)),
    decreases m,
{
    if m.len() == 0 {
        assert(spec_register(m, name, description, parameters) =~= m.push(
            (name, description, parameters),
        ));
    } else {
        let tail = m.subrange(1, m.len() as int);
        lemma_spec_register_absent(tail, name, description, parameters);
        assert(seq![m[0]] + tail.push((name, description, parameters)) =~= m.push(
            (name, description, parameters),
        ));
    }
}

/// When the name sits at index `i` and nowhere earlier, lookup finds it.
proof fn lemma_spec_lookup_found(m: Seq<(Seq<u8>, Seq<u8>, JsonVal)>, name: Seq<u8>, i: int)
    requires
        0 <= i < m.len(),
        m[i].0 == name,
        forall|j: int| 0 <= j < i ==> #[trigger] m[j].0 != name,
    ensures
        spec_lookup(m, name) == Option::Some((m[i].1, m[i].2)),
    decreases m,
{
    if i > 0 {
        let tail = m.subrange(1, m.len() as int);
        assert(forall|j: int| 0 <= j < i - 1 ==> #[trigger] tail[j].0 != name);
        lemma_spec_lookup_found(tail, name, i - 1);
    }
}

/// When the name is absent, lookup finds nothing.
proof fn lemma_spec_lookup_absent(m: Seq<(Seq<u8>, Seq<u8>, JsonVal)>, name: Seq<u8>)
    requires
        forall|j: int| 0 <= j < m.len() ==> #[trigger] m[j].0 != name,
    ensures
        spec_lookup(m, name) is None,
    decreases m,
{
    if m.len() > 0 {
        lemma_spec_lookup_absent(m.subrange(1, m.len() as int), name);
    }
}

/// Updating one entry updates the model pointwise.
proof fn lemma_reg_model_update(tools: Seq<AgentTool>, i: int, t: AgentTool)
    requires
        0 <= i < tools.len(),
    ensures
        reg_model(tools.update(i, t)) == reg_model(tools).update(i, tool_model(t)),
{
    broadcast use lemma_reg_model_len, lemma_reg_model_index;

    assert(reg_model(tools.update(i, t)) =~= reg_model(tools).update(i, tool_model(t)));
}

/// Appending one entry appends its model.
proof fn lemma_reg_model_push(tools: Seq<AgentTool>, t: AgentTool)
    ensures
        reg_model(tools.push(t)) == reg_model(tools).push(tool_model(t)),
{
    broadcast use lemma_reg_model_len, lemma_reg_model_index;

    assert(reg_model(tools.push(t)) =~= reg_model(tools).push(tool_model(t)));
}

/// Registering a name makes it found, with exactly what was registered.
pub proof fn lemma_lookup_after_register(
    m: Seq<(Seq<u8>, Seq<u8>, JsonVal)>,
    name: Seq<u8>,
    description: Seq<u8>,
    parameters: JsonVal,
)
    ensures
        spec_lookup(spec_register(m, name, description, parameters), name) == Option::Some(
            (description, parameters),
        ),
    decreases m,
{
    if m.len() > 0 && m[0].0 != name {
        lemma_lookup_after_register(m.subrange(1, m.len() as int), name, description, parameters);
        let r = spec_register(m, name, description, parameters);
        assert(r[0] == m[0]);
        assert(r.subrange(1, r.len() as int) =~= spec_register(
            m.subrange(1, m.len() as int),
            name,
            description,
            parameters,
        ));
    }
}

/// Registering one name leaves every other name's lookup unchanged.
pub proof fn lemma_register_keeps_others(
    m: Seq<(Seq<u8>, Seq<u8>, JsonVal)>,
    name: Seq<u8>,
    description: Seq<u8>,
    parameters: JsonVal,
    other: Seq<u8>,
)
    requires
        other != name,
    ensures
        spec_lookup(spec_register(m, name, description, parameters), other) == spec_lookup(
            m,
            other,
        ),
    decreases m,
{
    let r = spec_register(m, name, description, parameters);
    if m.len() == 0 {
        assert(r.len() == 1);
        assert(r[0].0 == name);
        assert(r.subrange(1, r.len() as int) =~= Seq::<(Seq<u8>, Seq<u8>, JsonVal)>::empty());
        assert(spec_lookup(r.subrange(1, r.len() as int), other) is None);
        assert(spec_lookup(r, other) is None);
    } else if m[0].0 == name {
        assert(r[0].0 == name);
        assert(r.subrange(1, r.len() as int) =~= m.subrange(1, m.len() as int));
        assert(spec_lookup(r, other) == spec_lookup(m.subrange(1, m.len() as int), other));
        assert(spec_lookup(m, other) == spec_lookup(m.subrange(1, m.len() as int), other));
    } else {
        lemma_register_keeps_others(
            m.subrange(1, m.len() as int),
            name,
            description,
            parameters,
            other,
        );
        assert(r[0] == m[0]);
        assert(r.subrange(1, r.len() as int) =~= spec_register(
            m.subrange(1, m.len() as int),
            name,
            description,
            parameters,
        ));
    }
}

/// Two registrations under distinct names never lose one another: after
/// both, each name's lookup yields exactly what was registered for it,
/// whichever order the two registrations arrived in.
pub proof fn lemma_distinct_registrations_kept(
    m: Seq<(Seq<u8>, Seq<u8>, JsonVal)>,
    name1: Seq<u8>,
    description1: Seq<u8>,
    parameters1: JsonVal,
    name2: Seq<u8>,
    description2: Seq<u8>,
    parameters2: JsonVal,
)
    requires
        name1 != name2,
    ensures
        spec_lookup(
            spec_register(
                spec_register(m, name1, description1, parameters1),
                name2,
                description2,
                parameters2,
            ),
            name1,
        ) == Option::Some((description1, parameters1)),
        spec_lookup(
            spec_register(
                spec_register(m, name1, description1, parameters1),
                name2,
                description2,
                parameters2,
            ),
            name2,
        ) == Option::Some((description2, parameters2)),
{
    let m1 = spec_register(m, name1, description1, parameters1);
    lemma_lookup_after_register(m, name1, description1, parameters1);
    lemma_register_keeps_others(m1, name2, description2, parameters2, name1);
    lemma_lookup_after_register(m1, name2, description2, parameters2);
}

} // verus!
