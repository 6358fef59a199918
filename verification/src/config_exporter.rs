//! Builds a Terraform/OpenTofu JSON configuration from provider
//! requirements, provider blocks, resources, data sources, variables,
//! outputs and locals.

use vstd::prelude::*;
use crate::text::owned;
use crate::json::{
    JsonValue, JsonView, object_view, object_insert, duplicate_entries, lemma_object_view_empty,
};

verus! {

/// A required provider declaration.
pub struct ProviderRequirement {
    /// The provider source, e.g. "hashicorp/aws".
    pub source: String,
    /// The version constraint, e.g. "~> 5.0".
    pub version: String,
}

/// A Terraform variable definition.
pub struct Variable {
    /// The variable's type constraint (`type`).
    pub var_type: Option<String>,
    pub default: Option<JsonValue>,
    pub description: Option<String>,
}

/// A Terraform output definition.
pub struct Output {
    pub value: JsonValue,
    pub description: Option<String>,
    pub sensitive: Option<bool>,
}

/// A JSON object, by value.
pub type JsonMap = Map<Seq<char>, JsonView>;

/// The blocks collected so far, by value.
pub struct ExporterView {
    pub required_providers: JsonMap,
    pub providers: JsonMap,
    pub resources: JsonMap,
    pub data_sources: JsonMap,
    pub variables: JsonMap,
    pub outputs: JsonMap,
    pub locals: JsonMap,
}

/// Builds and exports a complete Terraform JSON configuration.
pub struct ConfigExporter {
    required_providers: Vec<(String, JsonValue)>,
    providers: Vec<(String, JsonValue)>,
    resources: Vec<(String, JsonValue)>,
    data_sources: Vec<(String, JsonValue)>,
    variables: Vec<(String, JsonValue)>,
    outputs: Vec<(String, JsonValue)>,
    locals: Vec<(String, JsonValue)>,
}

impl View for ConfigExporter {
    type V = ExporterView;

    closed spec fn view(&self) -> ExporterView {
        ExporterView {
            required_providers: object_view(self.required_providers@),
            providers: object_view(self.providers@),
            resources: object_view(self.resources@),
            data_sources: object_view(self.data_sources@),
            variables: object_view(self.variables@),
            outputs: object_view(self.outputs@),
            locals: object_view(self.locals@),
        }
    }
}

/// The declaration of a required provider.
pub open spec fn requirement_json(source: Seq<char>, version: Seq<char>) -> JsonView {
    JsonView::Object(Map::empty().insert("source"@, JsonView::Str(source)).insert("version"@, JsonView::Str(version)))
}

/// `m` with `name` set to `value` inside the object at `group`, which is
/// created when absent; a non-object at `group` is left as it is.
pub open spec fn nested_insert(m: JsonMap, group: Seq<char>, name: Seq<char>, value: JsonView) -> JsonMap {
    if !m.dom().contains(group) {
        m.insert(group, JsonView::Object(Map::empty().insert(name, value)))
    } else {
        match m[group] {
            JsonView::Object(inner) => m.insert(group, JsonView::Object(inner.insert(name, value))),
            _ => m,
        }
    }
}

pub open spec fn opt_str_insert(m: JsonMap, key: Seq<char>, v: Option<String>) -> JsonMap {
    match v {
        Some(s) => m.insert(key, JsonView::Str(s@)),
        None => m,
    }
}

/// A variable definition: `type`, `default` and `description`, each where
/// given.
pub open spec fn variable_json(v: Variable) -> JsonView {
    let m1 = opt_str_insert(Map::empty(), "type"@, v.var_type);
    let m2 = match v.default {
        Some(d) => m1.insert("default"@, d@),
        None => m1,
    };
    JsonView::Object(opt_str_insert(m2, "description"@, v.description))
}

/// An output definition: `value`, then `description` and `sensitive` where
/// given.
pub open spec fn output_json(o: Output) -> JsonView {
    let m1 = Map::empty().insert("value"@, o.value@);
    let m2 = opt_str_insert(m1, "description"@, o.description);
    JsonView::Object(match o.sensitive {
        Some(b) => m2.insert("sensitive"@, JsonView::Bool(b)),
        None => m2,
    })
}

pub open spec fn is_empty_map(m: JsonMap) -> bool {
    m.dom() =~= Set::empty()
}

pub open spec fn with_block(m: JsonMap, key: Seq<char>, block: JsonMap) -> JsonMap {
    if is_empty_map(block) { m } else { m.insert(key, JsonView::Object(block)) }
}

/// The whole configuration: a `terraform` block holding the required
/// providers, then `provider`, `variable`, `locals`, `resource`, `data` and
/// `output` blocks, each present exactly when it has an entry.
pub open spec fn config_json(e: ExporterView) -> JsonView {
    let m0 = if is_empty_map(e.required_providers) {
        Map::empty()
    } else {
        Map::empty().insert(
            "terraform"@,
            JsonView::Object(Map::empty().insert("required_providers"@, JsonView::Object(e.required_providers))),
        )
    };
    let m1 = with_block(m0, "provider"@, e.providers);
    let m2 = with_block(m1, "variable"@, e.variables);
    let m3 = with_block(m2, "locals"@, e.locals);
    let m4 = with_block(m3, "resource"@, e.resources);
    let m5 = with_block(m4, "data"@, e.data_sources);
    JsonView::Object(with_block(m5, "output"@, e.outputs))
}

/// Sets `name` inside the object at `group`, creating it when absent.
fn nested_object_insert(entries: &mut Vec<(String, JsonValue)>, group: &str, name: &str, value: JsonValue)
    ensures
        object_view(final(entries)@) == nested_insert(object_view(old(entries)@), group@, name@, value@),
{
    let key = owned(group);
    let mut i: usize = 0;
    while i < entries.len()
        invariant
            entries@ == old(entries)@,
            key@ == group@,
            i <= entries.len(),
            forall|j: int| 0 <= j < i ==> entries@[j].0@ != key@,
        ensures
            entries@ == old(entries)@,
            i <= entries.len(),
            forall|j: int| 0 <= j < i ==> entries@[j].0@ != key@,
            i < entries.len() ==> entries@[i as int].0@ == key@,
        decreases entries.len() - i,
    {
        if entries[i].0 == key {
            break;
        }
        i = i + 1;
    }
    let ghost old_entries = entries@;
    if i < entries.len() {
        proof {
            crate::json::lemma_object_view_first(old_entries, i as int);
        }
        let (k, v) = entries.remove(i);
        match v {
            JsonValue::Object(mut inner) => {
                let ghost old_inner = inner@;
                object_insert(&mut inner, owned(name), value);
                let item = (k, JsonValue::Object(inner));
                let ghost item_g = item;
                entries.insert(i, item);
                proof {
                    assert(entries@ =~= old_entries.update(i as int, item_g));
                    crate::json::lemma_object_view_update(old_entries, i as int, item_g);
                }
            },
            other => {
                let item = (k, other);
                let ghost item_g = item;
                entries.insert(i, item);
                proof {
                    assert(entries@ =~= old_entries);
                }
            },
        }
    } else {
        proof {
            crate::json::lemma_object_view_absent(old_entries, key@);
        }
        let mut inner: Vec<(String, JsonValue)> = Vec::new();
        object_insert(&mut inner, owned(name), value);
        proof {
            assert(object_view(Seq::<(String, JsonValue)>::empty()) == Map::<Seq<char>, JsonView>::empty());
        }
        let item = (key, JsonValue::Object(inner));
        let ghost item_g = item;
        entries.push(item);
        proof {
            crate::json::lemma_object_view_push(old_entries, item_g);
        }
    }
}

impl ConfigExporter {
    /// An exporter with no blocks.
    pub fn new() -> (e: Self)
        ensures
            e@ == (ExporterView {
                required_providers: Map::empty(),
                providers: Map::empty(),
                resources: Map::empty(),
                data_sources: Map::empty(),
                variables: Map::empty(),
                outputs: Map::empty(),
                locals: Map::empty(),
            }),
    {
        let e = ConfigExporter {
            required_providers: Vec::new(),
            providers: Vec::new(),
            resources: Vec::new(),
            data_sources: Vec::new(),
            variables: Vec::new(),
            outputs: Vec::new(),
            locals: Vec::new(),
        };
        proof {
            assert(object_view(Seq::<(String, JsonValue)>::empty()) == Map::<Seq<char>, JsonView>::empty());
        }
        e
    }

    /// Declares a required provider: `name` with its `source` and `version`.
    pub fn add_required_provider(&mut self, name: &str, source: &str, version: &str) -> (r: &mut Self)
        ensures
            *final(self) == *final(r),
            r@ == (ExporterView {
                required_providers: old(self)@.required_providers.insert(name@, requirement_json(source@, version@)),
                ..old(self)@
            }),
    {
        let mut fields: Vec<(String, JsonValue)> = Vec::new();
        object_insert(&mut fields, owned("source"), JsonValue::string(source));
        object_insert(&mut fields, owned("version"), JsonValue::string(version));
        proof {
            assert(object_view(Seq::<(String, JsonValue)>::empty()) == Map::<Seq<char>, JsonView>::empty());
        }
        object_insert(&mut self.required_providers, owned(name), JsonValue::Object(fields));
        self
    }

    /// Adds a provider configuration block.
    pub fn add_provider(&mut self, name: &str, config: JsonValue) -> (r: &mut Self)
        ensures
            *final(self) == *final(r),
            r@ == (ExporterView { providers: old(self)@.providers.insert(name@, config@), ..old(self)@ }),
    {
        object_insert(&mut self.providers, owned(name), config);
        self
    }

    /// Adds the resource `name` of type `resource_type`.
    pub fn add_resource(&mut self, resource_type: &str, name: &str, config: JsonValue) -> (r: &mut Self)
        ensures
            *final(self) == *final(r),
            r@ == (ExporterView {
                resources: nested_insert(old(self)@.resources, resource_type@, name@, config@),
                ..old(self)@
            }),
    {
        nested_object_insert(&mut self.resources, resource_type, name, config);
        self
    }

    /// Adds the data source `name` of type `data_type`.
    pub fn add_data_source(&mut self, data_type: &str, name: &str, config: JsonValue) -> (r: &mut Self)
        ensures
            *final(self) == *final(r),
            r@ == (ExporterView {
                data_sources: nested_insert(old(self)@.data_sources, data_type@, name@, config@),
                ..old(self)@
            }),
    {
        nested_object_insert(&mut self.data_sources, data_type, name, config);
        self
    }

    /// Adds a variable definition.
    pub fn add_variable(&mut self, name: &str, variable: Variable) -> (r: &mut Self)
        ensures
            *final(self) == *final(r),
            r@ == (ExporterView {
                variables: old(self)@.variables.insert(name@, variable_json(variable)),
                ..old(self)@
            }),
    {
        let ghost v = variable;
        let Variable { var_type, default, description } = variable;
        let mut obj: Vec<(String, JsonValue)> = Vec::new();
        proof {
            assert(object_view(Seq::<(String, JsonValue)>::empty()) == Map::<Seq<char>, JsonView>::empty());
        }
        match var_type {
            Some(t) => object_insert(&mut obj, owned("type"), JsonValue::String(t)),
            None => {},
        }
        match default {
            Some(d) => object_insert(&mut obj, owned("default"), d),
            None => {},
        }
        match description {
            Some(desc) => object_insert(&mut obj, owned("description"), JsonValue::String(desc)),
            None => {},
        }
        object_insert(&mut self.variables, owned(name), JsonValue::Object(obj));
        self
    }

    /// Adds an output definition.
    pub fn add_output(&mut self, name: &str, output: Output) -> (r: &mut Self)
        ensures
            *final(self) == *final(r),
            r@ == (ExporterView { outputs: old(self)@.outputs.insert(name@, output_json(output)), ..old(self)@ }),
    {
        let Output { value, description, sensitive } = output;
        let mut obj: Vec<(String, JsonValue)> = Vec::new();
        proof {
            assert(object_view(Seq::<(String, JsonValue)>::empty()) == Map::<Seq<char>, JsonView>::empty());
        }
        object_insert(&mut obj, owned("value"), value);
        match description {
            Some(desc) => object_insert(&mut obj, owned("description"), JsonValue::String(desc)),
            None => {},
        }
        match sensitive {
            Some(b) => object_insert(&mut obj, owned("sensitive"), JsonValue::Bool(b)),
            None => {},
        }
        object_insert(&mut self.outputs, owned(name), JsonValue::Object(obj));
        self
    }

    /// Adds a local value.
    pub fn add_local(&mut self, name: &str, value: JsonValue) -> (r: &mut Self)
        ensures
            *final(self) == *final(r),
            r@ == (ExporterView { locals: old(self)@.locals.insert(name@, value@), ..old(self)@ }),
    {
        object_insert(&mut self.locals, owned(name), value);
        self
    }

    /// The complete Terraform JSON configuration.
    pub fn to_value(&self) -> (v: JsonValue)
        ensures
            v@ == config_json(self@),
    {
        let ghost e = self@;
        let mut root: Vec<(String, JsonValue)> = Vec::new();
        proof {
            assert(object_view(Seq::<(String, JsonValue)>::empty()) == Map::<Seq<char>, JsonView>::empty());
            lemma_object_view_empty(self.required_providers@);
            lemma_object_view_empty(self.providers@);
            lemma_object_view_empty(self.variables@);
            lemma_object_view_empty(self.locals@);
            lemma_object_view_empty(self.resources@);
            lemma_object_view_empty(self.data_sources@);
            lemma_object_view_empty(self.outputs@);
            assert(is_empty_map(e.required_providers) == (self.required_providers@.len() == 0));
            assert(is_empty_map(e.providers) == (self.providers@.len() == 0));
            assert(is_empty_map(e.variables) == (self.variables@.len() == 0));
            assert(is_empty_map(e.locals) == (self.locals@.len() == 0));
            assert(is_empty_map(e.resources) == (self.resources@.len() == 0));
            assert(is_empty_map(e.data_sources) == (self.data_sources@.len() == 0));
            assert(is_empty_map(e.outputs) == (self.outputs@.len() == 0));
        }
        if self.required_providers.len() > 0 {
            let mut terraform: Vec<(String, JsonValue)> = Vec::new();
            object_insert(&mut terraform, owned("required_providers"),
                JsonValue::Object(duplicate_entries(&self.required_providers)));
            object_insert(&mut root, owned("terraform"), JsonValue::Object(terraform));
        }
        add_block(&mut root, "provider", &self.providers);
        add_block(&mut root, "variable", &self.variables);
        add_block(&mut root, "locals", &self.locals);
        add_block(&mut root, "resource", &self.resources);
        add_block(&mut root, "data", &self.data_sources);
        add_block(&mut root, "output", &self.outputs);
        JsonValue::Object(root)
    }
}

/// Adds `block` under `key` when it has an entry.
fn add_block(root: &mut Vec<(String, JsonValue)>, key: &str, block: &Vec<(String, JsonValue)>)
    ensures
        object_view(final(root)@) == with_block(object_view(old(root)@), key@, object_view(block@)),
{
    proof {
        lemma_object_view_empty(block@);
    }
    if block.len() > 0 {
        object_insert(root, owned(key), JsonValue::Object(duplicate_entries(block)));
    }
}

impl Default for ConfigExporter {
    fn default() -> (e: Self)
        ensures
            e@ == (ExporterView {
                required_providers: Map::empty(),
                providers: Map::empty(),
                resources: Map::empty(),
                data_sources: Map::empty(),
                variables: Map::empty(),
                outputs: Map::empty(),
                locals: Map::empty(),
            }),
    {
        ConfigExporter::new()
    }
}


// ===========================================================================
// Laws of the exported configuration
// ===========================================================================

/// The value reached by following `path` through nested objects.
pub open spec fn path_get(v: JsonView, path: Seq<Seq<char>>) -> Option<JsonView>
    decreases path.len(),
{
    if path.len() == 0 {
        Some(v)
    } else {
        match v {
            JsonView::Object(m) => if m.dom().contains(path[0]) {
                path_get(m[path[0]], path.drop_first())
            } else {
                None
            },
            _ => None,
        }
    }
}

/// Every group of a nested block (resources or data sources by type) is an
/// object.
pub open spec fn groups_are_objects(m: JsonMap) -> bool {
    forall|k: Seq<char>| m.dom().contains(k) ==> (#[trigger] m[k]) is Object
}

/// Every block that has an entry stands in the configuration under its key.
proof fn lemma_blocks_exported(e: ExporterView)
    ensures
        !is_empty_map(e.providers) ==> path_get(config_json(e), seq!["provider"@]) == Some(JsonView::Object(e.providers)),
        !is_empty_map(e.variables) ==> path_get(config_json(e), seq!["variable"@]) == Some(JsonView::Object(e.variables)),
        !is_empty_map(e.locals) ==> path_get(config_json(e), seq!["locals"@]) == Some(JsonView::Object(e.locals)),
        !is_empty_map(e.resources) ==> path_get(config_json(e), seq!["resource"@]) == Some(JsonView::Object(e.resources)),
        !is_empty_map(e.data_sources) ==> path_get(config_json(e), seq!["data"@]) == Some(JsonView::Object(e.data_sources)),
        !is_empty_map(e.outputs) ==> path_get(config_json(e), seq!["output"@]) == Some(JsonView::Object(e.outputs)),
        !is_empty_map(e.required_providers) ==> path_get(config_json(e), seq!["terraform"@, "required_providers"@])
            == Some(JsonView::Object(e.required_providers)),
{
    reveal_strlit("terraform");
    reveal_strlit("required_providers");
    reveal_strlit("provider");
    reveal_strlit("variable");
    reveal_strlit("locals");
    reveal_strlit("resource");
    reveal_strlit("data");
    reveal_strlit("output");
    reveal_with_fuel(path_get, 3);
    let keys = seq!["terraform"@, "provider"@, "variable"@, "locals"@, "resource"@, "data"@, "output"@];
    assert forall|i: int, j: int| 0 <= i < j < 7 implies keys[i] != keys[j] by {
        if keys[i] == keys[j] {
            assert(keys[i].len() == keys[j].len());
            assert(keys[i][0] == keys[j][0]);
            assert(keys[i][1] == keys[j][1]);
        }
    }
    assert(seq!["terraform"@, "required_providers"@].drop_first() =~= seq!["required_providers"@]);
    assert(seq!["required_providers"@].drop_first() =~= Seq::<Seq<char>>::empty());
    assert(seq!["provider"@].drop_first() =~= Seq::<Seq<char>>::empty());
    assert(seq!["variable"@].drop_first() =~= Seq::<Seq<char>>::empty());
    assert(seq!["locals"@].drop_first() =~= Seq::<Seq<char>>::empty());
    assert(seq!["resource"@].drop_first() =~= Seq::<Seq<char>>::empty());
    assert(seq!["data"@].drop_first() =~= Seq::<Seq<char>>::empty());
    assert(seq!["output"@].drop_first() =~= Seq::<Seq<char>>::empty());
    assert(keys[0] == "terraform"@);
    assert(keys[1] == "provider"@);
    assert(keys[2] == "variable"@);
    assert(keys[3] == "locals"@);
    assert(keys[4] == "resource"@);
    assert(keys[5] == "data"@);
    assert(keys[6] == "output"@);
}

/// Adding to a nested block keeps every group an object.
pub proof fn law_nested_insert_keeps_groups(m: JsonMap, group: Seq<char>, name: Seq<char>, value: JsonView)
    requires
        groups_are_objects(m),
    ensures
        groups_are_objects(nested_insert(m, group, name, value)),
{
}

/// The value that a nested insertion leaves at `group`, `name`.
proof fn lemma_nested_insert_get(m: JsonMap, group: Seq<char>, name: Seq<char>, value: JsonView)
    requires
        groups_are_objects(m),
    ensures
        !is_empty_map(nested_insert(m, group, name, value)),
        path_get(JsonView::Object(nested_insert(m, group, name, value)), seq![group, name]) == Some(value),
{
    reveal_with_fuel(path_get, 3);
    let r = nested_insert(m, group, name, value);
    assert(r.dom().contains(group));
    assert(seq![group, name].drop_first() =~= seq![name]);
    assert(seq![name].drop_first() =~= Seq::<Seq<char>>::empty());
}

proof fn lemma_path_concat(v: JsonView, a: Seq<Seq<char>>, b: Seq<Seq<char>>, mid: JsonView)
    requires
        path_get(v, a) == Some(mid),
    ensures
        path_get(v, a + b) == path_get(mid, b),
    decreases a.len(),
{
    if a.len() == 0 {
        assert(a + b =~= b);
    } else {
        assert((a + b)[0] == a[0]);
        assert((a + b).drop_first() =~= a.drop_first() + b);
        match v {
            JsonView::Object(m) => {
                lemma_path_concat(m[a[0]], a.drop_first(), b, mid);
            },
            _ => {},
        }
    }
}

/// A resource added to an exporter is in its configuration under
/// `resource`, its type and its name.
pub proof fn law_resource_exported(e: ExporterView, resource_type: Seq<char>, name: Seq<char>, value: JsonView)
    requires
        groups_are_objects(e.resources),
    ensures
        path_get(
            config_json(ExporterView { resources: nested_insert(e.resources, resource_type, name, value), ..e }),
            seq!["resource"@, resource_type, name],
        ) == Some(value),
{
    let e2 = ExporterView { resources: nested_insert(e.resources, resource_type, name, value), ..e };
    lemma_nested_insert_get(e.resources, resource_type, name, value);
    lemma_blocks_exported(e2);
    lemma_path_concat(config_json(e2), seq!["resource"@], seq![resource_type, name], JsonView::Object(e2.resources));
    assert(seq!["resource"@] + seq![resource_type, name] =~= seq!["resource"@, resource_type, name]);
}

/// A data source added to an exporter is in its configuration under `data`,
/// its type and its name.
pub proof fn law_data_source_exported(e: ExporterView, data_type: Seq<char>, name: Seq<char>, value: JsonView)
    requires
        groups_are_objects(e.data_sources),
    ensures
        path_get(
            config_json(ExporterView { data_sources: nested_insert(e.data_sources, data_type, name, value), ..e }),
            seq!["data"@, data_type, name],
        ) == Some(value),
{
    let e2 = ExporterView { data_sources: nested_insert(e.data_sources, data_type, name, value), ..e };
    lemma_nested_insert_get(e.data_sources, data_type, name, value);
    lemma_blocks_exported(e2);
    lemma_path_concat(config_json(e2), seq!["data"@], seq![data_type, name], JsonView::Object(e2.data_sources));
    assert(seq!["data"@] + seq![data_type, name] =~= seq!["data"@, data_type, name]);
}

proof fn lemma_insert_get(m: JsonMap, name: Seq<char>, value: JsonView)
    ensures
        !is_empty_map(m.insert(name, value)),
        path_get(JsonView::Object(m.insert(name, value)), seq![name]) == Some(value),
{
    reveal_with_fuel(path_get, 2);
    assert(m.insert(name, value).dom().contains(name));
    assert(seq![name].drop_first() =~= Seq::<Seq<char>>::empty());
}

/// A provider block, variable, local or output added to an exporter is in
/// its configuration under the block's key and its name; a required provider
/// under `terraform`, `required_providers` and its name.
pub proof fn law_named_blocks_exported(e: ExporterView, name: Seq<char>, value: JsonView)
    ensures
        path_get(config_json(ExporterView { providers: e.providers.insert(name, value), ..e }), seq!["provider"@, name])
            == Some(value),
        path_get(config_json(ExporterView { variables: e.variables.insert(name, value), ..e }), seq!["variable"@, name])
            == Some(value),
        path_get(config_json(ExporterView { locals: e.locals.insert(name, value), ..e }), seq!["locals"@, name])
            == Some(value),
        path_get(config_json(ExporterView { outputs: e.outputs.insert(name, value), ..e }), seq!["output"@, name])
            == Some(value),
        path_get(
            config_json(ExporterView { required_providers: e.required_providers.insert(name, value), ..e }),
            seq!["terraform"@, "required_providers"@, name],
        ) == Some(value),
{
    let ep = ExporterView { providers: e.providers.insert(name, value), ..e };
    lemma_insert_get(e.providers, name, value);
    lemma_blocks_exported(ep);
    lemma_path_concat(config_json(ep), seq!["provider"@], seq![name], JsonView::Object(ep.providers));
    assert(seq!["provider"@] + seq![name] =~= seq!["provider"@, name]);

    let ev = ExporterView { variables: e.variables.insert(name, value), ..e };
    lemma_insert_get(e.variables, name, value);
    lemma_blocks_exported(ev);
    lemma_path_concat(config_json(ev), seq!["variable"@], seq![name], JsonView::Object(ev.variables));
    assert(seq!["variable"@] + seq![name] =~= seq!["variable"@, name]);

    let el = ExporterView { locals: e.locals.insert(name, value), ..e };
    lemma_insert_get(e.locals, name, value);
    lemma_blocks_exported(el);
    lemma_path_concat(config_json(el), seq!["locals"@], seq![name], JsonView::Object(el.locals));
    assert(seq!["locals"@] + seq![name] =~= seq!["locals"@, name]);

    let eo = ExporterView { outputs: e.outputs.insert(name, value), ..e };
    lemma_insert_get(e.outputs, name, value);
    lemma_blocks_exported(eo);
    lemma_path_concat(config_json(eo), seq!["output"@], seq![name], JsonView::Object(eo.outputs));
    assert(seq!["output"@] + seq![name] =~= seq!["output"@, name]);

    let er = ExporterView { required_providers: e.required_providers.insert(name, value), ..e };
    lemma_insert_get(e.required_providers, name, value);
    lemma_blocks_exported(er);
    lemma_path_concat(config_json(er), seq!["terraform"@, "required_providers"@], seq![name],
        JsonView::Object(er.required_providers));
    assert(seq!["terraform"@, "required_providers"@] + seq![name] =~= seq!["terraform"@, "required_providers"@, name]);
}

/// An exporter with nothing added exports an empty object.
pub proof fn law_empty_exporter_exports_empty_object(e: ExporterView)
    requires
        is_empty_map(e.required_providers),
        is_empty_map(e.providers),
        is_empty_map(e.resources),
        is_empty_map(e.data_sources),
        is_empty_map(e.variables),
        is_empty_map(e.outputs),
        is_empty_map(e.locals),
    ensures
        config_json(e) == JsonView::Object(Map::empty()),
{
}

/// An output's definition holds its value under `value`, its description
/// under `description` exactly when it has one, and its sensitivity under
/// `sensitive` exactly when it has one; nothing else.
pub proof fn law_output_definition_fields(o: Output)
    ensures
        ({
            let m = output_json(o)->Object_0;
            &&& output_json(o) is Object
            &&& m.dom().contains("value"@) && m["value"@] == o.value@
            &&& match o.description {
                Some(d) => m.dom().contains("description"@) && m["description"@] == JsonView::Str(d@),
                None => !m.dom().contains("description"@),
            }
            &&& match o.sensitive {
                Some(b) => m.dom().contains("sensitive"@) && m["sensitive"@] == JsonView::Bool(b),
                None => !m.dom().contains("sensitive"@),
            }
            &&& forall|k: Seq<char>| #[trigger] m.dom().contains(k)
                ==> k == "value"@ || k == "description"@ || k == "sensitive"@
        }),
{
    reveal_strlit("value");
    reveal_strlit("description");
    reveal_strlit("sensitive");
    assert("value"@.len() != "description"@.len());
    assert("value"@.len() != "sensitive"@.len());
    assert("description"@.len() != "sensitive"@.len());
}

/// A variable's definition holds its type under `type`, its default under
/// `default` and its description under `description`, each exactly when it
/// is given; nothing else.
pub proof fn law_variable_definition_fields(v: Variable)
    ensures
        ({
            let m = variable_json(v)->Object_0;
            &&& variable_json(v) is Object
            &&& match v.var_type {
                Some(t) => m.dom().contains("type"@) && m["type"@] == JsonView::Str(t@),
                None => !m.dom().contains("type"@),
            }
            &&& match v.default {
                Some(d) => m.dom().contains("default"@) && m["default"@] == d@,
                None => !m.dom().contains("default"@),
            }
            &&& match v.description {
                Some(d) => m.dom().contains("description"@) && m["description"@] == JsonView::Str(d@),
                None => !m.dom().contains("description"@),
            }
            &&& forall|k: Seq<char>| #[trigger] m.dom().contains(k)
                ==> k == "type"@ || k == "default"@ || k == "description"@
        }),
{
    reveal_strlit("type");
    reveal_strlit("default");
    reveal_strlit("description");
    assert("type"@.len() != "default"@.len());
    assert("type"@.len() != "description"@.len());
    assert("default"@.len() != "description"@.len());
}

/// An added output's description is in the exported configuration under
/// `output`, its name and `description` exactly when the output has one.
pub proof fn law_output_description_exported(e: ExporterView, name: Seq<char>, o: Output)
    ensures
        path_get(
            config_json(ExporterView { outputs: e.outputs.insert(name, output_json(o)), ..e }),
            seq!["output"@, name, "description"@],
        ) == match o.description {
            Some(d) => Some(JsonView::Str(d@)),
            None => None,
        },
{
    let e2 = ExporterView { outputs: e.outputs.insert(name, output_json(o)), ..e };
    law_named_blocks_exported(e, name, output_json(o));
    law_output_definition_fields(o);
    lemma_path_concat(config_json(e2), seq!["output"@, name], seq!["description"@], output_json(o));
    assert(seq!["output"@, name] + seq!["description"@] =~= seq!["output"@, name, "description"@]);
    reveal_with_fuel(path_get, 2);
    assert(seq!["description"@].drop_first() =~= Seq::<Seq<char>>::empty());
}

} // verus!
