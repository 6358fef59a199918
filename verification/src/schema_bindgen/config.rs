//! Code generation options.

use vstd::prelude::*;
use crate::text::{views, str_lt, text_lt, trimmed, trim, trim_end_ws, trim_start_ws, is_white_space, push_str, owned, strings_eq, clone_strings,
    lemma_text_lt_total, lemma_text_lt_transitive, lemma_text_lt_irreflexive};
use crate::terra::{ResourceMeta, MetaView, metas_view, duplicate_metas};

verus! {

/// A qualified path and its comment.
pub type CommentView = (Seq<Seq<char>>, Seq<char>);

/// The comment recorded for `path`, if any.
pub open spec fn comment_lookup(entries: Seq<CommentView>, path: Seq<Seq<char>>) -> Option<Seq<char>>
    decreases entries.len(),
{
    if entries.len() == 0 {
        None
    } else if entries[0].0 == path {
        Some(entries[0].1)
    } else {
        comment_lookup(entries.drop_first(), path)
    }
}

/// Documentation to attach to particular definitions, by qualified path.
pub struct DocComments {
    entries: Vec<(Vec<String>, String)>,
}

impl View for DocComments {
    type V = Seq<CommentView>;

    closed spec fn view(&self) -> Seq<CommentView> {
        self.entries@.map_values(|e: (Vec<String>, String)| (views(e.0@), e.1@))
    }
}

impl DocComments {
    /// The comment attached to `path`.
    pub open spec fn spec_get(&self, path: Seq<Seq<char>>) -> Option<Seq<char>> {
        comment_lookup(self@, path)
    }

    pub fn new() -> (c: Self)
        ensures
            c@ == Seq::<CommentView>::empty(),
    {
        let c = DocComments { entries: Vec::new() };
        proof {
            assert(c@ =~= Seq::<CommentView>::empty());
        }
        c
    }

    /// Attaches `comment` to `path`, replacing an earlier comment there.
    pub fn insert(&mut self, path: Vec<String>, comment: String)
        ensures
            forall|p: Seq<Seq<char>>| #[trigger] final(self).spec_get(p)
                == if p == views(path@) { Some(comment@) } else { old(self).spec_get(p) },
    {
        let ghost old_view = self@;
        let mut i: usize = 0;
        while i < self.entries.len()
            invariant
                self@ == old_view,
                i <= self.entries.len(),
                forall|j: int| 0 <= j < i ==> old_view[j].0 != views(path@),
            ensures
                self@ == old_view,
                i <= self.entries.len(),
                forall|j: int| 0 <= j < i ==> old_view[j].0 != views(path@),
                i < self.entries.len() ==> old_view[i as int].0 == views(path@),
            decreases self.entries.len() - i,
        {
            if strings_eq(&self.entries[i].0, &path) {
                break;
            }
            i = i + 1;
        }
        if i < self.entries.len() {
            let ghost raw = self.entries@;
            let (p, _) = self.entries.remove(i);
            let ghost pv = views(p@);
            self.entries.insert(i, (p, comment));
            proof {
                assert(pv == raw[i as int].0@.map_values(|s: String| s@));
                assert(pv == old_view[i as int].0);
                assert forall|j: int| 0 <= j < self@.len() implies #[trigger] self@[j] == old_view.update(
                    i as int, (views(path@), comment@))[j] by {
                    if j != i {
                        assert(self.entries@[j] == raw[j]);
                    }
                }
                assert(self@ =~= old_view.update(i as int, (views(path@), comment@)));
                lemma_lookup_update(old_view, i as int, (views(path@), comment@), views(path@));
                assert forall|q: Seq<Seq<char>>| #[trigger] self.spec_get(q)
                    == if q == views(path@) { Some(comment@) } else { comment_lookup(old_view, q) } by {
                    lemma_lookup_update(old_view, i as int, (views(path@), comment@), q);
                }
            }
        } else {
            self.entries.push((path, comment));
            proof {
                assert(self@ =~= old_view.push((views(path@), comment@)));
                lemma_lookup_absent(old_view, views(path@));
                assert forall|q: Seq<Seq<char>>| #[trigger] self.spec_get(q)
                    == if q == views(path@) { Some(comment@) } else { comment_lookup(old_view, q) } by {
                    lemma_lookup_push(old_view, (views(path@), comment@), q);
                }
            }
        }
    }

    /// The comment attached to `path`.
    pub fn get(&self, path: &Vec<String>) -> (r: Option<&String>)
        ensures
            match r {
                Some(c) => self.spec_get(views(path@)) == Some(c@),
                None => self.spec_get(views(path@)) is None,
            },
    {
        let mut i: usize = 0;
        proof {
            assert(self@.skip(0) =~= self@);
        }
        while i < self.entries.len()
            invariant
                i <= self.entries.len(),
                comment_lookup(self@, views(path@)) == comment_lookup(self@.skip(i as int), views(path@)),
            decreases self.entries.len() - i,
        {
            proof {
                assert(self@.skip(i as int).drop_first() =~= self@.skip(i + 1));
                assert(self@.skip(i as int)[0] == self@[i as int]);
            }
            if strings_eq(&self.entries[i].0, path) {
                return Some(&self.entries[i].1);
            }
            i = i + 1;
        }
        proof {
            assert(self@.skip(i as int) =~= Seq::<CommentView>::empty());
        }
        None
    }

    /// Each comment trimmed and ended with a single newline.
    pub fn normalized(&self) -> (r: Self)
        ensures
            r@ == normalize_comments(self@),
    {
        let mut entries: Vec<(Vec<String>, String)> = Vec::new();
        let mut i: usize = 0;
        while i < self.entries.len()
            invariant
                i <= self.entries.len(),
                entries@.map_values(|e: (Vec<String>, String)| (views(e.0@), e.1@))
                    == normalize_comments(self@.take(i as int)),
            decreases self.entries.len() - i,
        {
            let e = &self.entries[i];
            let mut text = trim(e.1.as_str());
            push_str(&mut text, "\n");
            let ghost prev = entries@;
            entries.push((clone_strings(&e.0), text));
            proof {
                assert(self@.take(i + 1).drop_last() =~= self@.take(i as int));
                assert(self@[i as int] == (views(e.0@), e.1@));
                assert(entries@.map_values(|e: (Vec<String>, String)| (views(e.0@), e.1@)) =~=
                    prev.map_values(|e: (Vec<String>, String)| (views(e.0@), e.1@)).push(
                        (views(e.0@), trimmed(e.1@) + "\n"@)));
            }
            i = i + 1;
        }
        proof {
            assert(self@.take(self@.len() as int) =~= self@);
        }
        DocComments { entries }
    }

    pub fn duplicate(&self) -> (r: Self)
        ensures
            r@ == self@,
    {
        let mut entries: Vec<(Vec<String>, String)> = Vec::new();
        let mut i: usize = 0;
        while i < self.entries.len()
            invariant
                i <= self.entries.len(),
                entries@.map_values(|e: (Vec<String>, String)| (views(e.0@), e.1@)) == self@.take(i as int),
            decreases self.entries.len() - i,
        {
            let e = &self.entries[i];
            let ghost prev = entries@;
            entries.push((clone_strings(&e.0), e.1.clone()));
            proof {
                assert(entries@.map_values(|e: (Vec<String>, String)| (views(e.0@), e.1@)) =~=
                    prev.map_values(|e: (Vec<String>, String)| (views(e.0@), e.1@)).push(self@[i as int]));
                assert(self@.take(i + 1) =~= self@.take(i as int).push(self@[i as int]));
            }
            i = i + 1;
        }
        proof {
            assert(self@.take(self@.len() as int) =~= self@);
        }
        DocComments { entries }
    }
}

/// Every comment trimmed, followed by one newline.
pub open spec fn normalize_comments(entries: Seq<CommentView>) -> Seq<CommentView>
    decreases entries.len(),
{
    if entries.len() == 0 {
        seq![]
    } else {
        normalize_comments(entries.drop_last()).push(
            (entries.last().0, trimmed(entries.last().1) + "\n"@),
        )
    }
}

proof fn lemma_lookup_push(entries: Seq<CommentView>, e: CommentView, q: Seq<Seq<char>>)
    ensures
        comment_lookup(entries.push(e), q) == match comment_lookup(entries, q) {
            Some(c) => Some(c),
            None => if e.0 == q { Some(e.1) } else { None },
        },
    decreases entries.len(),
{
    if entries.len() > 0 {
        assert(entries.push(e)[0] == entries[0]);
        assert(entries.push(e).drop_first() =~= entries.drop_first().push(e));
        lemma_lookup_push(entries.drop_first(), e, q);
    } else {
        assert(entries.push(e)[0] == e);
        assert(entries.push(e).drop_first() =~= Seq::<CommentView>::empty());
        assert(comment_lookup(Seq::<CommentView>::empty(), q) is None);
        assert(comment_lookup(entries, q) is None);
    }
}

/// Normalizing comments trims each comment and ends it with one newline;
/// which paths have a comment does not change.
pub proof fn law_normalized_comment_lookup(entries: Seq<CommentView>, path: Seq<Seq<char>>)
    ensures
        comment_lookup(normalize_comments(entries), path) == match comment_lookup(entries, path) {
            Some(c) => Some(trimmed(c) + "\n"@),
            None => None,
        },
    decreases entries.len(),
{
    if entries.len() > 0 {
        let pre = entries.drop_last();
        let e = entries.last();
        law_normalized_comment_lookup(pre, path);
        assert(entries =~= pre.push(e));
        lemma_lookup_push(pre, e, path);
        lemma_lookup_push(normalize_comments(pre), (e.0, trimmed(e.1) + "\n"@), path);
    }
}

proof fn lemma_trim_end_ws_last(s: Seq<char>)
    ensures
        trim_end_ws(s).len() == 0 || !is_white_space(trim_end_ws(s).last()),
    decreases s.len(),
{
    if s.len() > 0 && is_white_space(s.last()) {
        lemma_trim_end_ws_last(s.drop_last());
    }
}

/// A normalized comment ends with exactly one newline.
pub proof fn law_normalized_comment_ends_with_one_newline(c: Seq<char>)
    ensures
        ({
            let r = trimmed(c) + "\n"@;
            &&& r.last() == '\n'
            &&& r.len() == 1 || r[r.len() - 2] != '\n'
        }),
{
    reveal_strlit("\n");
    lemma_trim_end_ws_last(trim_start_ws(c));
    let t = trimmed(c);
    let r = t + "\n"@;
    if t.len() > 0 {
        assert(r[r.len() - 2] == t.last());
        assert(is_white_space('\n'));
    }
}

proof fn lemma_lookup_absent(entries: Seq<CommentView>, q: Seq<Seq<char>>)
    requires
        forall|j: int| 0 <= j < entries.len() ==> entries[j].0 != q,
    ensures
        comment_lookup(entries, q) is None,
    decreases entries.len(),
{
    if entries.len() > 0 {
        assert forall|j: int| 0 <= j < entries.drop_first().len() implies entries.drop_first()[j].0 != q by {
            assert(entries.drop_first()[j] == entries[j + 1]);
        }
        lemma_lookup_absent(entries.drop_first(), q);
    }
}

proof fn lemma_lookup_update(entries: Seq<CommentView>, i: int, e: CommentView, q: Seq<Seq<char>>)
    requires
        0 <= i < entries.len(),
        entries[i].0 == e.0,
        forall|j: int| 0 <= j < i ==> entries[j].0 != e.0,
    ensures
        comment_lookup(entries.update(i, e), q) == if q == e.0 { Some(e.1) } else { comment_lookup(entries, q) },
    decreases entries.len(),
{
    if i > 0 {
        assert(entries.update(i, e)[0] == entries[0]);
        assert(entries.update(i, e).drop_first() =~= entries.drop_first().update(i - 1, e));
        lemma_lookup_update(entries.drop_first(), i - 1, e, q);
    } else {
        assert(entries.update(i, e).drop_first() =~= entries.drop_first());
    }
}

/// A module and the type names it provides.
pub type ExternalView = (Seq<char>, Seq<Seq<char>>);

pub open spec fn sorted_modules(s: Seq<ExternalView>) -> bool {
    forall|i: int, j: int| 0 <= i < j < s.len() ==> text_lt(#[trigger] s[i].0, #[trigger] s[j].0)
}

/// Type definitions provided by external modules, by module name, in
/// increasing module order.
pub struct ExternalDefinitions {
    entries: Vec<(String, Vec<String>)>,
}

impl View for ExternalDefinitions {
    type V = Seq<ExternalView>;

    closed spec fn view(&self) -> Seq<ExternalView> {
        ext_entries_view(self.entries@)
    }
}

spec fn ext_entries_view(s: Seq<(String, Vec<String>)>) -> Seq<ExternalView> {
    s.map_values(|e: (String, Vec<String>)| (e.0@, views(e.1@)))
}

/// All type names provided by external modules.
pub open spec fn external_names(defs: Seq<ExternalView>) -> Seq<Seq<char>>
    decreases defs.len(),
{
    if defs.len() == 0 {
        seq![]
    } else {
        external_names(defs.drop_last()) + defs.last().1
    }
}

impl ExternalDefinitions {
    #[verifier::type_invariant]
    spec fn inv(&self) -> bool {
        sorted_modules(self@)
    }

    pub fn new() -> (d: Self)
        ensures
            d@ == Seq::<ExternalView>::empty(),
    {
        let d = ExternalDefinitions { entries: Vec::new() };
        proof {
            assert(d@ =~= Seq::<ExternalView>::empty());
        }
        d
    }

    /// The number of modules.
    pub fn len(&self) -> (n: usize)
        ensures
            n == self@.len(),
    {
        self.entries.len()
    }

    /// The module at position `i` and its type names.
    pub fn entry(&self, i: usize) -> (e: &(String, Vec<String>))
        requires
            i < self@.len(),
        ensures
            (e.0@, views(e.1@)) == self@[i as int],
    {
        &self.entries[i]
    }

    /// Records the type names of `module`, replacing earlier ones.
    pub fn insert(&mut self, module: String, names: Vec<String>)
        ensures
            sorted_modules(final(self)@),
            (exists|i: int|
                0 <= i < old(self)@.len() && old(self)@[i].0 == module@
                && final(self)@ == old(self)@.update(i, (module@, views(names@))))
            || ((forall|i: int| 0 <= i < old(self)@.len() ==> old(self)@[i].0 != module@)
                && exists|p: int| 0 <= p <= old(self)@.len()
                    && final(self)@ == old(self)@.insert(p, (module@, views(names@)))),
    {
        proof {
            use_type_invariant(&*self);
        }
        let ghost old_view = self@;
        let ghost k = module@;
        let ghost e = (module@, views(names@));
        let mut i: usize = self.entries.len();
        while i > 0
            invariant
                i <= self.entries.len(),
                self@ == old_view,
                old_view == old(self)@,
                sorted_modules(old_view),
                k == module@,
                e == (module@, views(names@)),
                forall|j: int| i <= j < old_view.len() ==> text_lt(k, #[trigger] old_view[j].0),
            ensures
                i <= self.entries.len(),
                self@ == old_view,
                forall|j: int| i <= j < old_view.len() ==> text_lt(k, #[trigger] old_view[j].0),
                i == 0 || text_lt(old_view[i - 1].0, k),
            decreases i,
        {
            assert(old_view[i - 1].0 == self.entries@[i - 1].0@);
            if self.entries[i - 1].0 == module {
                let idx = i - 1;
                let ghost new_view = old_view.update(idx as int, e);
                let mut entries = Vec::new();
                std::mem::swap(&mut entries, &mut self.entries);
                let ghost raw = entries@;
                let item = (module, names);
                let ghost item_g = item;
                let _ = entries.remove(idx);
                entries.insert(idx, item);
                proof {
                    assert(ext_entries_view(raw) == old_view);
                    assert(entries@ =~= raw.update(idx as int, item_g));
                    assert((item_g.0@, views(item_g.1@)) == e);
                    assert forall|j: int| 0 <= j < new_view.len() implies
                        #[trigger] ext_entries_view(entries@)[j]
                        == new_view[j] by {
                        if j != idx {
                            assert(entries@[j] == raw[j]);
                        }
                    }
                    assert(ext_entries_view(entries@) =~= new_view);
                    assert forall|a: int, b: int| 0 <= a < b < new_view.len() implies text_lt(
                        #[trigger] new_view[a].0,
                        #[trigger] new_view[b].0,
                    ) by {
                        assert(old_view[a].0 == new_view[a].0);
                        assert(old_view[b].0 == new_view[b].0);
                    }
                }
                self.entries = entries;
                return;
            }
            if str_lt(self.entries[i - 1].0.as_str(), module.as_str()) {
                break;
            }
            proof {
                lemma_text_lt_total(old_view[i - 1].0, k);
            }
            i = i - 1;
        }
        let ghost pos = i as int;
        proof {
            assert forall|j: int| 0 <= j < pos implies text_lt(#[trigger] old_view[j].0, k) by {
                if j < pos - 1 {
                    lemma_text_lt_transitive(old_view[j].0, old_view[pos - 1].0, k);
                }
            }
            assert forall|j: int| 0 <= j < old_view.len() implies old_view[j].0 != k by {
                lemma_text_lt_irreflexive(k);
            }
        }
        let mut entries = Vec::new();
        std::mem::swap(&mut entries, &mut self.entries);
        entries.insert(i, (module, names));
        let ghost new_view = old_view.insert(pos, e);
        proof {
            assert(ext_entries_view(entries@) =~= new_view);
            assert forall|a: int, b: int| 0 <= a < b < new_view.len() implies text_lt(
                #[trigger] new_view[a].0,
                #[trigger] new_view[b].0,
            ) by {
                if b < pos {
                    assert(new_view[a] == old_view[a] && new_view[b] == old_view[b]);
                } else if b == pos {
                    assert(new_view[a] == old_view[a]);
                } else if a == pos {
                    assert(new_view[b] == old_view[b - 1]);
                } else if a < pos {
                    assert(new_view[a] == old_view[a] && new_view[b] == old_view[b - 1]);
                } else {
                    assert(new_view[a] == old_view[a - 1] && new_view[b] == old_view[b - 1]);
                }
            }
        }
        self.entries = entries;
    }

    /// All type names provided by external modules.
    pub fn all_names(&self) -> (r: Vec<String>)
        ensures
            views(r@) == external_names(self@),
    {
        let mut r: Vec<String> = Vec::new();
        let mut i: usize = 0;
        while i < self.entries.len()
            invariant
                i <= self.entries.len(),
                views(r@) == external_names(self@.take(i as int)),
            decreases self.entries.len() - i,
        {
            let names = &self.entries[i].1;
            let ghost before = views(r@);
            let mut j: usize = 0;
            while j < names.len()
                invariant
                    j <= names.len(),
                    views(r@) == before + views(names@.take(j as int)),
                decreases names.len() - j,
            {
                let c: String = names[j].clone();
                let ghost prev = r@;
                r.push(c);
                proof {
                    assert forall|x: int| 0 <= x < prev.len() implies #[trigger] views(r@)[x] == views(prev)[x] by {
                        assert(r@[x] == prev[x]);
                    }
                    assert(views(r@)[prev.len() as int] == names@[j as int]@);
                    assert(views(r@) =~= views(prev).push(names@[j as int]@));
                    assert(views(names@.take(j + 1)) =~= views(names@.take(j as int)).push(names@[j as int]@));
                }
                j = j + 1;
                proof {
                    assert(views(r@) =~= before + views(names@.take(j as int)));
                }
            }
            proof {
                assert(names@.take(names.len() as int) =~= names@);
                assert(self@.take(i + 1).drop_last() =~= self@.take(i as int));
                assert(self@[i as int].1 == views(names@));
            }
            i = i + 1;
        }
        proof {
            assert(self@.take(self@.len() as int) =~= self@);
        }
        r
    }

    pub fn duplicate(&self) -> (r: Self)
        ensures
            r@ == self@,
    {
        proof {
            use_type_invariant(self);
        }
        let mut entries: Vec<(String, Vec<String>)> = Vec::new();
        let mut i: usize = 0;
        while i < self.entries.len()
            invariant
                i <= self.entries.len(),
                ext_entries_view(entries@) == self@.take(i as int),
            decreases self.entries.len() - i,
        {
            let e = &self.entries[i];
            let ghost prev = entries@;
            entries.push((e.0.clone(), clone_strings(&e.1)));
            proof {
                assert(ext_entries_view(entries@) =~=
                    ext_entries_view(prev).push(self@[i as int]));
                assert(self@.take(i + 1) =~= self@.take(i as int).push(self@[i as int]));
            }
            i = i + 1;
        }
        proof {
            assert(self@.take(self@.len() as int) =~= self@);
        }
        ExternalDefinitions { entries }
    }
}

/// Code generation options.
pub struct CodeGeneratorConfig {
    pub module_name: String,
    pub external_definitions: ExternalDefinitions,
    pub comments: DocComments,
    /// Convert generated type names from `snake_case` to `UpperCamelCase`.
    pub use_title_case: bool,
    /// Emit the root types of an unfiltered schema.
    pub generate_roots: bool,
    /// Emit `new()` constructors for structs with required fields.
    pub generate_builders: bool,
    /// Emit `TerraJson` / `TerraResource` impls for known resources.
    pub generate_trait_impls: bool,
    /// Derive `Default` for every struct, even with required fields.
    pub generate_default: bool,
    /// Text written in place of the default preamble.
    pub custom_preamble: Option<String>,
    /// The resource structs to emit trait impls for.
    pub resource_meta: Vec<ResourceMeta>,
}

/// The options of a configuration, by value.
pub struct ConfigView {
    pub module_name: Seq<char>,
    pub external_definitions: Seq<ExternalView>,
    pub comments: Seq<CommentView>,
    pub use_title_case: bool,
    pub generate_roots: bool,
    pub generate_builders: bool,
    pub generate_trait_impls: bool,
    pub generate_default: bool,
    pub custom_preamble: Option<Seq<char>>,
    pub resource_meta: Seq<MetaView>,
}

impl View for CodeGeneratorConfig {
    type V = ConfigView;

    open spec fn view(&self) -> ConfigView {
        ConfigView {
            module_name: self.module_name@,
            external_definitions: self.external_definitions@,
            comments: self.comments@,
            use_title_case: self.use_title_case,
            generate_roots: self.generate_roots,
            generate_builders: self.generate_builders,
            generate_trait_impls: self.generate_trait_impls,
            generate_default: self.generate_default,
            custom_preamble: match self.custom_preamble {
                Some(p) => Some(p@),
                None => None,
            },
            resource_meta: metas_view(self.resource_meta@),
        }
    }
}

impl CodeGeneratorConfig {
    /// The default options: empty module name, no external definitions,
    /// comments or resource metadata, roots on, every other option off.
    pub open spec fn default_view() -> ConfigView {
        ConfigView {
            module_name: seq![],
            external_definitions: seq![],
            comments: seq![],
            use_title_case: false,
            generate_roots: true,
            generate_builders: false,
            generate_trait_impls: false,
            generate_default: false,
            custom_preamble: None,
            resource_meta: seq![],
        }
    }

    /// A configuration with the default options.
    pub fn new() -> (c: Self)
        ensures
            c@ == Self::default_view(),
    {
        let c = CodeGeneratorConfig {
            module_name: String::new(),
            external_definitions: ExternalDefinitions::new(),
            comments: DocComments::new(),
            use_title_case: false,
            generate_roots: true,
            generate_builders: false,
            generate_trait_impls: false,
            generate_default: false,
            custom_preamble: None,
            resource_meta: Vec::new(),
        };
        proof {
            assert(c@.module_name =~= Seq::<char>::empty());
            assert(c@.resource_meta =~= Seq::<MetaView>::empty());
        }
        c
    }

    /// Sets the module name.
    pub fn with_module_name(self, name: &str) -> (c: Self)
        ensures
            c.module_name@ == name@,
            c == (CodeGeneratorConfig { module_name: c.module_name, ..self }),
    {
        CodeGeneratorConfig { module_name: owned(name), ..self }
    }

    /// Container names provided by external modules.
    pub fn with_external_definitions(self, external_definitions: ExternalDefinitions) -> (c: Self)
        ensures
            c == (CodeGeneratorConfig { external_definitions, ..self }),
    {
        CodeGeneratorConfig { external_definitions, ..self }
    }

    /// Comments attached to particular entities; each is trimmed and ended
    /// with a single newline.
    pub fn with_comments(self, comments: DocComments) -> (c: Self)
        ensures
            c.comments@ == normalize_comments(comments@),
            c == (CodeGeneratorConfig { comments: c.comments, ..self }),
    {
        CodeGeneratorConfig { comments: comments.normalized(), ..self }
    }

    /// Enables or disables `UpperCamelCase` type names.
    pub fn with_title_case(self, enabled: bool) -> (c: Self)
        ensures
            c == (CodeGeneratorConfig { use_title_case: enabled, ..self }),
    {
        CodeGeneratorConfig { use_title_case: enabled, ..self }
    }

    /// Enables or disables the root types.
    pub fn with_generate_roots(self, enabled: bool) -> (c: Self)
        ensures
            c == (CodeGeneratorConfig { generate_roots: enabled, ..self }),
    {
        CodeGeneratorConfig { generate_roots: enabled, ..self }
    }

    /// Enables or disables `new()` constructors.
    pub fn with_generate_builders(self, enabled: bool) -> (c: Self)
        ensures
            c == (CodeGeneratorConfig { generate_builders: enabled, ..self }),
    {
        CodeGeneratorConfig { generate_builders: enabled, ..self }
    }

    /// Enables or disables `TerraJson` / `TerraResource` impls.
    pub fn with_generate_trait_impls(self, enabled: bool) -> (c: Self)
        ensures
            c == (CodeGeneratorConfig { generate_trait_impls: enabled, ..self }),
    {
        CodeGeneratorConfig { generate_trait_impls: enabled, ..self }
    }

    /// Derive `Default` for every struct when enabled.
    pub fn with_generate_default(self, enabled: bool) -> (c: Self)
        ensures
            c == (CodeGeneratorConfig { generate_default: enabled, ..self }),
    {
        CodeGeneratorConfig { generate_default: enabled, ..self }
    }

    /// Writes `preamble` in place of the default preamble.
    pub fn with_custom_preamble(self, preamble: &str) -> (c: Self)
        ensures
            c.custom_preamble matches Some(p) && p@ == preamble@,
            c == (CodeGeneratorConfig { custom_preamble: c.custom_preamble, ..self }),
    {
        CodeGeneratorConfig { custom_preamble: Some(owned(preamble)), ..self }
    }

    /// The resource structs to emit trait impls for.
    pub fn with_resource_meta(self, resource_meta: Vec<ResourceMeta>) -> (c: Self)
        ensures
            c == (CodeGeneratorConfig { resource_meta, ..self }),
    {
        CodeGeneratorConfig { resource_meta, ..self }
    }

    /// A copy with the same options.
    pub fn duplicate(&self) -> (c: Self)
        ensures
            c@ == self@,
    {
        CodeGeneratorConfig {
            module_name: self.module_name.clone(),
            external_definitions: self.external_definitions.duplicate(),
            comments: self.comments.duplicate(),
            use_title_case: self.use_title_case,
            generate_roots: self.generate_roots,
            generate_builders: self.generate_builders,
            generate_trait_impls: self.generate_trait_impls,
            generate_default: self.generate_default,
            custom_preamble: match &self.custom_preamble {
                Some(p) => Some(p.clone()),
                None => None,
            },
            resource_meta: duplicate_metas(&self.resource_meta),
        }
    }
}

impl Default for CodeGeneratorConfig {
    fn default() -> (c: Self)
        ensures
            c@ == Self::default_view(),
    {
        CodeGeneratorConfig::new()
    }
}

} // verus!
