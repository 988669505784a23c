//! The templates of a site and the rendering of data with them.

use crate::data::{json_value, to_json, Data, Tree};
use crate::error::ZahuyachError;
use crate::includes::{mirrors, no_cycle, plain_includes, record_with, renders, scan, settles};
use crate::text::to_chars;
use vstd::prelude::*;

verus! {

/// `handlebars::Handlebars`: the registry of the template engine.
#[verifier::external_type_specification]
#[verifier::external_body]
pub struct ExHandlebars<'reg>(handlebars::Handlebars<'reg>);

/// A registry of templates that owns what it holds.
pub type Registry = handlebars::Handlebars<'static>;

/// The templates that a registry holds: the source of each, by name.
pub uninterp spec fn template_sources(registry: Registry) -> Map<
    Seq<char>,
    Seq<char>,
>;

/// What is wrong with a template source, in the engine's words, if the
/// engine cannot read it under that name.
pub uninterp spec fn template_fault(name: Seq<char>, source: Seq<char>) -> Option<Seq<char>>;

/// What rendering the template `name` with `data` gives when the engine
/// holds the templates `sources`: the text, or the engine's words for what
/// went wrong.
pub uninterp spec fn rendered(
    sources: Map<Seq<char>, Seq<char>>,
    name: Seq<char>,
    data: serde_json::Value,
) -> Result<Seq<char>, Seq<char>>;

/// No templates.
pub open spec fn no_templates() -> Map<Seq<char>, Seq<char>> {
    Map::empty()
}

/// `Handlebars::new`: a registry without templates. It is not strict and
/// escapes HTML, which every registry of this library stays.
#[verifier::external_body]
fn new_registry() -> (r: Registry)
    ensures
        template_sources(r) == no_templates(),
{
    handlebars::Handlebars::new()
}

/// `Handlebars::register_template_string`. The engine compiles the source
/// first. Where that fails the registry is left as it was and the error's
/// text comes back; else the registry holds the source under the name, in
/// place of what it held there.
#[verifier::external_body]
fn register_source(registry: &mut Registry, name: &str, source: &str) -> (r:
    Result<(), String>)
    ensures
        match template_fault(name@, source@) {
            Some(fault) => r is Err && r->Err_0@ == fault && template_sources(*final(registry))
                == template_sources(*old(registry)),
            None => r is Ok && template_sources(*final(registry)) == template_sources(
                *old(registry),
            ).insert(name@, source@),
        },
{
    registry.register_template_string(name, source).map_err(|e| e.to_string())
}

/// `Handlebars::get_template`: whether the registry holds a template of
/// that name.
#[verifier::external_body]
fn holds_template(registry: &Registry, name: &str) -> (r: bool)
    ensures
        r == template_sources(*registry).dom().contains(name@),
{
    registry.get_template(name).is_some()
}

/// `Handlebars::render` on a registry as `new_registry` makes it and
/// `register_source` fills it. The call is made only where rendering comes
/// to an end: every include in a held source names a held template
/// plainly (no computed name, no block handed on, no template defined in
/// a source), so the engine follows the includes that the sources show,
/// and those form no cycle. The result is named: it is a function of the
/// templates held, the name and the data.
#[verifier::external_body]
fn render_value(registry: &Registry, name: &str, data: &serde_json::Value) -> (r: Result<String, String>)
    requires
        renders(template_sources(*registry)),
    ensures
        match rendered(template_sources(*registry), name@, *data) {
            Ok(text) => r is Ok && r->Ok_0@ == text,
            Err(fault) => r is Err && r->Err_0@ == fault,
        },
{
    registry.render(name, data).map_err(|e| e.to_string())
}

/// What rendering the template `name` with a tree of data gives.
pub open spec fn render_outcome(sources: Map<Seq<char>, Seq<char>>, name: Seq<char>, data: Tree) -> Result<
    Seq<char>,
    Seq<char>,
> {
    rendered(sources, name, json_value(data))
}

/// What is wrong with a source whose includes are not plain.
pub open spec fn include_fault() -> Seq<char> {
    "Template error: an include must name its template plainly, as in {{> name}}"@
}

/// What is wrong with a source that closes a cycle of includes.
pub open spec fn cycle_fault() -> Seq<char> {
    "Template error: templates include one another without end"@
}

/// What registering the template `name` with `source` comes to, where the
/// templates `held` are there: the templates then held, or the message of
/// the refusal. A source is refused where an include of it does not name
/// its template plainly, where with it the includes among the templates
/// would form a cycle, and where the engine cannot read it.
pub open spec fn registration(
    held: Map<Seq<char>, Seq<char>>,
    name: Seq<char>,
    source: Seq<char>,
) -> Result<Map<Seq<char>, Seq<char>>, Seq<char>> {
    if !plain_includes(source) {
        Err(include_fault())
    } else if !no_cycle(held.insert(name, source)) {
        Err(cycle_fault())
    } else {
        match template_fault(name, source) {
            Some(fault) => Err("Template error: "@ + fault),
            None => Ok(held.insert(name, source)),
        }
    }
}

/// The templates of a site.
pub struct Templates {
    registry: Registry,
    /// The names of the templates held.
    names: Vec<Vec<char>>,
    /// For each template held, the names that its source includes.
    links: Vec<Vec<Vec<char>>>,
}

impl View for Templates {
    type V = Map<Seq<char>, Seq<char>>;

    /// The source of each template, by name.
    closed spec fn view(&self) -> Map<Seq<char>, Seq<char>> {
        template_sources(self.registry)
    }
}

impl Templates {
    /// What holds of every set of templates: the record of names and
    /// includes is that of the templates held, every include names its
    /// template plainly, and the includes form no cycle.
    pub closed spec fn wf(&self) -> bool {
        &&& mirrors(self.names@, self.links@, template_sources(self.registry))
        &&& renders(template_sources(self.registry))
    }

    /// Rendering with a set of templates that is as it should be comes to
    /// an end.
    pub proof fn lemma_wf(&self)
        requires
            self.wf(),
        ensures
            renders(self@),
    {
    }

    /// No templates.
    pub fn new() -> (r: Templates)
        ensures
            r.wf(),
            r@ == no_templates(),
    {
        Templates { registry: new_registry(), names: Vec::new(), links: Vec::new() }
    }

    /// Adds the template `name`, in place of an earlier one of that name.
    /// Where the source is refused, nothing changes.
    pub fn register(&mut self, name: &str, source: &str) -> (r: Result<(), ZahuyachError>)
        requires
            old(self).wf(),
        ensures
            final(self).wf(),
            match registration(old(self)@, name@, source@) {
                Ok(held) => r is Ok && final(self)@ == held,
                Err(message) => r is Err && r->Err_0.is_invalid_input(message) && final(self)@ == old(
                    self,
                )@,
            },
    {
        let key = to_chars(name);
        let text = to_chars(source);
        let found = match scan(&text) {
            Some(found) => found,
            None => {
                return Err(
                    ZahuyachError::invalid_input(
                        "Template error: an include must name its template plainly, as in {{> name}}",
                    ),
                );
            },
        };
        let ghost held = template_sources(self.registry);
        let (names, links) = record_with(
            &self.names,
            &self.links,
            &key,
            &found,
            Ghost(held),
            Ghost(source@),
        );
        if !settles(&names, &links, Ghost(held.insert(name@, source@))) {
            return Err(
                ZahuyachError::invalid_input(
                    "Template error: templates include one another without end",
                ),
            );
        }
        match register_source(&mut self.registry, name, source) {
            Ok(()) => {
                self.names = names;
                self.links = links;
                Ok(())
            },
            Err(fault) => Err(ZahuyachError::invalid_input_with("Template error: ", fault.as_str())),
        }
    }

    /// Whether there is a template `name`.
    pub fn has(&self, name: &str) -> (r: bool)
        ensures
            r == self@.dom().contains(name@),
    {
        holds_template(&self.registry, name)
    }

    /// Whether there is no template at all.
    pub fn is_empty(&self) -> (r: bool)
        requires
            self.wf(),
        ensures
            r == (forall|name: Seq<char>| !self@.dom().contains(name)),
    {
        proof {
            if self.names@.len() > 0 {
                assert(self@.dom().contains(self.names@[0]@));
            } else {
                assert forall|name: Seq<char>| !self@.dom().contains(name) by {
                    if self@.dom().contains(name) {
                        let k = choose|k: int|
                            0 <= k < self.names@.len() && #[trigger] self.names@[k]@ == name;
                    }
                }
            }
        }
        self.names.len() == 0
    }

    /// Renders the template `name` with `data`: the text, or the engine's
    /// words for what went wrong.
    pub fn render(&self, name: &str, data: &Data) -> (r: Result<String, String>)
        requires
            self.wf(),
        ensures
            match render_outcome(self@, name@, data@) {
                Ok(text) => r is Ok && r->Ok_0@ == text,
                Err(fault) => r is Err && r->Err_0@ == fault,
            },
    {
        let value = to_json(data);
        render_value(&self.registry, name, &value)
    }
}

} // verus!
