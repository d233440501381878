//! The resolver: turns a loaded `SourceEnvironment` into one flat,
//! fully-addressed `Environment`.
//!
//! Projects are processed in plain load order — dependency
//! declarations are not consulted, so there is no topological sort,
//! no cycle detection and no pruning. Within a project, fragments and
//! their type declarations are processed in their stored order, so a
//! resolution run is deterministic up to the placeholder identifiers
//! manufactured for local alias references.

use crate::entity::declaration_reference::DeclarationReference;
use crate::entity::environment::{Environment, EnvironmentView};
use crate::entity::project_identifier::{ProjectIdentifier, ProjectIdentifierView};
use crate::entity::type_definition::{
    is_undefined_identifier, AliasTypeDefinitionView, NativeBindingTypeDefinitionView,
    TypeDefinition, TypeDefinitionIdentifier, TypeDefinitionIdentifierView, TypeDefinitionView,
};
use crate::source::environment::SourceEnvironment;
use crate::source::module_fragment::{SourceModuleFragment, SourceModuleFragmentView};
use crate::source::project::{project_id, resolved_project_id, SourceProject};
use crate::source::type_definition::{SourceTypeDefinition, TypeDefinitionTypeReference};
use vstd::prelude::*;

verus! {

#[derive(Debug)]
pub struct Resolver<'env> {
    pub env: &'env SourceEnvironment,
}

#[derive(Debug)]
pub enum ResolverError {
    EnvironmentResolveError(String),
}

/// One type declaration, located at its project and module path.
pub struct DeclarationAt {
    pub project: ProjectIdentifierView,
    pub module: Seq<Seq<char>>,
    pub name: Seq<char>,
    pub definition: SourceTypeDefinition,
}

/// The declarations of one fragment, in stored order.
pub open spec fn fragment_decls(
    pid: ProjectIdentifierView,
    f: SourceModuleFragmentView,
) -> Seq<DeclarationAt> {
    Seq::new(
        f.definitions.types.len(),
        |i: int|
            DeclarationAt {
                project: pid,
                module: f.path,
                name: f.definitions.types[i].0,
                definition: f.definitions.types[i].1,
            },
    )
}

/// The declarations of one project: its fragments' declarations,
/// concatenated in stored order.
pub open spec fn project_decls(p: SourceProject) -> Seq<DeclarationAt> {
    Seq::new(
        p.module_fragments@.len(),
        |i: int| fragment_decls(project_id(p), p.module_fragments@[i]@),
    ).flatten()
}

/// The declarations of the whole environment: the projects'
/// declarations, concatenated in load order.
pub open spec fn environment_decls(env: SourceEnvironment) -> Seq<DeclarationAt> {
    Seq::new(env.projects@.len(), |i: int| project_decls(env.projects@[i])).flatten()
}

/// The identifier an alias reference resolves to: a fully qualified
/// reference becomes a concrete address — a pure construction, with
/// no check that a declaration exists there — while a local reference
/// has no determined target (`None`), and resolution falls back to a
/// fresh placeholder.
pub open spec fn alias_target(
    current: ProjectIdentifierView,
    d: DeclarationReference,
) -> Option<TypeDefinitionIdentifierView> {
    match d {
        DeclarationReference::FullyQualified { project_ref, module, name } => Some(
            TypeDefinitionIdentifierView {
                project: resolved_project_id(project_ref@, current),
                path: module@.push(name@),
            },
        ),
        DeclarationReference::Local { .. } => None,
    }
}

/// What resolving one declaration emits. A native binding and a fully
/// qualified alias are pinned exactly; a local alias yields an alias
/// to *some* placeholder of the undefined shape, fresh on every run.
pub open spec fn decl_resolves_to(d: DeclarationAt, out: TypeDefinitionView) -> bool {
    let id = TypeDefinitionIdentifierView { project: d.project, path: d.module.push(d.name) };
    match d.definition.type_ref {
        TypeDefinitionTypeReference::NativeBinding => out == TypeDefinitionView::NativeBinding(
            NativeBindingTypeDefinitionView {
                identifier: id,
                bindings: d.definition.native_bindings@,
            },
        ),
        TypeDefinitionTypeReference::Alias(dr) => match alias_target(d.project, dr) {
            Some(t) => out == TypeDefinitionView::Alias(
                AliasTypeDefinitionView { identifier: id, aliases: t },
            ),
            None => exists|u: TypeDefinitionIdentifierView|
                is_undefined_identifier(u) && out == TypeDefinitionView::Alias(
                    AliasTypeDefinitionView { identifier: id, aliases: u },
                ),
        },
    }
}

/// Each emitted entry resolves its declaration, in order.
pub open spec fn entries_match(decls: Seq<DeclarationAt>, outs: Seq<TypeDefinitionView>) -> bool {
    &&& outs.len() == decls.len()
    &&& forall|i: int| 0 <= i < decls.len() ==> decl_resolves_to(decls[i], outs[i])
}

/// What a successful resolution run returns: an environment
/// addressed at the target project whose type definitions resolve the
/// environment's declarations one for one, in order, and which holds
/// no components.
pub open spec fn resolution_of(env: SourceEnvironment, out: EnvironmentView) -> bool {
    &&& env.target_project matches Some(t) && out.identifier == t@
    &&& out.components.len() == 0
    &&& entries_match(environment_decls(env), out.type_definitions)
}

proof fn lemma_entries_match_concat(
    d1: Seq<DeclarationAt>,
    o1: Seq<TypeDefinitionView>,
    d2: Seq<DeclarationAt>,
    o2: Seq<TypeDefinitionView>,
)
    requires
        entries_match(d1, o1),
        entries_match(d2, o2),
    ensures
        entries_match(d1 + d2, o1 + o2),
{
    assert forall|i: int| 0 <= i < (d1 + d2).len() implies decl_resolves_to(
        (d1 + d2)[i],
        (o1 + o2)[i],
    ) by {
        if i < d1.len() {
            assert((d1 + d2)[i] == d1[i]);
            assert((o1 + o2)[i] == o1[i]);
        } else {
            assert((d1 + d2)[i] == d2[i - d1.len()]);
            assert((o1 + o2)[i] == o2[i - d1.len()]);
        }
    }
}

impl<'env> Resolver<'env> {
    pub fn of(env: &'env SourceEnvironment) -> (r: Self)
        ensures
            r.env == env,
    {
        Resolver { env }
    }

    /// Resolves the environment. Succeeds exactly when a target
    /// project is designated; the result then satisfies
    /// [`resolution_of`]. No partial environment is returned on
    /// failure.
    pub fn resolve(&self) -> (r: Result<Environment, ResolverError>)
        ensures
            r is Ok <==> self.env.target_project is Some,
            r matches Ok(e) ==> resolution_of(*self.env, e@),
            r matches Err(ResolverError::EnvironmentResolveError(msg)) ==> {
                &&& self.env.target_project is None
                &&& msg@ == "No target project"@
            },
    {
        let target: &ProjectIdentifier = match self.env.target_project() {
            Some(t) => t,
            None => {
                return Err(
                    ResolverError::EnvironmentResolveError("No target project".to_owned()),
                );
            },
        };
        let project_identifier = ProjectIdentifier::new(target.group(), target.name());
        let mut environment = Environment::empty(project_identifier);
        let source_projects = self.projects_in_resolution_order();
        let ghost decls_by_project = Seq::new(
            self.env.projects@.len(),
            |i: int| project_decls(self.env.projects@[i]),
        );
        let mut p: usize = 0;
        proof {
            assert(decls_by_project.take(0) =~= Seq::<Seq<DeclarationAt>>::empty());
            assert(decls_by_project.take(0).flatten() =~= Seq::<DeclarationAt>::empty());
            assert(environment@.type_definitions =~= Seq::<TypeDefinitionView>::empty());
        }
        while p < source_projects.len()
            invariant
                p <= source_projects@.len(),
                source_projects@.len() == self.env.projects@.len(),
                forall|i: int|
                    0 <= i < source_projects@.len() ==> *(#[trigger] source_projects@[i])
                        == self.env.projects@[i],
                decls_by_project == Seq::new(
                    self.env.projects@.len(),
                    |i: int| project_decls(self.env.projects@[i]),
                ),
                environment@.identifier == self.env.target_project->0@,
                self.env.target_project is Some,
                environment@.components.len() == 0,
                entries_match(
                    decls_by_project.take(p as int).flatten(),
                    environment@.type_definitions,
                ),
            decreases source_projects@.len() - p,
        {
            let ghost done = environment@.type_definitions;
            let project: &SourceProject = source_projects[p];
            self.resolve_project_into(project, &mut environment);
            proof {
                decls_by_project.take(p as int).lemma_flatten_push(decls_by_project[p as int]);
                assert(decls_by_project.take(p as int).push(decls_by_project[p as int])
                    =~= decls_by_project.take(p + 1));
                lemma_entries_match_concat(
                    decls_by_project.take(p as int).flatten(),
                    done,
                    project_decls(*project),
                    environment@.type_definitions.skip(done.len() as int),
                );
                assert(environment@.type_definitions =~= done
                    + environment@.type_definitions.skip(done.len() as int));
            }
            p += 1;
        }
        proof {
            assert(decls_by_project.take(self.env.projects@.len() as int) =~= decls_by_project);
        }
        Ok(environment)
    }

    /// The projects in processing order: plain load order, dependency
    /// declarations unconsulted.
    fn projects_in_resolution_order(&self) -> (r: Vec<&'env SourceProject>)
        ensures
            r@.len() == self.env.projects@.len(),
            forall|i: int|
                0 <= i < r@.len() ==> *(#[trigger] r@[i]) == self.env.projects@[i],
    {
        let mut buf: Vec<&'env SourceProject> = Vec::new();
        let projects = self.env.projects();
        let mut i: usize = 0;
        while i < projects.len()
            invariant
                i <= projects@.len(),
                projects@ == self.env.projects@,
                buf@.len() == i,
                forall|j: int|
                    0 <= j < i ==> *(#[trigger] buf@[j]) == self.env.projects@[j],
            decreases projects@.len() - i,
        {
            buf.push(&projects[i]);
            i += 1;
        }
        buf
    }

    /// Emits every declaration of one project, appending to the
    /// context in stored order.
    fn resolve_project_into(&self, project: &SourceProject, context: &mut Environment)
        ensures
            final(context)@.identifier == old(context)@.identifier,
            final(context)@.components == old(context)@.components,
            final(context)@.type_definitions.len() >= old(context)@.type_definitions.len(),
            final(context)@.type_definitions.take(old(context)@.type_definitions.len() as int)
                == old(context)@.type_definitions,
            entries_match(
                project_decls(*project),
                final(context)@.type_definitions.skip(
                    old(context)@.type_definitions.len() as int,
                ),
            ),
    {
        let ghost base = old(context)@.type_definitions;
        let ghost decls_by_fragment = Seq::new(
            project.module_fragments@.len(),
            |i: int| fragment_decls(project_id(*project), project.module_fragments@[i]@),
        );
        let modules = project.modules();
        let mut f: usize = 0;
        proof {
            assert(decls_by_fragment.take(0) =~= Seq::<Seq<DeclarationAt>>::empty());
            assert(decls_by_fragment.take(0).flatten() =~= Seq::<DeclarationAt>::empty());
            assert(context@.type_definitions.skip(base.len() as int) =~= Seq::<
                TypeDefinitionView,
            >::empty());
            assert(context@.type_definitions.take(base.len() as int) =~= base);
        }
        while f < modules.len()
            invariant
                f <= modules@.len(),
                modules@ == project.module_fragments@,
                decls_by_fragment == Seq::new(
                    project.module_fragments@.len(),
                    |i: int| fragment_decls(project_id(*project), project.module_fragments@[i]@),
                ),
                base == old(context)@.type_definitions,
                context@.identifier == old(context)@.identifier,
                context@.components == old(context)@.components,
                context@.type_definitions.len() >= base.len(),
                context@.type_definitions.take(base.len() as int) == base,
                entries_match(
                    decls_by_fragment.take(f as int).flatten(),
                    context@.type_definitions.skip(base.len() as int),
                ),
            decreases modules@.len() - f,
        {
            let ghost done = context@.type_definitions;
            let module: &SourceModuleFragment = &modules[f];
            self.resolve_fragment_into(project, module, context);
            proof {
                decls_by_fragment.take(f as int).lemma_flatten_push(
                    decls_by_fragment[f as int],
                );
                assert(decls_by_fragment.take(f as int).push(decls_by_fragment[f as int])
                    =~= decls_by_fragment.take(f + 1));
                lemma_entries_match_concat(
                    decls_by_fragment.take(f as int).flatten(),
                    done.skip(base.len() as int),
                    fragment_decls(project_id(*project), module@),
                    context@.type_definitions.skip(done.len() as int),
                );
                assert(context@.type_definitions.skip(base.len() as int) =~= done.skip(
                    base.len() as int,
                ) + context@.type_definitions.skip(done.len() as int));
                assert(context@.type_definitions.take(base.len() as int) =~= base);
            }
            f += 1;
        }
        proof {
            assert(decls_by_fragment.take(modules@.len() as int) =~= decls_by_fragment);
            assert(project_decls(*project) == decls_by_fragment.flatten());
        }
    }

    /// Emits every type declaration of one fragment, in stored order.
    fn resolve_fragment_into(
        &self,
        project: &SourceProject,
        module: &SourceModuleFragment,
        context: &mut Environment,
    )
        ensures
            final(context)@.identifier == old(context)@.identifier,
            final(context)@.components == old(context)@.components,
            final(context)@.type_definitions.len() >= old(context)@.type_definitions.len(),
            final(context)@.type_definitions.take(old(context)@.type_definitions.len() as int)
                == old(context)@.type_definitions,
            entries_match(
                fragment_decls(project_id(*project), module@),
                final(context)@.type_definitions.skip(
                    old(context)@.type_definitions.len() as int,
                ),
            ),
    {
        let ghost base = old(context)@.type_definitions;
        let ghost decls = fragment_decls(project_id(*project), module@);
        let types = module.definitions().types();
        let mut t: usize = 0;
        proof {
            assert(context@.type_definitions.skip(base.len() as int) =~= Seq::<
                TypeDefinitionView,
            >::empty());
            assert(context@.type_definitions.take(base.len() as int) =~= base);
        }
        while t < types.len()
            invariant
                t <= types@.len(),
                types@ == module@.definitions.types,
                decls == fragment_decls(project_id(*project), module@),
                decls.len() == types@.len(),
                base == old(context)@.type_definitions,
                context@.identifier == old(context)@.identifier,
                context@.components == old(context)@.components,
                context@.type_definitions.len() == base.len() + t,
                context@.type_definitions.take(base.len() as int) == base,
                entries_match(
                    decls.take(t as int),
                    context@.type_definitions.skip(base.len() as int),
                ),
            decreases types@.len() - t,
        {
            let ghost done = context@.type_definitions;
            let declared_name = types.key_at(t);
            let type_def = types.value_at(t);
            self.resolve_type_into(project, context, module, type_def, declared_name);
            proof {
                assert(decls[t as int] == (DeclarationAt {
                    project: project_id(*project),
                    module: module@.path,
                    name: declared_name@,
                    definition: *type_def,
                }));
                assert(decls.take(t + 1) =~= decls.take(t as int).push(decls[t as int]));
                assert(context@.type_definitions.drop_last() == done);
                assert(context@.type_definitions.skip(base.len() as int) =~= done.skip(
                    base.len() as int,
                ).push(context@.type_definitions.last()));
                assert(context@.type_definitions.take(base.len() as int) =~= base);
            }
            t += 1;
        }
        proof {
            assert(decls.take(types@.len() as int) =~= decls);
        }
    }

    /// Emits one declaration: a native binding copies its binding
    /// map; an alias resolves its reference, falling back to a fresh
    /// placeholder for a local reference.
    fn resolve_type_into(
        &self,
        project: &SourceProject,
        context: &mut Environment,
        module: &SourceModuleFragment,
        type_definition: &SourceTypeDefinition,
        declared_name: &String,
    )
        ensures
            final(context)@.identifier == old(context)@.identifier,
            final(context)@.components == old(context)@.components,
            final(context)@.type_definitions.len() == old(context)@.type_definitions.len() + 1,
            final(context)@.type_definitions.drop_last() == old(context)@.type_definitions,
            decl_resolves_to(
                (DeclarationAt {
                    project: project_id(*project),
                    module: module@.path,
                    name: declared_name@,
                    definition: *type_definition,
                }),
                final(context)@.type_definitions.last(),
            ),
    {
        let identifier = TypeDefinitionIdentifier::new(
            project.identifier(),
            module.path().extended(declared_name.as_str()),
        );
        match type_definition.type_ref() {
            TypeDefinitionTypeReference::NativeBinding => {
                context.push_type_definition(
                    TypeDefinition::new_native_binding(
                        identifier,
                        type_definition.native_bindings(),
                    ),
                );
            },
            TypeDefinitionTypeReference::Alias(declaration_ref) => {
                let target = self.resolve_type_identifier(project, declaration_ref);
                context.push_type_definition(TypeDefinition::new_alias(identifier, target));
            },
        }
        proof {
            assert(final(context)@.type_definitions.drop_last() =~= old(
                context,
            )@.type_definitions);
        }
    }

    /// The identifier an alias reference stands for, as
    /// [`alias_target`] says: a fully qualified reference is turned
    /// into a concrete address without any existence check; a local
    /// reference gets a fresh placeholder of the undefined shape.
    fn resolve_type_identifier(
        &self,
        project: &SourceProject,
        declaration_ref: &DeclarationReference,
    ) -> (r: TypeDefinitionIdentifier)
        ensures
            match alias_target(project_id(*project), *declaration_ref) {
                Some(t) => r@ == t,
                None => is_undefined_identifier(r@),
            },
    {
        match declaration_ref {
            DeclarationReference::FullyQualified { project_ref, module, name } => {
                let target_project = project_ref.identifier(project);
                TypeDefinitionIdentifier::new(target_project, module.extended(name.as_str()))
            },
            DeclarationReference::Local { .. } => TypeDefinitionIdentifier::undefined(),
        }
    }
}

/// Whether the environment declares no local alias references (the
/// one source of nondeterminism in resolution).
pub open spec fn no_local_aliases(env: SourceEnvironment) -> bool {
    forall|i: int|
        0 <= i < environment_decls(env).len() ==> !((#[trigger] environment_decls(
            env,
        )[i]).definition.type_ref matches TypeDefinitionTypeReference::Alias(
            DeclarationReference::Local { .. },
        ))
}

/// Resolution determinism: two resolutions of the same environment
/// that is free of local alias references yield the same resolved
/// environment. (A local alias reference yields a fresh placeholder
/// identifier on every run, distinct by design.)
pub proof fn lemma_resolution_deterministic(
    env: SourceEnvironment,
    e1: EnvironmentView,
    e2: EnvironmentView,
)
    requires
        resolution_of(env, e1),
        resolution_of(env, e2),
        no_local_aliases(env),
    ensures
        e1 == e2,
{
    let decls = environment_decls(env);
    assert forall|i: int| 0 <= i < decls.len() implies e1.type_definitions[i]
        == e2.type_definitions[i] by {
        assert(decl_resolves_to(decls[i], e1.type_definitions[i]));
        assert(decl_resolves_to(decls[i], e2.type_definitions[i]));
        match decls[i].definition.type_ref {
            TypeDefinitionTypeReference::NativeBinding => {
            },
            TypeDefinitionTypeReference::Alias(dr) => {
                assert(!(dr matches DeclarationReference::Local { .. }));
                assert(alias_target(decls[i].project, dr) is Some);
            },
        }
    }
    assert(e1.type_definitions =~= e2.type_definitions);
    assert(e1.components =~= e2.components);
    assert(e1 =~= e2);
}

} // verus!
