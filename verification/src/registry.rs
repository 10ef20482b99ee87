//! The engines of the service, each under its name.
use crate::engine::{EngineView, LogicEngine};
use crate::error::{ServiceError, ServiceErrorView};
use crate::named::{
    as_map, has_name, index_of_name, lemma_map_values_names, lemma_map_values_with_entry,
    lemma_map_values_without_name, lemma_update_value, lemma_with_entry, lemma_without_name,
    map_values, NameMap,
};
use vstd::prelude::*;

verus! {

/// The engines that were spawned and not removed since. No two go by the
/// same name. Who holds the registry by `&mut` is alone with all its engines.
#[derive(Debug)]
pub struct EngineRegistry<M> {
    engines: NameMap<LogicEngine<M>>,
}

impl<M> View for EngineRegistry<M> {
    type V = Map<Seq<char>, EngineView<M>>;

    closed spec fn view(&self) -> Map<Seq<char>, EngineView<M>> {
        as_map(map_values(self.engines@, |engine: LogicEngine<M>| engine@))
    }
}

impl<M> EngineRegistry<M> {
    /// A registry without engines.
    pub fn new() -> (out: Self)
        ensures
            out@ == Map::<Seq<char>, EngineView<M>>::empty(),
    {
        let out = EngineRegistry { engines: NameMap::new() };
        assert(out@ =~= Map::<Seq<char>, EngineView<M>>::empty());
        out
    }

    /// Whether an engine goes by `name`.
    pub fn contains(&self, name: &str) -> (held: bool)
        ensures
            held == self@.contains_key(name@),
    {
        let found = self.engines.position(name);
        proof {
            lemma_map_values_names(self.engines@, |engine: LogicEngine<M>| engine@, name@);
        }
        found.is_some()
    }

    /// Puts a new engine around `machine`, with no module loaded, under
    /// `name`. An engine that went by that name is dropped with all its
    /// modules.
    pub fn spawn_engine(&mut self, name: String, machine: M)
        ensures
            final(self)@ == old(self)@.insert(
                name@,
                EngineView { machine, modules: Seq::empty() },
            ),
    {
        let ghost before = self.engines@;
        let engine = LogicEngine::new(machine);
        let ghost value = engine;
        self.engines.insert(name, engine);
        proof {
            let f = |engine: LogicEngine<M>| engine@;
            lemma_map_values_names(before, f, name@);
            lemma_map_values_with_entry(before, f, name@, value);
            lemma_with_entry(map_values(before, f), name@, value@);
        }
    }

    /// Takes the engine that goes by `name` out, with all its modules.
    pub fn remove_engine(&mut self, name: &str) -> (removed: Result<(), ServiceError>)
        ensures
            final(self)@ == old(self)@.remove(name@),
            match removed {
                Ok(()) => old(self)@.contains_key(name@),
                Err(error) => !old(self)@.contains_key(name@) && error@
                    == ServiceErrorView::EngineNotFound(name@),
            },
    {
        let ghost before = self.engines@;
        let found = self.engines.remove(name);
        proof {
            let f = |engine: LogicEngine<M>| engine@;
            lemma_map_values_names(before, f, name@);
            lemma_map_values_without_name(before, f, name@);
            lemma_without_name(map_values(before, f), name@);
        }
        match found {
            Some(_) => Ok(()),
            None => Err(ServiceError::EngineNotFound(String::from_str(name))),
        }
    }

    /// The engine that goes by `name`.
    pub fn engine(&self, name: &str) -> (found: Result<&LogicEngine<M>, ServiceError>)
        ensures
            match found {
                Ok(engine) => self@.contains_key(name@) && engine@ == self@[name@],
                Err(error) => !self@.contains_key(name@) && error@
                    == ServiceErrorView::EngineNotFound(name@),
            },
    {
        let found = self.engines.get(name);
        proof {
            lemma_map_values_names(self.engines@, |engine: LogicEngine<M>| engine@, name@);
        }
        match found {
            Some(engine) => Ok(engine),
            None => Err(ServiceError::EngineNotFound(String::from_str(name))),
        }
    }

    /// The engine that goes by `name`, for the caller alone to work on.
    /// What the caller does to it is what the registry then holds under
    /// that name; every other engine stays as it was.
    pub fn with_engine(&mut self, name: &str) -> (found: Result<&mut LogicEngine<M>, ServiceError>)
        ensures
            match found {
                Ok(engine) => {
                    &&& old(self)@.contains_key(name@)
                    &&& engine@ == old(self)@[name@]
                    &&& final(self)@ == old(self)@.insert(name@, final(engine)@)
                },
                Err(error) => {
                    &&& !old(self)@.contains_key(name@)
                    &&& error@ == ServiceErrorView::EngineNotFound(name@)
                    &&& final(self)@ == old(self)@
                },
            },
    {
        let ghost before = self.engines@;
        let found = self.engines.get_mut(name);
        proof {
            lemma_map_values_names(before, |engine: LogicEngine<M>| engine@, name@);
        }
        match found {
            Some(engine) => {
                proof {
                    let f = |engine: LogicEngine<M>| engine@;
                    lemma_update_value(before, name@, *final(engine));
                    lemma_map_values_with_entry(before, f, name@, *final(engine));
                    lemma_with_entry(map_values(before, f), name@, final(engine)@);
                }
                Ok(engine)
            },
            None => Err(ServiceError::EngineNotFound(String::from_str(name))),
        }
    }
}

/// Engines are isolated: whatever is put under one name, and whether that
/// name is taken out, the registry holds under every other name the engine
/// that it held before, with the same machine and the same modules.
pub proof fn lemma_other_engines_untouched<M>(
    engines: Map<Seq<char>, EngineView<M>>,
    touched: Seq<char>,
    engine: EngineView<M>,
    other: Seq<char>,
)
    requires
        other != touched,
    ensures
        engines.insert(touched, engine).contains_key(other) == engines.contains_key(other),
        engines.insert(touched, engine)[other] == engines[other],
        engines.remove(touched).contains_key(other) == engines.contains_key(other),
        engines.remove(touched)[other] == engines[other],
{
}

} // verus!
