//! One logic engine: the machine that evaluates, and the modules loaded
//! into it.
use crate::error::{ServiceError, ServiceErrorView};
use crate::named::{
    as_map, distinct_names, has_name, index_of_name, lemma_index_of_name, lemma_map_values_names,
    lemma_map_values_with_entry, lemma_with_entry, map_values, with_entry, NameMap,
};
use crate::text::{join, joined, texts};
use vstd::prelude::*;

verus! {

/// An engine of its own: the machine `M` that compiles and evaluates for it,
/// and its knowledge base, the source of each module under the module's
/// name, in the order in which the names first came.
#[derive(Debug)]
pub struct LogicEngine<M> {
    machine: M,
    modules: NameMap<String>,
}

/// The mathematical value of a [`LogicEngine`].
pub ghost struct EngineView<M> {
    pub machine: M,
    pub modules: Seq<(Seq<char>, Seq<char>)>,
}

impl<M> View for LogicEngine<M> {
    type V = EngineView<M>;

    closed spec fn view(&self) -> EngineView<M> {
        EngineView {
            machine: self.machine,
            modules: map_values(self.modules@, |source: String| source@),
        }
    }
}

/// The source that a module's lines make: the lines in order, a line feed
/// between neighbours.
pub open spec fn program_text(lines: Seq<String>) -> Seq<char> {
    joined(texts(lines), "\n"@)
}

/// Puts the lines of a module together into its source.
pub fn program_source(program_lines: &Vec<String>) -> (program: String)
    ensures
        program@ == program_text(program_lines@),
{
    join(program_lines, "\n")
}

impl<M> LogicEngine<M> {
    /// An engine around `machine`, with no module loaded.
    pub fn new(machine: M) -> (out: Self)
        ensures
            out@ == (EngineView { machine, modules: Seq::empty() }),
    {
        let out = LogicEngine { machine, modules: NameMap::new() };
        assert(out@.modules =~= Seq::empty());
        out
    }

    /// The machine of this engine.
    pub fn machine(&self) -> (machine: &M)
        ensures
            *machine == self@.machine,
    {
        &self.machine
    }

    /// The machine of this engine, for a call that changes it. The modules
    /// stay as they are.
    pub fn machine_mut(&mut self) -> (machine: &mut M)
        ensures
            *machine == old(self)@.machine,
            final(self)@ == (EngineView { machine: *final(machine), modules: old(self)@.modules }),
    {
        &mut self.machine
    }

    /// The number of modules loaded.
    pub fn module_count(&self) -> (n: usize)
        ensures
            n == self@.modules.len(),
            distinct_names(self@.modules),
    {
        let n = self.modules.len();
        proof {
            lemma_map_values_names(self.modules@, |source: String| source@, Seq::empty());
        }
        n
    }

    /// The name of the module at place `i`.
    pub fn module_name(&self, i: usize) -> (name: &String)
        requires
            i < self@.modules.len(),
        ensures
            name@ == self@.modules[i as int].0,
    {
        self.modules.name_at(i)
    }

    /// The source of the module at place `i`.
    pub fn module_source(&self, i: usize) -> (source: &String)
        requires
            i < self@.modules.len(),
        ensures
            source@ == self@.modules[i as int].1,
    {
        self.modules.value_at(i)
    }

    /// The source loaded under `name`.
    pub fn source_of(&self, name: &str) -> (found: Option<&String>)
        ensures
            found is Some <==> has_name(self@.modules, name@),
            found matches Some(source) ==> source@ == self@.modules[index_of_name(
                self@.modules,
                name@,
            )].1,
    {
        let found = self.modules.get(name);
        proof {
            lemma_map_values_names(self.modules@, |source: String| source@, name@);
        }
        found
    }

    /// Takes note of what the machine said to the source `program` of the
    /// module `module_name`. Where it compiled, the module is installed: in
    /// the place of the module that went by that name, or behind the last
    /// one. Where it did not, the call fails with the diagnostic and the
    /// knowledge base stays as it was.
    pub fn load_module(
        &mut self,
        module_name: String,
        program: String,
        compiled: Result<(), String>,
    ) -> (loaded: Result<(), ServiceError>)
        ensures
            distinct_names(old(self)@.modules),
            distinct_names(final(self)@.modules),
            final(self)@.machine == old(self)@.machine,
            compiled is Ok ==> loaded is Ok && final(self)@.modules == with_entry(
                old(self)@.modules,
                module_name@,
                program@,
            ),
            compiled is Err ==> final(self)@.modules == old(self)@.modules,
            compiled matches Err(diagnostic) ==> loaded matches Err(error) && error@
                == ServiceErrorView::CompileError(diagnostic@),
    {
        let ghost before = self.modules@;
        let ghost source = program;
        // Asking for the length tells that the names are distinct.
        let _ = self.modules.len();
        proof {
            lemma_map_values_names(before, |source: String| source@, module_name@);
        }
        match compiled {
            Ok(()) => {
                self.modules.insert(module_name, program);
                proof {
                    lemma_map_values_with_entry(
                        before,
                        |source: String| source@,
                        module_name@,
                        source,
                    );
                    lemma_map_values_names(self.modules@, |source: String| source@, module_name@);
                }
                Ok(())
            },
            Err(diagnostic) => Err(ServiceError::CompileError(diagnostic)),
        }
    }
}

/// Loading a module again under its name replaces it: after two loads under
/// one name the knowledge base is what the second load alone would have
/// made it, and what it holds under that name is the second source.
pub proof fn lemma_reload_replaces(
    modules: Seq<(Seq<char>, Seq<char>)>,
    name: Seq<char>,
    first: Seq<char>,
    second: Seq<char>,
)
    requires
        distinct_names(modules),
    ensures
        with_entry(with_entry(modules, name, first), name, second) == with_entry(
            modules,
            name,
            second,
        ),
        as_map(with_entry(with_entry(modules, name, first), name, second)).contains_key(name),
        as_map(with_entry(with_entry(modules, name, first), name, second))[name] == second,
{
    let once = with_entry(modules, name, first);
    let place = if has_name(modules, name) {
        index_of_name(modules, name)
    } else {
        modules.len() as int
    };
    lemma_with_entry(modules, name, first);
    assert(once[place].0 == name);
    lemma_index_of_name(once, place);
    assert(with_entry(once, name, second) =~= with_entry(modules, name, second));
    lemma_with_entry(once, name, second);
}

} // verus!
