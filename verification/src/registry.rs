use vstd::prelude::*;
use crate::capability::Function;
use crate::errors::{InvocationError, LoadError};
use crate::handshake::{PluginDeclaration, validate_declaration};
use crate::registrar::PluginRegistrar;
use crate::table::{
    lemma_table_concat, lemma_table_contains, lemma_table_last, lemma_table_value_from, table_of,
};
use vstd::string::StringExecFns;

verus! {

/// What a module's registration entry point does. It is invoked exactly
/// once, synchronously, right after the module's declaration is
/// validated, with exclusive access to a fresh registrar; the module
/// reports zero or more named callables through it and returns.
///
/// `pass` is the name-indexed set of bindings one registration pass
/// produces, and `register` promises to add exactly that set to the
/// registrar it is given, later bindings preferred. A verified module
/// proves this of its entry point (one that registers nothing may keep
/// the default empty pass); for a foreign module the promise is the ABI
/// contract the host extends to plugin code.
pub trait PluginModule<F> {
    open spec fn pass(&self) -> Map<Seq<char>, F> {
        Map::empty()
    }

    fn register(&self, registrar: &mut PluginRegistrar<F>)
        ensures
            final(registrar)@ == old(registrar)@.union_prefer_right(self.pass()),
    ;
}

/// The outcome of opening a module and copying its handshake declaration
/// out, as the platform's dynamic-linking facility reports it.
pub enum ModuleOpening<M, L> {
    /// The module could not be found or opened.
    Failed { msg: String },
    /// The module is open but exposes no handshake declaration.
    NoDeclaration,
    /// The module is open and its declaration was copied out: the
    /// declaration's identifier fields, its registration entry point, and
    /// the handle that keeps the module mapped.
    Opened { declaration: PluginDeclaration, entry: M, handle: L },
}

/// One registry-resident function entry: a callable paired with a claim
/// on its owning module, here the module's index in the registry's
/// keep-alive list. The claim stays good for the registry's whole life,
/// because that list only ever grows.
#[verifier::ext_equal]
pub struct FunctionProxy<F> {
    /// The callable the module registered.
    pub function: F,
    /// The index of the owning module in the registry's keep-alive list.
    pub owner: usize,
}

impl<F: Function> Function for FunctionProxy<F> {
    /// Delegates unchanged to the wrapped callable.
    fn call(&self, args: &[i64]) -> Result<i64, InvocationError> {
        self.function.call(args)
    }

    /// Delegates unchanged to the wrapped callable.
    fn help(&self) -> Option<&str> {
        self.function.help()
    }
}

/// The bindings of one registration pass wrapped into function entries,
/// all owned by the module at index `owner`.
spec fn proxied<F>(s: Seq<(String, F)>, owner: usize) -> Seq<(String, FunctionProxy<F>)> {
    s.map_values(|e: (String, F)| (e.0, FunctionProxy { function: e.1, owner }))
}

/// The bindings of a registration pass as registry entries, every one
/// owned by the module at index `owner`.
pub open spec fn pass_entries<F>(m: Map<Seq<char>, F>, owner: usize) -> Map<
    Seq<char>,
    FunctionProxy<F>,
> {
    m.map_values(|f: F| FunctionProxy { function: f, owner })
}

/// The message reported for a name that was never registered: the name,
/// quoted, followed by a note that it was not found.
pub open spec fn not_found_msg(name: Seq<char>) -> Seq<char> {
    "\""@ + name + "\" not found"@
}

proof fn lemma_table_proxied<F>(s: Seq<(String, F)>, owner: usize)
    ensures
        table_of(proxied(s, owner)) == pass_entries(table_of(s), owner),
    decreases s.len(),
{
    if s.len() == 0 {
        assert(table_of(proxied(s, owner)) =~= pass_entries(table_of(s), owner));
    } else {
        lemma_table_proxied(s.drop_last(), owner);
        let p = proxied(s, owner);
        assert(p.drop_last() =~= proxied(s.drop_last(), owner));
        assert(p.last() == (s.last().0, FunctionProxy { function: s.last().1, owner }));
        assert(pass_entries(table_of(s.drop_last()), owner).insert(
            s.last().0@,
            (FunctionProxy { function: s.last().1, owner }),
        ) =~= pass_entries(table_of(s.drop_last()).insert(s.last().0@, s.last().1), owner));
    }
}

/// The loader and registry: owns the keep-alive list of loaded modules
/// and the name-indexed table of every function entry they registered.
/// Constructed explicitly and threaded through `load` and `call`; several
/// independent registries may live in one process.
pub struct ExternalFunctions<F, L> {
    functions: Vec<(String, FunctionProxy<F>)>,
    libraries: Vec<L>,
}

impl<F, L> ExternalFunctions<F, L> {
    /// Every entry's owner index points into the keep-alive list: a
    /// registered callable can never outlive its module's mapping.
    #[verifier::type_invariant]
    spec fn wf(&self) -> bool {
        forall|j: int|
            0 <= j < self.functions@.len() ==> (#[trigger] self.functions@[j]).1.owner
                < self.libraries@.len()
    }

    /// The name-indexed table of function entries.
    pub closed spec fn table(&self) -> Map<Seq<char>, FunctionProxy<F>> {
        table_of(self.functions@)
    }

    /// The keep-alive list of module handles, in load order. A handle is
    /// never dropped before the registry itself.
    pub closed spec fn modules(&self) -> Seq<L> {
        self.libraries@
    }

    /// An empty registry: no functions, no modules kept alive.
    pub fn new() -> (r: Self)
        ensures
            r.table() == Map::<Seq<char>, FunctionProxy<F>>::empty(),
            r.modules() == Seq::<L>::empty(),
    {
        ExternalFunctions { functions: Vec::new(), libraries: Vec::new() }
    }

    /// The number of modules kept alive.
    pub fn module_count(&self) -> (n: usize)
        ensures
            n == self.modules().len(),
    {
        self.libraries.len()
    }

    /// Exact-match lookup of a registered entry. The entry returned is
    /// the one the table maps the name to, and its owner index is a valid
    /// position in the keep-alive list.
    pub fn get(&self, function: &str) -> (r: Option<&FunctionProxy<F>>)
        ensures
            match r {
                Some(p) => self.table().contains_key(function@) && *p == self.table()[function@]
                    && (p.owner as int) < self.modules().len(),
                None => !self.table().contains_key(function@),
            },
    {
        let name = function.to_owned();
        let n = self.functions.len();
        let mut i = n;
        while i > 0
            invariant
                i <= n,
                n == self.functions@.len(),
                name@ == function@,
                forall|j: int| i <= j < n ==> (#[trigger] self.functions@[j]).0@ != function@,
            decreases i,
        {
            i = i - 1;
            if self.functions[i].0 == name {
                proof {
                    use_type_invariant(self);
                    lemma_table_last(self.functions@, function@, i as int);
                    lemma_table_value_from(self.functions@, function@);
                }
                return Some(&self.functions[i].1);
            }
        }
        proof {
            lemma_table_contains(self.functions@, function@);
        }
        None
    }

    /// Loads one module, given the outcome of opening it.
    ///
    /// On any failure — the module not openable, its declaration missing,
    /// or a version mismatch — the registry is left unchanged: no partial
    /// entries are committed and the handle is not retained. On success
    /// the module's entry point is invoked once with a fresh registrar,
    /// and the table becomes the old table overwritten with exactly the
    /// pass the entry point registered — nothing else changes, and a name
    /// the pass did not register keeps its old entry. The handle is
    /// appended to the keep-alive list even if the module registered
    /// nothing.
    pub fn load<M: PluginModule<F>>(
        &mut self,
        host: &PluginDeclaration,
        opening: ModuleOpening<M, L>,
    ) -> (r: Result<(), LoadError>)
        ensures
            r is Err ==> final(self).table() == old(self).table() && final(self).modules() == old(
                self,
            ).modules(),
            match opening {
                ModuleOpening::Failed { msg } => r == Err::<(), LoadError>(LoadError::Io { msg }),
                ModuleOpening::NoDeclaration => r == Err::<(), LoadError>(LoadError::MissingDeclaration),
                ModuleOpening::Opened { declaration, entry, handle } => {
                    &&& !declaration.matches_host(host) ==> match r {
                        Err(LoadError::VersionMismatch { expected, found }) => {
                            &&& expected.rustc_version@ == host.rustc_version@
                            &&& expected.core_version@ == host.core_version@
                            &&& found.rustc_version@ == declaration.rustc_version@
                            &&& found.core_version@ == declaration.core_version@
                        },
                        _ => false,
                    }
                    &&& declaration.matches_host(host) ==> {
                        &&& r is Ok
                        &&& final(self).modules() == old(self).modules().push(handle)
                        &&& final(self).table() == old(self).table().union_prefer_right(
                            pass_entries(entry.pass(), old(self).modules().len() as usize),
                        )
                    }
                },
            },
    {
        proof {
            use_type_invariant(&*self);
        }
        match opening {
            ModuleOpening::Failed { msg } => Err(LoadError::Io { msg }),
            ModuleOpening::NoDeclaration => Err(LoadError::MissingDeclaration),
            ModuleOpening::Opened { declaration, entry, handle } => {
                match validate_declaration(host, &declaration) {
                    Err(e) => Err(e),
                    Ok(()) => {
                        let ghost orig_funcs = self.functions@;
                        let ghost orig_libs = self.libraries@;
                        let mut funcs: Vec<(String, FunctionProxy<F>)> = Vec::new();
                        let mut libs: Vec<L> = Vec::new();
                        std::mem::swap(&mut funcs, &mut self.functions);
                        std::mem::swap(&mut libs, &mut self.libraries);
                        let owner = libs.len();
                        libs.push(handle);

                        let mut registrar = PluginRegistrar::<F>::new();
                        entry.register(&mut registrar);
                        proof {
                            assert(registrar@ =~= entry.pass());
                        }
                        let mut entries = registrar.into_entries();
                        let ghost orig_entries = entries@;
                        proof {
                            assert(orig_entries.skip(0) =~= orig_entries);
                            assert(proxied(orig_entries.take(0), owner) =~= Seq::<
                                (String, FunctionProxy<F>),
                            >::empty());
                            assert(orig_funcs + proxied(orig_entries.take(0), owner)
                                =~= orig_funcs);
                        }
                        while entries.len() > 0
                            invariant
                                entries@.len() <= orig_entries.len(),
                                entries@ == orig_entries.skip(
                                    orig_entries.len() - entries@.len(),
                                ),
                                funcs@ == orig_funcs + proxied(
                                    orig_entries.take(orig_entries.len() - entries@.len()),
                                    owner,
                                ),
                            decreases entries@.len(),
                        {
                            let ghost done = orig_entries.len() - entries@.len();
                            let ghost pre_entries = entries@;
                            let (name, f) = entries.remove(0);
                            funcs.push((name, FunctionProxy { function: f, owner }));
                            proof {
                                assert(pre_entries[0] == orig_entries[done]);
                                assert(pre_entries.remove(0) =~= orig_entries.skip(done + 1));
                                assert(proxied(orig_entries.take(done + 1), owner) =~= proxied(
                                    orig_entries.take(done),
                                    owner,
                                ).push(
                                    (
                                        orig_entries[done].0,
                                        FunctionProxy { function: orig_entries[done].1, owner },
                                    ),
                                ));
                                assert(funcs@ =~= orig_funcs + proxied(
                                    orig_entries.take(done + 1),
                                    owner,
                                ));
                            }
                        }
                        proof {
                            assert(orig_entries.take(orig_entries.len() as int) =~= orig_entries);
                        }
                        self.libraries = libs;
                        proof {
                            assert forall|j: int| 0 <= j < funcs@.len() implies (#[trigger] funcs@[j]).1.owner
                                < self.libraries@.len() by {
                                if j >= orig_funcs.len() {
                                    assert(funcs@[j] == proxied(orig_entries, owner)[j
                                        - orig_funcs.len()]);
                                }
                            }
                        }
                        self.functions = funcs;
                        proof {
                            lemma_table_concat(orig_funcs, proxied(orig_entries, owner));
                            lemma_table_proxied(orig_entries, owner);
                            assert(self.table() == table_of(orig_funcs).union_prefer_right(
                                pass_entries(entry.pass(), owner),
                            ));
                        }
                        Ok(())
                    },
                }
            },
        }
    }
}

impl<F: Function, L> ExternalFunctions<F, L> {
    /// Exact-match dispatch by name. A registered name is delegated to
    /// its entry's callable with the arguments unchanged; the callable
    /// alone decides the outcome, and the framework performs no argument
    /// validation of its own. A name never registered is reported back,
    /// quoted in the error's message, and the registry is unaffected.
    pub fn call(&self, function: &str, args: &[i64]) -> (r: Result<i64, InvocationError>)
        ensures
            !self.table().contains_key(function@) ==> match r {
                Err(InvocationError::Other { msg }) => msg@ == not_found_msg(function@),
                _ => false,
            },
    {
        match self.get(function) {
            Some(p) => p.call(args),
            None => {
                let mut msg = String::from_str("\"");
                msg.append(function);
                msg.append("\" not found");
                Err(InvocationError::Other { msg })
            },
        }
    }
}

} // verus!
