//! The options under which a test program runs.

use vstd::prelude::*;

verus! {

/// The options provided when a WASI module is executed.
#[derive(Debug, Clone, PartialEq, Eq)]
pub struct WasiOptions {
    /// Mapped pre-opened directories, each an alias and the real directory.
    pub mapdir: Vec<(String, String)>,
    /// Environment variables, each a name and a value.
    pub env: Vec<(String, String)>,
    /// Program arguments.
    pub args: Vec<String>,
    /// Pre-opened directories.
    pub dir: Vec<String>,
    /// Aliases of the temporary directories to create.
    pub tempdir: Vec<String>,
}

/// What a `WasiOptions` holds, as sequences of characters.
pub struct WasiOptionsView {
    pub mapdir: Seq<(Seq<char>, Seq<char>)>,
    pub env: Seq<(Seq<char>, Seq<char>)>,
    pub args: Seq<Seq<char>>,
    pub dir: Seq<Seq<char>>,
    pub tempdir: Seq<Seq<char>>,
}

impl WasiOptionsView {
    /// The options with every list empty.
    pub open spec fn empty() -> WasiOptionsView {
        WasiOptionsView {
            mapdir: Seq::empty(),
            env: Seq::empty(),
            args: Seq::empty(),
            dir: Seq::empty(),
            tempdir: Seq::empty(),
        }
    }

    /// Whether every list is empty.
    pub open spec fn is_empty(self) -> bool {
        &&& self.mapdir.len() == 0
        &&& self.env.len() == 0
        &&& self.args.len() == 0
        &&& self.dir.len() == 0
        &&& self.tempdir.len() == 0
    }

    /// The options after one more directive.
    pub open spec fn with(self, d: DirectiveView) -> WasiOptionsView {
        match d {
            DirectiveView::MapDir(alias, target) => WasiOptionsView {
                mapdir: self.mapdir.push((alias, target)),
                ..self
            },
            DirectiveView::Env(name, value) => WasiOptionsView {
                env: self.env.push((name, value)),
                ..self
            },
            DirectiveView::Dir(path) => WasiOptionsView { dir: self.dir.push(path), ..self },
            DirectiveView::Arg(arg) => WasiOptionsView { args: self.args.push(arg), ..self },
            DirectiveView::TempDir(alias) => WasiOptionsView {
                tempdir: self.tempdir.push(alias),
                ..self
            },
        }
    }
}

impl View for WasiOptions {
    type V = WasiOptionsView;

    open spec fn view(&self) -> WasiOptionsView {
        WasiOptionsView {
            mapdir: self.mapdir.deep_view(),
            env: self.env.deep_view(),
            args: self.args.deep_view(),
            dir: self.dir.deep_view(),
            tempdir: self.tempdir.deep_view(),
        }
    }
}

impl Default for WasiOptions {
    fn default() -> (r: Self)
        ensures
            r@ == WasiOptionsView::empty(),
    {
        let r = WasiOptions {
            mapdir: Vec::new(),
            env: Vec::new(),
            args: Vec::new(),
            dir: Vec::new(),
            tempdir: Vec::new(),
        };
        assert(r.mapdir.deep_view() =~= Seq::empty());
        assert(r.env.deep_view() =~= Seq::empty());
        assert(r.args.deep_view() =~= Seq::empty());
        assert(r.dir.deep_view() =~= Seq::empty());
        assert(r.tempdir.deep_view() =~= Seq::empty());
        r
    }
}

/// One setting that a line of a header comment asks for.
#[derive(Debug, Clone, PartialEq, Eq)]
pub enum Directive {
    /// `mapdir: alias:real`
    MapDir(String, String),
    /// `env: NAME=value`
    Env(String, String),
    /// `dir: path`
    Dir(String),
    /// `arg: value`
    Arg(String),
    /// `tempdir: alias`
    TempDir(String),
}

/// A `Directive`, as sequences of characters.
pub enum DirectiveView {
    MapDir(Seq<char>, Seq<char>),
    Env(Seq<char>, Seq<char>),
    Dir(Seq<char>),
    Arg(Seq<char>),
    TempDir(Seq<char>),
}

impl View for Directive {
    type V = DirectiveView;

    open spec fn view(&self) -> DirectiveView {
        match self {
            Directive::MapDir(alias, target) => DirectiveView::MapDir(alias@, target@),
            Directive::Env(name, value) => DirectiveView::Env(name@, value@),
            Directive::Dir(path) => DirectiveView::Dir(path@),
            Directive::Arg(arg) => DirectiveView::Arg(arg@),
            Directive::TempDir(alias) => DirectiveView::TempDir(alias@),
        }
    }
}

/// Pushing onto a list, seen through the deep view.
pub proof fn lemma_push_deep_view<T: DeepView>(before: Vec<T>, after: Vec<T>, x: T)
    requires
        after@ == before@.push(x),
    ensures
        after.deep_view() == before.deep_view().push(x.deep_view()),
{
    assert(after.deep_view() =~= before.deep_view().push(x.deep_view()));
}

impl WasiOptions {
    /// Records one directive at the end of the list that it belongs to.
    pub fn apply(&mut self, d: Directive)
        ensures
            final(self)@ == old(self)@.with(d@),
    {
        let ghost before = *self;
        match d {
            Directive::MapDir(alias, target) => {
                self.mapdir.push((alias, target));
                proof {
                    lemma_push_deep_view(before.mapdir, self.mapdir, (alias, target));
                }
            },
            Directive::Env(name, value) => {
                self.env.push((name, value));
                proof {
                    lemma_push_deep_view(before.env, self.env, (name, value));
                }
            },
            Directive::Dir(path) => {
                self.dir.push(path);
                proof {
                    lemma_push_deep_view(before.dir, self.dir, path);
                }
            },
            Directive::Arg(arg) => {
                self.args.push(arg);
                proof {
                    lemma_push_deep_view(before.args, self.args, arg);
                }
            },
            Directive::TempDir(alias) => {
                self.tempdir.push(alias);
                proof {
                    lemma_push_deep_view(before.tempdir, self.tempdir, alias);
                }
            },
        }
    }
}

} // verus!
