//! Generated binding files: an ordered collection of statements together with
//! the imports of the library the file belongs to.
//!
//! A [`File`] is created against a [`Context`] that maps library names to
//! their configuration; it starts with the configured imports and no
//! statements, collects statements one by one, can be compared
//! statement-by-statement against another file, and renders to the text of
//! the generated source file.

use vstd::pervasive::unreached;
use vstd::prelude::*;
use vstd::string::StringExecFns;

verus! {

/// What a context is, to specifications: library names paired with the
/// imports configured for them.
pub type ContextView = Seq<(Seq<char>, Seq<Seq<char>>)>;

/// One statement of a generated binding file, kept as its rendered text.
pub struct Stmt {
    text: String,
}

impl View for Stmt {
    type V = Seq<char>;

    closed spec fn view(&self) -> Seq<char> {
        self.text@
    }
}

impl Stmt {
    pub fn new(text: String) -> (s: Stmt)
        ensures
            s@ == text@,
    {
        Stmt { text }
    }

    /// The statement's rendered text.
    pub fn text(&self) -> (t: &str)
        ensures
            t@ == self@,
    {
        self.text.as_str()
    }

    /// Two statements agree exactly when their text does.
    pub fn compare(&self, other: &Stmt) -> (r: bool)
        ensures
            r == (self@ == other@),
    {
        self.text == other.text
    }
}

/// The configuration of one library: the imports every generated file of that
/// library starts with.
pub struct Library {
    pub imports: Vec<String>,
}

impl View for Library {
    type V = Seq<Seq<char>>;

    closed spec fn view(&self) -> Seq<Seq<char>> {
        self.imports@.map_values(|s: String| s@)
    }
}

impl Library {
    pub fn new(imports: Vec<String>) -> (l: Library)
        ensures
            l@ == imports@.map_values(|s: String| s@),
    {
        Library { imports }
    }
}

/// There is at most one entry per library name.
pub open spec fn distinct_names(ctx: ContextView) -> bool {
    forall|i: int, j: int| 0 <= i < j < ctx.len() ==> (#[trigger] ctx[i]).0 != (#[trigger] ctx[j]).0
}

/// Some entry carries this library name.
pub open spec fn has_library(ctx: ContextView, name: Seq<char>) -> bool {
    exists|i: int| 0 <= i < ctx.len() && (#[trigger] ctx[i]).0 == name
}

/// The imports configured for the library of this name.
pub open spec fn imports_of(ctx: ContextView, name: Seq<char>) -> Seq<Seq<char>> {
    let i = choose|i: int| 0 <= i < ctx.len() && (#[trigger] ctx[i]).0 == name;
    ctx[i].1
}

/// The configuration files are generated against: each known library's name
/// and imports, names unique.
pub struct Context {
    entries: Vec<(String, Library)>,
}

impl View for Context {
    type V = ContextView;

    closed spec fn view(&self) -> ContextView {
        self.entries@.map_values(|e: (String, Library)| (e.0@, e.1@))
    }
}

impl Context {
    /// A context that knows no libraries.
    pub fn new() -> (c: Context)
        ensures
            c@ == Seq::<(Seq<char>, Seq<Seq<char>>)>::empty(),
            distinct_names(c@),
    {
        let c = Context { entries: Vec::new() };
        proof {
            assert(c@ =~= Seq::<(Seq<char>, Seq<Seq<char>>)>::empty());
        }
        c
    }

    /// Record one more library.  Its name must be new.
    pub fn add_library(&mut self, name: String, library: Library)
        requires
            distinct_names(old(self)@),
            !has_library(old(self)@, name@),
        ensures
            final(self)@ == old(self)@.push((name@, library@)),
            distinct_names(final(self)@),
            has_library(final(self)@, name@),
    {
        let ghost pre = self@;
        let ghost namev = name@;
        let ghost libv = library@;
        self.entries.push((name, library));
        proof {
            assert(self@ =~= pre.push((namev, libv)));
            assert forall|i: int, j: int|
                0 <= i < j < self@.len() implies (#[trigger] self@[i]).0 != (#[trigger] self@[j]).0 by {
                if j == self@.len() - 1 {
                    assert(!(0 <= i < pre.len() && pre[i].0 == namev));
                }
            }
            assert(self@[self@.len() - 1].0 == namev);
        }
    }
}

/// What a file is, to specifications: the imports it was created with and the
/// text of each statement added so far, in order.
pub ghost struct FileView {
    pub imports: Seq<Seq<char>>,
    pub stmts: Seq<Seq<char>>,
}

/// A generated binding file under construction.
pub struct File {
    imports: Vec<String>,
    stmts: Vec<Stmt>,
}

impl View for File {
    type V = FileView;

    closed spec fn view(&self) -> FileView {
        FileView {
            imports: self.imports@.map_values(|s: String| s@),
            stmts: self.stmts@.map_values(|s: Stmt| s@),
        }
    }
}

/// The rendered import lines, one per import, in order.
pub open spec fn rendered_imports(imports: Seq<Seq<char>>) -> Seq<char>
    decreases imports.len(),
{
    if imports.len() == 0 {
        Seq::empty()
    } else {
        rendered_imports(imports.drop_last()) + "use crate::"@ + imports.last() + "::*;\n"@
    }
}

/// The rendered statements, one line each, in order.
pub open spec fn rendered_stmts(stmts: Seq<Seq<char>>) -> Seq<char>
    decreases stmts.len(),
{
    if stmts.len() == 0 {
        Seq::empty()
    } else {
        rendered_stmts(stmts.drop_last()) + stmts.last() + "\n"@
    }
}

/// The whole rendered file: the shared import, the library's own imports, a
/// blank line, then the statements.
pub open spec fn spec_render(f: FileView) -> Seq<char> {
    "use crate::common::*;\n"@ + rendered_imports(f.imports) + "\n"@ + rendered_stmts(f.stmts)
}

impl File {
    /// Start a file for the named library: its configured imports, no
    /// statements yet.  The library must be known to the context.
    pub fn new(library_name: &str, context: &Context) -> (f: File)
        requires
            distinct_names(context@),
            has_library(context@, library_name@),
        ensures
            f@.imports == imports_of(context@, library_name@),
            f@.stmts == Seq::<Seq<char>>::empty(),
    {
        let needle: String = library_name.to_owned();
        let n = context.entries.len();
        let mut i: usize = 0;
        while i < n
            invariant
                i <= n,
                n == context.entries@.len(),
                needle@ == library_name@,
                distinct_names(context@),
                has_library(context@, library_name@),
                forall|k: int| 0 <= k < i ==> (#[trigger] context@[k]).0 != library_name@,
            decreases n - i,
        {
            if context.entries[i].0 == needle {
                let imports = clone_strings(&context.entries[i].1.imports);
                let f = File { imports, stmts: Vec::new() };
                proof {
                    let ghost j = choose|j: int|
                        0 <= j < context@.len() && (#[trigger] context@[j]).0 == library_name@;
                    if j != i as int {
                        assert(context@[j].0 != context@[i as int].0);
                    }
                    assert(f@.imports =~= context@[i as int].1);
                    assert(f@.stmts =~= Seq::<Seq<char>>::empty());
                }
                return f;
            }
            i = i + 1;
        }
        proof {
            let ghost j = choose|j: int|
                0 <= j < context@.len() && (#[trigger] context@[j]).0 == library_name@;
            assert(false);
        }
        unreached()
    }

    /// Append one statement at the end.
    pub fn add_stmt(&mut self, stmt: Stmt)
        ensures
            final(self)@.imports == old(self)@.imports,
            final(self)@.stmts == old(self)@.stmts.push(stmt@),
    {
        let ghost pre = self@;
        let ghost stmtv = stmt@;
        self.stmts.push(stmt);
        proof {
            assert(self@.imports =~= pre.imports);
            assert(self@.stmts =~= pre.stmts.push(stmtv));
        }
    }

    /// Whether the two files hold the same statements in the same order.
    pub fn compare(&self, other: &File) -> (r: bool)
        ensures
            r == (self@.stmts == other@.stmts),
    {
        let n = self.stmts.len();
        if n != other.stmts.len() {
            proof {
                assert(self@.stmts.len() != other@.stmts.len());
            }
            return false;
        }
        let mut i: usize = 0;
        while i < n
            invariant
                i <= n,
                n == self.stmts@.len(),
                n == other.stmts@.len(),
                forall|k: int| 0 <= k < i ==> #[trigger] self@.stmts[k] == other@.stmts[k],
            decreases n - i,
        {
            if !self.stmts[i].compare(&other.stmts[i]) {
                proof {
                    assert(self@.stmts[i as int] != other@.stmts[i as int]);
                }
                return false;
            }
            i = i + 1;
        }
        proof {
            assert(self@.stmts =~= other@.stmts);
        }
        true
    }

    /// Render the file: the shared import, this library's imports, a blank
    /// line, then every statement on its own line.
    pub fn render(&self) -> (out: String)
        ensures
            out@ == spec_render(self@),
    {
        let mut out = String::new();
        out.append("use crate::common::*;\n");
        let n = self.imports.len();
        let mut i: usize = 0;
        while i < n
            invariant
                i <= n,
                n == self.imports@.len(),
                out@ == "use crate::common::*;\n"@ + rendered_imports(self@.imports.take(i as int)),
            decreases n - i,
        {
            out.append("use crate::");
            out.append(self.imports[i].as_str());
            out.append("::*;\n");
            i = i + 1;
            proof {
                let t = self@.imports.take(i as int);
                assert(t.drop_last() =~= self@.imports.take(i as int - 1));
                assert(t.last() == self@.imports[i as int - 1]);
                assert(out@ =~= "use crate::common::*;\n"@ + rendered_imports(t));
            }
        }
        proof {
            assert(self@.imports.take(n as int) =~= self@.imports);
        }
        out.append("\n");
        let m = self.stmts.len();
        let mut k: usize = 0;
        while k < m
            invariant
                k <= m,
                m == self.stmts@.len(),
                out@ == "use crate::common::*;\n"@ + rendered_imports(self@.imports) + "\n"@
                    + rendered_stmts(self@.stmts.take(k as int)),
            decreases m - k,
        {
            out.append(self.stmts[k].text());
            out.append("\n");
            k = k + 1;
            proof {
                let t = self@.stmts.take(k as int);
                assert(t.drop_last() =~= self@.stmts.take(k as int - 1));
                assert(t.last() == self@.stmts[k as int - 1]);
                assert(out@ =~= "use crate::common::*;\n"@ + rendered_imports(self@.imports)
                    + "\n"@ + rendered_stmts(t));
            }
        }
        proof {
            assert(self@.stmts.take(m as int) =~= self@.stmts);
        }
        out
    }
}

/// Copy a list of strings, text for text.
fn clone_strings(v: &Vec<String>) -> (r: Vec<String>)
    ensures
        r@.map_values(|s: String| s@) == v@.map_values(|s: String| s@),
{
    let n = v.len();
    let mut r: Vec<String> = Vec::new();
    let mut i: usize = 0;
    while i < n
        invariant
            i <= n,
            n == v@.len(),
            r@.len() == i,
            forall|k: int| 0 <= k < i ==> #[trigger] r@[k] == v@[k],
        decreases n - i,
    {
        r.push(v[i].clone());
        i = i + 1;
    }
    proof {
        assert(r@.map_values(|s: String| s@) =~= v@.map_values(|s: String| s@));
    }
    r
}

} // verus!
