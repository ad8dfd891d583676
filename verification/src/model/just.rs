//! The recipes of a justfile, read from the syntax tree that tree-sitter builds for it.
use super::command::{command_line, command_views, CommandForExec, CommandWithPreview, CommandWithPreviewView};
use super::runner_type::RunnerType;
use crate::model::file_util::{find_file_in_dir, first_named};
use crate::text::{find_last, last_index_of, before_first, contains_chars, contains_seq, copy_range, find_char, to_chars, string_of, words, words_of};
use vstd::prelude::*;

verus! {

#[verifier::external_type_specification]
#[verifier::external_body]
pub struct ExTree(tree_sitter::Tree);

/// Number of named children of the node reached by following `path`, a sequence of named-child
/// indices from the root of the tree that tree-sitter-just builds for `source`.
pub uninterp spec fn just_named_children_count(source: Seq<char>, path: Seq<usize>) -> usize;

/// The kind of the node reached by following `path` of named-child indices, if there is one.
pub uninterp spec fn just_node_kind(source: Seq<char>, path: Seq<usize>) -> Option<Seq<char>>;

/// The text of `source` that the node reached by following `path` spans, if there is one.
pub uninterp spec fn just_node_text(source: Seq<char>, path: Seq<usize>) -> Option<Seq<char>>;

/// The row, counted from 0, at which the node reached by following `path` starts.
pub uninterp spec fn just_node_row(source: Seq<char>, path: Seq<usize>) -> Option<usize>;

/// Number of children, named or not, of the node reached by following `path`.
pub uninterp spec fn just_children_count(source: Seq<char>, path: Seq<usize>) -> usize;

/// The text of the `child`-th child, named or not, of the node reached by following `path`.
pub uninterp spec fn just_child_text(source: Seq<char>, path: Seq<usize>, child: usize) -> Option<
    Seq<char>,
>;

/// A justfile's source together with the syntax tree that tree-sitter-just builds for it. The
/// only way to get one is [`JustSyntax::parse`], so the tree is always that of the source.
pub struct JustSyntax {
    source: String,
    tree: tree_sitter::Tree,
}

impl View for JustSyntax {
    type V = Seq<char>;

    closed spec fn view(&self) -> Seq<char> {
        self.source@
    }
}

impl JustSyntax {
    /// Parses `source` with `tree_sitter::Parser::parse`, after `Parser::set_language` with
    /// `tree_sitter_just::language()`. The grammar has ABI version 14, which `set_language`
    /// accepts (it accepts 13 to 14), and `Parser::parse` gives a tree whenever the parser has a
    /// language and neither a timeout nor a cancellation flag, as here; so a tree always comes
    /// back.
    #[verifier::external_body]
    pub(crate) fn parse(source: String) -> (r: JustSyntax)
        ensures
            r@ == source@,
    {
        let mut parser = tree_sitter::Parser::new();
        parser.set_language(&tree_sitter_just::language()).expect("the grammar's ABI version is supported");
        let tree = parser.parse(&source, None).expect("a parser with a language gives a tree");
        JustSyntax { source, tree }
    }

    /// `Node::named_child_count` of the root node.
    #[verifier::external_body]
    fn item_count(&self) -> (r: usize)
        ensures
            r == just_named_children_count(self@, seq![]),
    {
        self.tree.root_node().named_child_count()
    }

    /// `Node::named_child_count` of the `i`-th named child of the root.
    #[verifier::external_body]
    fn named_children_count(&self, i: usize) -> (r: usize)
        ensures
            r == just_named_children_count(self@, seq![i]),
    {
        match self.tree.root_node().named_child(i) {
            Some(n) => n.named_child_count(),
            None => 0,
        }
    }

    /// `Node::child_count` of the `i`-th named child of the root.
    #[verifier::external_body]
    fn children_count(&self, i: usize) -> (r: usize)
        ensures
            r == just_children_count(self@, seq![i]),
    {
        match self.tree.root_node().named_child(i) {
            Some(n) => n.child_count(),
            None => 0,
        }
    }

    /// `Node::kind` of the `i`-th named child of the root.
    #[verifier::external_body]
    fn item_kind(&self, i: usize) -> (r: Option<String>)
        ensures
            match r {
                Some(k) => just_node_kind(self@, seq![i]) == Some(k@),
                None => just_node_kind(self@, seq![i]) == None::<Seq<char>>,
            },
    {
        match self.tree.root_node().named_child(i) {
            Some(n) => Some(n.kind().to_string()),
            None => None,
        }
    }

    /// `Node::kind` of the `j`-th named child of the `i`-th named child of the root.
    #[verifier::external_body]
    fn member_kind(&self, i: usize, j: usize) -> (r: Option<String>)
        ensures
            match r {
                Some(k) => just_node_kind(self@, seq![i, j]) == Some(k@),
                None => just_node_kind(self@, seq![i, j]) == None::<Seq<char>>,
            },
    {
        match self.tree.root_node().named_child(i) {
            Some(item) => match item.named_child(j) {
                Some(n) => Some(n.kind().to_string()),
                None => None,
            },
            None => None,
        }
    }

    /// The part of the source that `Node::byte_range` of the `j`-th named child of the `i`-th
    /// named child of the root spans.
    #[verifier::external_body]
    fn member_text(&self, i: usize, j: usize) -> (r: Option<String>)
        ensures
            match r {
                Some(t) => just_node_text(self@, seq![i, j]) == Some(t@),
                None => just_node_text(self@, seq![i, j]) == None::<Seq<char>>,
            },
    {
        match self.tree.root_node().named_child(i) {
            Some(item) => match item.named_child(j) {
                Some(n) => self.source.get(n.byte_range()).map(str::to_string),
                None => None,
            },
            None => None,
        }
    }

    /// `Node::start_position().row` of the `j`-th named child of the `i`-th named child of the
    /// root.
    #[verifier::external_body]
    fn member_row(&self, i: usize, j: usize) -> (r: Option<usize>)
        ensures
            r == just_node_row(self@, seq![i, j]),
    {
        match self.tree.root_node().named_child(i) {
            Some(item) => match item.named_child(j) {
                Some(n) => Some(n.start_position().row),
                None => None,
            },
            None => None,
        }
    }

    /// The part of the source that `Node::byte_range` of the `j`-th child (`Node::child`),
    /// named or not, of the `i`-th named child of the root spans.
    #[verifier::external_body]
    fn child_text(&self, i: usize, j: usize) -> (r: Option<String>)
        ensures
            match r {
                Some(t) => just_child_text(self@, seq![i], j) == Some(t@),
                None => just_child_text(self@, seq![i], j) == None::<Seq<char>>,
            },
    {
        match self.tree.root_node().named_child(i) {
            Some(item) => match item.child(j) {
                Some(n) => self.source.get(n.byte_range()).map(str::to_string),
                None => None,
            },
            None => None,
        }
    }
}

/// A named child of a top-level item of a justfile: its kind, its text and the row it starts at.
#[derive(Debug, PartialEq)]
pub struct SyntaxNode {
    pub kind: Option<String>,
    pub text: Option<String>,
    pub row: Option<usize>,
}

/// The value of a [`SyntaxNode`].
pub struct SyntaxNodeView {
    pub kind: Option<Seq<char>>,
    pub text: Option<Seq<char>>,
    pub row: Option<usize>,
}

/// A top-level item of a justfile (a recipe, a `mod` directive, a setting, ...): its kind, the
/// text of each of its children, and its named children.
#[derive(Debug, PartialEq)]
pub struct SyntaxItem {
    pub kind: Option<String>,
    pub child_texts: Vec<Option<String>>,
    pub members: Vec<SyntaxNode>,
}

/// The value of a [`SyntaxItem`].
pub struct SyntaxItemView {
    pub kind: Option<Seq<char>>,
    pub child_texts: Seq<Option<Seq<char>>>,
    pub members: Seq<SyntaxNodeView>,
}

pub open spec fn opt_view(o: Option<String>) -> Option<Seq<char>> {
    match o {
        Some(s) => Some(s@),
        None => None,
    }
}

impl View for SyntaxNode {
    type V = SyntaxNodeView;

    open spec fn view(&self) -> SyntaxNodeView {
        SyntaxNodeView { kind: opt_view(self.kind), text: opt_view(self.text), row: self.row }
    }
}

impl View for SyntaxItem {
    type V = SyntaxItemView;

    open spec fn view(&self) -> SyntaxItemView {
        SyntaxItemView {
            kind: opt_view(self.kind),
            child_texts: Seq::new(self.child_texts@.len(), |j: int| opt_view(self.child_texts@[j])),
            members: Seq::new(self.members@.len(), |j: int| self.members@[j]@),
        }
    }
}

pub open spec fn item_views(s: Seq<SyntaxItem>) -> Seq<SyntaxItemView> {
    Seq::new(s.len(), |i: int| s[i]@)
}

/// The `i`-th top-level item of the tree that tree-sitter-just builds for `source`.
pub open spec fn syntax_item(source: Seq<char>, i: usize) -> SyntaxItemView {
    SyntaxItemView {
        kind: just_node_kind(source, seq![i]),
        child_texts: Seq::new(
            just_children_count(source, seq![i]) as nat,
            |j: int| just_child_text(source, seq![i], j as usize),
        ),
        members: Seq::new(
            just_named_children_count(source, seq![i]) as nat,
            |j: int|
                SyntaxNodeView {
                    kind: just_node_kind(source, seq![i, j as usize]),
                    text: just_node_text(source, seq![i, j as usize]),
                    row: just_node_row(source, seq![i, j as usize]),
                },
        ),
    }
}

/// The top-level items of the tree that tree-sitter-just builds for `source`, in order.
pub open spec fn syntax_items(source: Seq<char>) -> Seq<SyntaxItemView> {
    Seq::new(just_named_children_count(source, seq![]) as nat, |i: int| syntax_item(source, i as usize))
}

pub open spec fn kw_recipe() -> Seq<char> {
    seq!['r', 'e', 'c', 'i', 'p', 'e']
}

pub open spec fn kw_recipe_header() -> Seq<char> {
    seq!['r', 'e', 'c', 'i', 'p', 'e', '_', 'h', 'e', 'a', 'd', 'e', 'r']
}

pub open spec fn kw_private() -> Seq<char> {
    seq!['p', 'r', 'i', 'v', 'a', 't', 'e']
}

/// Whether the text of some child of the recipe (its attributes, its header, its body, ...)
/// contains `private`; such a recipe is not listed. A `[private]` attribute makes it so, and so
/// does the word anywhere else in the recipe, a body line included.
pub open spec fn is_private(item: SyntaxItemView) -> bool {
    exists|j: int|
        0 <= j < item.child_texts.len() && (#[trigger] item.child_texts[j] matches Some(t)
            && contains_seq(t, kw_private()))
}

/// The index of the first named child that is a recipe header, looking from `from` on.
pub open spec fn header_index(members: Seq<SyntaxNodeView>, from: int) -> Option<int>
    decreases members.len() - from,
{
    if from < 0 || from >= members.len() {
        None
    } else if members[from].kind == Some(kw_recipe_header()) {
        Some(from)
    } else {
        header_index(members, from + 1)
    }
}

/// The recipe name in a recipe header such as `run arg:`: the first word before the first
/// `:`, or nothing.
pub open spec fn recipe_name(header: Seq<char>) -> Seq<char> {
    let ws = words_of(before_first(header, ':'));
    if ws.len() > 0 {
        ws[0]
    } else {
        seq![]
    }
}

/// The line number, counted from 1, of a row counted from 0.
pub open spec fn line_of_row(row: usize) -> u32 {
    if row < u32::MAX {
        (row + 1) as u32
    } else {
        u32::MAX
    }
}

/// The command that an item of a justfile at `path` defines: a recipe that is not private and
/// has a header gives `just {name}`, pointing at the header's line.
pub open spec fn item_command(path: Seq<char>, item: SyntaxItemView) -> Option<
    CommandWithPreviewView,
> {
    if item.kind != Some(kw_recipe()) || is_private(item) {
        None
    } else {
        match header_index(item.members, 0) {
            Some(j) => match (item.members[j].text, item.members[j].row) {
                (Some(t), Some(row)) => Some(
                    CommandWithPreviewView {
                        runner_type: RunnerType::Just,
                        args: recipe_name(t),
                        file_path: path,
                        line_number: line_of_row(row),
                    },
                ),
                _ => None,
            },
            None => None,
        }
    }
}

/// The commands that the first `n` items define, in order.
pub open spec fn item_commands(path: Seq<char>, items: Seq<SyntaxItemView>, n: int) -> Seq<
    CommandWithPreviewView,
>
    decreases n,
{
    if n <= 0 {
        seq![]
    } else {
        let earlier = item_commands(path, items, n - 1);
        match item_command(path, items[n - 1]) {
            Some(c) => earlier.push(c),
            None => earlier,
        }
    }
}

/// The commands of a justfile at `path` whose top-level items are `items`.
pub open spec fn just_commands(path: Seq<char>, items: Seq<SyntaxItemView>) -> Seq<
    CommandWithPreviewView,
> {
    item_commands(path, items, items.len() as int)
}

pub open spec fn kw_module() -> Seq<char> {
    seq!['m', 'o', 'd', 'u', 'l', 'e']
}

pub open spec fn kw_identifier() -> Seq<char> {
    seq!['i', 'd', 'e', 'n', 't', 'i', 'f', 'i', 'e', 'r']
}

pub open spec fn kw_string() -> Seq<char> {
    seq!['s', 't', 'r', 'i', 'n', 'g']
}

/// The text of the last of the first `n` named children of kind `kind` that has a text.
pub open spec fn last_text_of_kind(members: Seq<SyntaxNodeView>, kind: Seq<char>, n: int) -> Option<Seq<char>>
    decreases n,
{
    if n <= 0 {
        None
    } else if members[n - 1].kind == Some(kind) && members[n - 1].text is Some {
        members[n - 1].text
    } else {
        last_text_of_kind(members, kind, n - 1)
    }
}

pub open spec fn is_quote(c: char) -> bool {
    c == '\'' || c == '"'
}

pub open spec fn strip_quotes_start(s: Seq<char>) -> Seq<char>
    decreases s.len(),
{
    if s.len() > 0 && is_quote(s[0]) {
        strip_quotes_start(s.drop_first())
    } else {
        s
    }
}

pub open spec fn strip_quotes_end(s: Seq<char>) -> Seq<char>
    decreases s.len(),
{
    if s.len() > 0 && is_quote(s.last()) {
        strip_quotes_end(s.drop_last())
    } else {
        s
    }
}

/// The text without the quotes (`'` and `"`) at its start and at its end.
pub open spec fn without_quotes(s: Seq<char>) -> Seq<char> {
    strip_quotes_end(strip_quotes_start(s))
}

/// The module that a `mod` directive declares: the text of its last identifier, or nothing,
/// and the text of its last string without its quotes, when it has one.
pub open spec fn module_decl(item: SyntaxItemView) -> (Seq<char>, Option<Seq<char>>) {
    (
        match last_text_of_kind(item.members, kw_identifier(), item.members.len() as int) {
            Some(t) => t,
            None => seq![],
        },
        match last_text_of_kind(item.members, kw_string(), item.members.len() as int) {
            Some(t) => Some(without_quotes(t)),
            None => None,
        },
    )
}

/// The modules that the first `n` items declare with `mod` directives, in order.
pub open spec fn module_decls(items: Seq<SyntaxItemView>, n: int) -> Seq<(Seq<char>, Option<Seq<char>>)>
    decreases n,
{
    if n <= 0 {
        seq![]
    } else if items[n - 1].kind == Some(kw_module()) {
        module_decls(items, n - 1).push(module_decl(items[n - 1]))
    } else {
        module_decls(items, n - 1)
    }
}

pub open spec fn decl_views(d: Seq<(String, Option<String>)>) -> Seq<(Seq<char>, Option<Seq<char>>)> {
    Seq::new(d.len(), |i: int| (d[i].0@, opt_view(d[i].1)))
}

/// A recipe of a module, as the root justfile runs it: `{module}::{recipe}`.
pub open spec fn module_command(name: Seq<char>, c: CommandWithPreviewView) -> CommandWithPreviewView {
    CommandWithPreviewView {
        runner_type: c.runner_type,
        args: name + seq![':', ':'] + c.args,
        file_path: c.file_path,
        line_number: c.line_number,
    }
}

pub open spec fn module_commands(name: Seq<char>, cs: Seq<CommandWithPreviewView>) -> Seq<CommandWithPreviewView> {
    Seq::new(cs.len(), |i: int| module_command(name, cs[i]))
}

/// A module that a justfile declares with a `mod` directive.
#[derive(Debug, PartialEq)]
pub struct Module {
    pub mod_name: String,
    pub content: Just,
}

/// Just represents a justfile: its path, the modules it declares and its recipes.
#[derive(Debug, PartialEq)]
pub struct Just {
    pub path: String,
    pub modules: Vec<Module>,
    pub commands: Vec<CommandWithPreview>,
}

/// The commands of a justfile: its own recipes, then those of each module in turn, run as
/// `{module}::{recipe}`.
pub open spec fn all_just_commands(j: Just) -> Seq<CommandWithPreviewView>
    decreases j,
{
    command_views(j.commands@) + modules_commands(j.modules@)
}

/// The commands of a sequence of modules, one after the other.
pub open spec fn modules_commands(ms: Seq<Module>) -> Seq<CommandWithPreviewView>
    decreases ms,
{
    if ms.len() == 0 {
        seq![]
    } else {
        module_commands(ms[0].mod_name@, all_just_commands(ms[0].content)) + modules_commands(
            ms.drop_first(),
        )
    }
}

/// The commands of modules given by name and justfile, one after the other.
pub open spec fn named_modules_commands(ps: Seq<(Seq<char>, Just)>) -> Seq<CommandWithPreviewView>
    decreases ps.len(),
{
    if ps.len() == 0 {
        seq![]
    } else {
        module_commands(ps[0].0, all_just_commands(ps[0].1)) + named_modules_commands(ps.drop_first())
    }
}

/// Each module by its name and its justfile.
pub open spec fn module_views(ms: Seq<Module>) -> Seq<(Seq<char>, Just)> {
    Seq::new(ms.len(), |i: int| (ms[i].mod_name@, ms[i].content))
}

proof fn lemma_modules_commands_push(s: Seq<Module>, m: Module)
    ensures
        modules_commands(s.push(m)) == modules_commands(s) + module_commands(m.mod_name@, all_just_commands(m.content)),
    decreases s.len(),
{
    if s.len() == 0 {
        assert(s.push(m).drop_first() =~= Seq::<Module>::empty());
        assert(modules_commands(s.push(m).drop_first()) =~= Seq::<CommandWithPreviewView>::empty());
        assert(s.push(m)[0] == m);
        assert(modules_commands(s.push(m)) =~= module_commands(m.mod_name@, all_just_commands(m.content)));
        assert(modules_commands(s) =~= Seq::<CommandWithPreviewView>::empty());
    } else {
        lemma_modules_commands_push(s.drop_first(), m);
        assert(s.push(m).drop_first() =~= s.drop_first().push(m));
        assert(modules_commands(s.push(m)) =~= modules_commands(s) + module_commands(
            m.mod_name@,
            all_just_commands(m.content),
        ));
    }
}

proof fn lemma_modules_commands_by_name(ms: Seq<Module>)
    ensures
        modules_commands(ms) == named_modules_commands(module_views(ms)),
    decreases ms.len(),
{
    if ms.len() > 0 {
        lemma_modules_commands_by_name(ms.drop_first());
        assert(module_views(ms).drop_first() =~= module_views(ms.drop_first()));
    } else {
        assert(module_views(ms) =~= Seq::<(Seq<char>, Just)>::empty());
    }
}

proof fn lemma_module_command_listed(ms: Seq<Module>, k: int, i: int)
    requires
        0 <= k < ms.len(),
        0 <= i < all_just_commands(ms[k].content).len(),
    ensures
        modules_commands(ms).contains(module_command(ms[k].mod_name@, all_just_commands(ms[k].content)[i])),
    decreases ms.len(),
{
    let first = module_commands(ms[0].mod_name@, all_just_commands(ms[0].content));
    let rest = modules_commands(ms.drop_first());
    let x = module_command(ms[k].mod_name@, all_just_commands(ms[k].content)[i]);
    assert(modules_commands(ms) == first + rest);
    if k == 0 {
        assert(modules_commands(ms)[i] == x);
    } else {
        lemma_module_command_listed(ms.drop_first(), k - 1, i);
        assert(ms.drop_first()[k - 1] == ms[k]);
        let idx = choose|j: int| 0 <= j < rest.len() && rest[j] == x;
        assert(modules_commands(ms)[first.len() + idx] == x);
    }
}

/// Every command of the justfile of a module that a justfile declares is among the justfile's
/// commands, run through the module's name: the recipes that a `mod` directive brings in are
/// listed too.
pub proof fn law_module_commands_are_listed(j: Just, k: int, i: int)
    requires
        0 <= k < j.modules@.len(),
        0 <= i < all_just_commands(j.modules@[k].content).len(),
    ensures
        all_just_commands(j).contains(
            module_command(j.modules@[k].mod_name@, all_just_commands(j.modules@[k].content)[i]),
        ),
{
    lemma_module_command_listed(j.modules@, k, i);
    let x = module_command(j.modules@[k].mod_name@, all_just_commands(j.modules@[k].content)[i]);
    let own = command_views(j.commands@);
    let ms = modules_commands(j.modules@);
    let idx = choose|t: int| 0 <= t < ms.len() && ms[t] == x;
    assert(all_just_commands(j) == own + ms);
    assert(all_just_commands(j)[own.len() + idx] == x);
}

/// What the file system shows for one `mod` directive: the canonical forms of the module's
/// paths, whether the module's first possible file (see
/// [`Just::calc_possible_justfile_path_from_mod_info`]) is a file, the entries of the module's
/// directory ([`Just::module_target`]), `None` when it is no directory or cannot be read, and
/// the justfile read from the file that [`Just::get_mod_file_path`] gives, when there is one and
/// it could be read and parsed.
#[derive(Debug, PartialEq)]
pub struct ModuleLookup {
    pub canonical: CanonicalPaths,
    pub current_is_file: bool,
    pub dir_entries: Option<Vec<String>>,
    pub justfile: Option<Just>,
}

/// The modules of the first `n` directives `decls` of a justfile in `current_dir`, each by its
/// name and its justfile: a directive gives one when its lookup resolves, through
/// [`mod_file_path`], to the file whose justfile was read.
pub open spec fn resolved_modules(
    current_dir: Seq<char>,
    decls: Seq<(Seq<char>, Option<Seq<char>>)>,
    lookups: Seq<ModuleLookup>,
    n: int,
) -> Seq<(Seq<char>, Just)>
    decreases n,
{
    if n <= 0 {
        seq![]
    } else {
        let earlier = resolved_modules(current_dir, decls, lookups, n - 1);
        if n - 1 < lookups.len() {
            let l = lookups[n - 1];
            match mod_file_path(
                current_dir,
                decls[n - 1].0,
                decls[n - 1].1,
                l.canonical@,
                l.current_is_file,
                opt_strings_view(l.dir_entries),
            ) {
                Some(f) => match l.justfile {
                    Some(j) => if j.path@ == f {
                        earlier.push((decls[n - 1].0, j))
                    } else {
                        earlier
                    },
                    None => earlier,
                },
                None => earlier,
            }
        } else {
            earlier
        }
    }
}

/// The modules that the `mod` directives among `items` declare, resolved against the lookups:
/// each by its name and its justfile.
pub open spec fn declared_modules(
    current_dir: Seq<char>,
    items: Seq<SyntaxItemView>,
    lookups: Seq<ModuleLookup>,
) -> Seq<(Seq<char>, Just)> {
    let decls = module_decls(items, items.len() as int);
    resolved_modules(current_dir, decls, lookups, decls.len() as int)
}

/// The commands that a justfile at `path`, in `current_dir`, whose top-level items are `items`
/// lists: its own recipes, then those of each module that its `mod` directives declare,
/// resolved against `lookups`.
pub open spec fn listed_just_commands(
    current_dir: Seq<char>,
    path: Seq<char>,
    items: Seq<SyntaxItemView>,
    lookups: Seq<ModuleLookup>,
) -> Seq<CommandWithPreviewView> {
    just_commands(path, items) + named_modules_commands(declared_modules(current_dir, items, lookups))
}

fn is_quote_char(c: char) -> (r: bool)
    ensures
        r == is_quote(c),
{
    c == '\'' || c == '"'
}

/// The text without the quotes at its start and at its end.
pub fn trim_quotes(s: &String) -> (r: String)
    ensures
        r@ == without_quotes(s@),
{
    let chars = to_chars(s.as_str());
    let n = chars.len();
    let mut start: usize = 0;
    assert(chars@.skip(0) =~= chars@);
    while start < n && is_quote_char(chars[start])
        invariant
            n == chars@.len(),
            chars@ == s@,
            start <= n,
            strip_quotes_start(s@) == strip_quotes_start(chars@.skip(start as int)),
        decreases n - start,
    {
        assert(chars@.skip(start as int).drop_first() =~= chars@.skip(start + 1));
        start += 1;
    }
    let mut end: usize = n;
    assert(chars@.skip(start as int) =~= chars@.subrange(start as int, n as int));
    while end > start && is_quote_char(chars[end - 1])
        invariant
            n == chars@.len(),
            start <= end <= n,
            strip_quotes_start(s@) == chars@.subrange(start as int, n as int),
            without_quotes(s@) == strip_quotes_end(chars@.subrange(start as int, end as int)),
        decreases end - start,
    {
        assert(chars@.subrange(start as int, end as int).drop_last() =~= chars@.subrange(
            start as int,
            end - 1,
        ));
        end -= 1;
    }
    string_of(copy_range(chars.as_slice(), start, end).as_slice())
}

/// The text of the last named child of kind `kind` that has a text.
fn last_text_of_kind_in(item: &SyntaxItem, kind: &[char]) -> (r: Option<String>)
    ensures
        opt_view(r) == last_text_of_kind(item@.members, kind@, item@.members.len() as int),
{
    let ghost ms = item@.members;
    let mut i: usize = item.members.len();
    while i > 0
        invariant
            ms == item@.members,
            i <= ms.len(),
            last_text_of_kind(ms, kind@, ms.len() as int) == last_text_of_kind(ms, kind@, i as int),
        decreases i,
    {
        let m = &item.members[i - 1];
        assert(ms[i - 1] == m@);
        let same_kind = match &m.kind {
            Some(k) => {
                let chars = to_chars(k.as_str());
                crate::text::chars_equal(chars.as_slice(), kind)
            },
            None => false,
        };
        if same_kind {
            match &m.text {
                Some(t) => {
                    return Some(t.clone());
                },
                None => {},
            }
        }
        i -= 1;
    }
    None
}

/// The modules that the `mod` directives among `items` declare, in order: each by its name and
/// its path, when it gives one.
pub fn mod_directives(items: &Vec<SyntaxItem>) -> (r: Vec<(String, Option<String>)>)
    ensures
        decl_views(r@) == module_decls(item_views(items@), items@.len() as int),
{
    let ghost iv = item_views(items@);
    let identifier = ['i', 'd', 'e', 'n', 't', 'i', 'f', 'i', 'e', 'r'];
    let string = ['s', 't', 'r', 'i', 'n', 'g'];
    let module = ['m', 'o', 'd', 'u', 'l', 'e'];
    assert(identifier@ =~= kw_identifier());
    assert(string@ =~= kw_string());
    assert(module@ =~= kw_module());
    let mut r: Vec<(String, Option<String>)> = Vec::new();
    let mut i: usize = 0;
    while i < items.len()
        invariant
            iv == item_views(items@),
            identifier@ == kw_identifier(),
            string@ == kw_string(),
            module@ == kw_module(),
            i <= items@.len(),
            decl_views(r@) == module_decls(iv, i as int),
        decreases items@.len() - i,
    {
        let item = &items[i];
        assert(iv[i as int] == item@);
        let is_module = match &item.kind {
            Some(k) => {
                let chars = to_chars(k.as_str());
                crate::text::chars_equal(chars.as_slice(), &module)
            },
            None => false,
        };
        if is_module {
            let name = match last_text_of_kind_in(item, &identifier) {
                Some(t) => t,
                None => String::new(),
            };
            let path = match last_text_of_kind_in(item, &string) {
                Some(t) => Some(trim_quotes(&t)),
                None => None,
            };
            let ghost prev = r@;
            r.push((name, path));
            assert(decl_views(r@) =~= decl_views(prev).push(module_decl(item@)));
        }
        i += 1;
    }
    r
}

fn copy_opt(o: &Option<String>) -> (r: Option<String>)
    ensures
        opt_view(r) == opt_view(*o),
{
    match o {
        Some(s) => Some(s.clone()),
        None => None,
    }
}

/// The modules of the directives `decls` of a justfile in `current_dir`, given what the file
/// system shows for each of them, in order.
fn resolve_modules(current_dir: &String, decls: &Vec<(String, Option<String>)>, lookups: Vec<ModuleLookup>) -> (r:
    Vec<Module>)
    ensures
        module_views(r@) == resolved_modules(
            current_dir@,
            decl_views(decls@),
            lookups@,
            decls@.len() as int,
        ),
{
    let ghost dv = decl_views(decls@);
    let ghost all = lookups@;
    let mut rest = lookups;
    let mut modules: Vec<Module> = Vec::new();
    let mut i: usize = 0;
    while i < decls.len()
        invariant
            dv == decl_views(decls@),
            i <= decls@.len(),
            rest@.len() == if i <= all.len() {
                all.len() - i
            } else {
                0
            },
            forall|k: int| 0 <= k < rest@.len() ==> rest@[k] == all[i + k],
            module_views(modules@) == resolved_modules(current_dir@, dv, all, i as int),
        decreases decls@.len() - i,
    {
        if rest.len() > 0 {
            let ghost before = rest@;
            let ModuleLookup { canonical, current_is_file, dir_entries, justfile } = rest.remove(0);
            assert(before[0] == all[i as int]);
            let d = &decls[i];
            assert(dv[i as int] == (d.0@, opt_view(d.1)));
            let file = Just::get_mod_file_path(
                current_dir.clone(),
                d.0.clone(),
                copy_opt(&d.1),
                canonical,
                current_is_file,
                dir_entries,
            );
            match (file, justfile) {
                (Some(f), Some(j)) => {
                    let same = crate::text::chars_equal(
                        to_chars(j.path.as_str()).as_slice(),
                        to_chars(f.as_str()).as_slice(),
                    );
                    if same {
                        let ghost prev = modules@;
                        modules.push(Module { mod_name: d.0.clone(), content: j });
                        assert(module_views(modules@) =~= module_views(prev).push((d.0@, j)));
                    }
                },
                _ => {},
            }
            assert forall|k: int| 0 <= k < rest@.len() implies rest@[k] == all[i + 1 + k] by {
                assert(rest@[k] == before[k + 1]);
            }
        }
        i += 1;
    }
    modules
}

/// Reads the top-level items of the tree.
pub fn read_syntax(syntax: &JustSyntax) -> (r: Vec<SyntaxItem>)
    ensures
        item_views(r@) == syntax_items(syntax@),
{
    let n = syntax.item_count();
    let mut items: Vec<SyntaxItem> = Vec::new();
    let mut i: usize = 0;
    while i < n
        invariant
            n == just_named_children_count(syntax@, seq![]),
            i <= n,
            items@.len() == i,
            forall|k: int| 0 <= k < i ==> #[trigger] items@[k]@ == syntax_item(syntax@, k as usize),
        decreases n - i,
    {
        let kind = syntax.item_kind(i);
        let c = syntax.children_count(i);
        let mut child_texts: Vec<Option<String>> = Vec::new();
        let mut j: usize = 0;
        while j < c
            invariant
                c == just_children_count(syntax@, seq![i]),
                j <= c,
                child_texts@.len() == j,
                forall|k: int|
                    0 <= k < j ==> opt_view(#[trigger] child_texts@[k]) == just_child_text(
                        syntax@,
                        seq![i],
                        k as usize,
                    ),
            decreases c - j,
        {
            let t = syntax.child_text(i, j);
            proof {
                assert(opt_view(t) == just_child_text(syntax@, seq![i], j));
            }
            child_texts.push(t);
            j += 1;
        }
        let m = syntax.named_children_count(i);
        let mut members: Vec<SyntaxNode> = Vec::new();
        let mut j: usize = 0;
        while j < m
            invariant
                m == just_named_children_count(syntax@, seq![i]),
                j <= m,
                members@.len() == j,
                forall|k: int|
                    0 <= k < j ==> #[trigger] members@[k]@ == (SyntaxNodeView {
                        kind: just_node_kind(syntax@, seq![i, k as usize]),
                        text: just_node_text(syntax@, seq![i, k as usize]),
                        row: just_node_row(syntax@, seq![i, k as usize]),
                    }),
            decreases m - j,
        {
            let node = SyntaxNode {
                kind: syntax.member_kind(i, j),
                text: syntax.member_text(i, j),
                row: syntax.member_row(i, j),
            };
            members.push(node);
            j += 1;
        }
        let item = SyntaxItem { kind, child_texts, members };
        proof {
            assert(opt_view(item.kind) == just_node_kind(syntax@, seq![i]));
            assert(item@.child_texts =~= syntax_item(syntax@, i).child_texts);
            assert(item@.members =~= syntax_item(syntax@, i).members);
        }
        items.push(item);
        i += 1;
    }
    assert(item_views(items@) =~= syntax_items(syntax@));
    items
}

fn is_private_item(item: &SyntaxItem) -> (r: bool)
    ensures
        r == is_private(item@),
{
    let ghost texts = item@.child_texts;
    let private = ['p', 'r', 'i', 'v', 'a', 't', 'e'];
    assert(private@ =~= kw_private());
    let mut j: usize = 0;
    while j < item.child_texts.len()
        invariant
            texts == item@.child_texts,
            private@ == kw_private(),
            j <= texts.len(),
            forall|k: int|
                0 <= k < j ==> !(#[trigger] texts[k] matches Some(t) && contains_seq(t, kw_private())),
        decreases texts.len() - j,
    {
        match &item.child_texts[j] {
            Some(t) => {
                let chars = to_chars(t.as_str());
                if contains_chars(chars.as_slice(), &private) {
                    assert(texts[j as int] == Some(t@));
                    return true;
                }
            },
            None => {},
        }
        j += 1;
    }
    false
}

fn header_of(members: &Vec<SyntaxNode>) -> (r: Option<usize>)
    ensures
        match r {
            Some(j) => header_index(Seq::new(members@.len(), |k: int| members@[k]@), 0) == Some(
                j as int,
            ) && j < members@.len(),
            None => header_index(Seq::new(members@.len(), |k: int| members@[k]@), 0) == None::<
                int,
            >,
        },
{
    let ghost ms = Seq::new(members@.len(), |k: int| members@[k]@);
    let header = ['r', 'e', 'c', 'i', 'p', 'e', '_', 'h', 'e', 'a', 'd', 'e', 'r'];
    assert(header@ =~= kw_recipe_header());
    let mut j: usize = 0;
    while j < members.len()
        invariant
            ms == Seq::new(members@.len(), |k: int| members@[k]@),
            header@ == kw_recipe_header(),
            j <= members@.len(),
            header_index(ms, 0) == header_index(ms, j as int),
        decreases members@.len() - j,
    {
        let is_header = match &members[j].kind {
            Some(k) => {
                let chars = to_chars(k.as_str());
                crate::text::chars_equal(chars.as_slice(), &header)
            },
            None => false,
        };
        assert(ms[j as int] == members@[j as int]@);
        if is_header {
            return Some(j);
        }
        j += 1;
    }
    None
}

/// The recipe name in a recipe header such as `run arg:`.
pub fn recipe_name_of(header: &String) -> (r: String)
    ensures
        r@ == recipe_name(header@),
{
    let chars = to_chars(header.as_str());
    let before = match find_char(chars.as_slice(), ':') {
        Some(i) => copy_range(chars.as_slice(), 0, i),
        None => copy_range(chars.as_slice(), 0, chars.len()),
    };
    assert(before@ =~= before_first(header@, ':'));
    let ws = words(before.as_slice());
    if ws.len() > 0 {
        assert(crate::text::views(ws@)[0] == ws@[0]@);
        string_of(ws[0].as_slice())
    } else {
        String::new()
    }
}

fn line_number_of_row(row: usize) -> (r: u32)
    ensures
        r == line_of_row(row),
{
    if row < 0xffff_ffffusize {
        (row + 1) as u32
    } else {
        0xffff_ffffu32
    }
}

/// The commands that the items of a justfile at `path` define, in order.
pub fn commands_from_items(path: &String, items: &Vec<SyntaxItem>) -> (r: Vec<CommandWithPreview>)
    ensures
        command_views(r@) == just_commands(path@, item_views(items@)),
{
    let ghost iv = item_views(items@);
    let mut commands: Vec<CommandWithPreview> = Vec::new();
    let mut i: usize = 0;
    while i < items.len()
        invariant
            iv == item_views(items@),
            i <= items@.len(),
            command_views(commands@) == item_commands(path@, iv, i as int),
        decreases items@.len() - i,
    {
        let item = &items[i];
        assert(iv[i as int] == item@);
        let mut found: Option<CommandWithPreview> = None;
        let is_recipe = match &item.kind {
            Some(k) => {
                let chars = to_chars(k.as_str());
                crate::text::chars_equal(chars.as_slice(), &['r', 'e', 'c', 'i', 'p', 'e'])
            },
            None => false,
        };
        if is_recipe && !is_private_item(item) {
            match header_of(&item.members) {
                Some(j) => {
                    let member = &item.members[j];
                    assert(Seq::new(item.members@.len(), |k: int| item.members@[k]@) =~= item@.members);
                    match (&member.text, member.row) {
                        (Some(t), Some(row)) => {
                            found = Some(
                                CommandWithPreview::new(
                                    RunnerType::Just,
                                    recipe_name_of(t),
                                    path.clone(),
                                    line_number_of_row(row),
                                ),
                            );
                        },
                        _ => {},
                    }
                },
                None => {
                    assert(Seq::new(item.members@.len(), |k: int| item.members@[k]@) =~= item@.members);
                },
            }
        }
        proof {
            assert(seq!['r', 'e', 'c', 'i', 'p', 'e'] =~= kw_recipe());
        }
        match found {
            Some(c) => {
                let ghost prev = command_views(commands@);
                commands.push(c);
                assert(command_views(commands@) =~= prev.push(c@));
            },
            None => {},
        }
        i += 1;
    }
    commands
}

/// A recipe of a module as the root justfile runs it: `{name}::{recipe}`.
fn module_command_of(name: &String, c: &CommandWithPreview) -> (r: CommandWithPreview)
    ensures
        r@ == module_command(name@, c@),
{
    let mut args = name.clone();
    assert(args@ == name@);
    args.append("::");
    proof {
        reveal_strlit("::");
    }
    assert(args@ == name@ + seq![':', ':']);
    args.append(c.args.as_str());
    assert(args@ == name@ + seq![':', ':'] + c.args@);
    CommandWithPreview::new(c.runner_type, args, c.file_path.clone(), c.line_number)
}

impl Just {
    /// The justfile at `path`, in `current_dir`, whose top-level items are `items`, with the
    /// modules that its `mod` directives declare, given what the file system shows for each
    /// directive in `lookups`; `None` when it lists no command, neither of its own nor of a
    /// module.
    pub fn from_items(current_dir: String, path: String, items: &Vec<SyntaxItem>, lookups: Vec<ModuleLookup>) -> (r:
        Option<Just>)
        ensures
            match r {
                Some(j) => {
                    &&& j.path@ == path@
                    &&& command_views(j.commands@) == just_commands(path@, item_views(items@))
                    &&& module_views(j.modules@) == declared_modules(current_dir@, item_views(items@), lookups@)
                    &&& all_just_commands(j) == listed_just_commands(current_dir@, path@, item_views(items@), lookups@)
                    &&& all_just_commands(j).len() > 0
                },
                None => listed_just_commands(current_dir@, path@, item_views(items@), lookups@).len() == 0,
            },
    {
        let commands = commands_from_items(&path, items);
        let decls = mod_directives(items);
        let modules = resolve_modules(&current_dir, &decls, lookups);
        let j = Just { path, modules, commands };
        proof {
            lemma_modules_commands_by_name(j.modules@);
        }
        let listed = j.to_commands();
        if listed.len() == 0 {
            None
        } else {
            Some(j)
        }
    }

    /// Parses the justfile at `justfile_path`, in `current_dir`, whose content is `source_code`,
    /// with the modules that its `mod` directives declare (see [`Just::from_items`]). `None` when
    /// it lists no command, neither of its own nor of a module.
    pub fn parse_justfile(current_dir: String, justfile_path: String, source_code: String, lookups: Vec<ModuleLookup>) -> (r:
        Option<Just>)
        ensures
            match r {
                Some(j) => {
                    &&& j.path@ == justfile_path@
                    &&& command_views(j.commands@) == just_commands(justfile_path@, syntax_items(source_code@))
                    &&& module_views(j.modules@) == declared_modules(current_dir@, syntax_items(source_code@), lookups@)
                    &&& all_just_commands(j) == listed_just_commands(
                        current_dir@,
                        justfile_path@,
                        syntax_items(source_code@),
                        lookups@,
                    )
                    &&& all_just_commands(j).len() > 0
                },
                None => listed_just_commands(current_dir@, justfile_path@, syntax_items(source_code@), lookups@).len()
                    == 0,
            },
    {
        let syntax = JustSyntax::parse(source_code);
        let items = read_syntax(&syntax);
        Just::from_items(current_dir, justfile_path, &items, lookups)
    }

    /// The modules that the `mod` directives of a justfile whose content is `source_code`
    /// declare, in order: each by its name and its path, when it gives one.
    pub fn mod_directives_of(source_code: String) -> (r: Vec<(String, Option<String>)>)
        ensures
            decl_views(r@) == module_decls(syntax_items(source_code@), syntax_items(source_code@).len() as int),
    {
        let syntax = JustSyntax::parse(source_code);
        let items = read_syntax(&syntax);
        mod_directives(&items)
    }

    /// The justfile found for `current_dir`, given as its path and content, with its modules (see
    /// [`Just::from_items`]); an error when none was found, or when it lists no command, neither
    /// of its own nor of a module.
    pub fn new(current_dir: String, justfile: Option<(String, String)>, lookups: Vec<ModuleLookup>) -> (r: Result<Just, String>)
        ensures
            match justfile {
                None => r matches Err(e) && e@ == "justfile not found"@,
                Some((path, source)) => match r {
                    Ok(j) => {
                        &&& j.path@ == path@
                        &&& command_views(j.commands@) == just_commands(path@, syntax_items(source@))
                        &&& module_views(j.modules@) == declared_modules(current_dir@, syntax_items(source@), lookups@)
                        &&& all_just_commands(j) == listed_just_commands(
                            current_dir@,
                            path@,
                            syntax_items(source@),
                            lookups@,
                        )
                        &&& all_just_commands(j).len() > 0
                    },
                    Err(e) => listed_just_commands(current_dir@, path@, syntax_items(source@), lookups@).len() == 0
                        && e@ == "failed to parse justfile"@,
                },
            },
    {
        match justfile {
            None => Err("justfile not found".to_string()),
            Some((path, source)) => match Just::parse_justfile(current_dir, path, source, lookups) {
                Some(j) => Ok(j),
                None => Err("failed to parse justfile".to_string()),
            },
        }
    }

    /// The commands of the justfile: its own recipes, then those of each module in turn, run as
    /// `{module}::{recipe}`.
    pub fn to_commands(&self) -> (r: Vec<CommandWithPreview>)
        ensures
            command_views(r@) == all_just_commands(*self),
        decreases self,
    {
        let mut r = crate::model::command::duplicate_commands(&self.commands);
        let ghost ms = self.modules@;
        let mut i: usize = 0;
        assert(ms.take(0) =~= Seq::<Module>::empty());
        assert(command_views(self.commands@) + modules_commands(ms.take(0)) =~= command_views(self.commands@));
        while i < self.modules.len()
            invariant
                ms == self.modules@,
                i <= ms.len(),
                command_views(r@) == command_views(self.commands@) + modules_commands(ms.take(i as int)),
            decreases ms.len() - i,
        {
            let m = &self.modules[i];
            proof {
                assert(decreases_to!(*self => self.modules));
                assert(decreases_to!(self.modules => self.modules@));
                assert(decreases_to!(self.modules@ => self.modules@[i as int]));
                assert(decreases_to!(self.modules@[i as int] => self.modules@[i as int].content));
            }
            let sub = m.content.to_commands();
            let ghost before = command_views(r@);
            let mut k: usize = 0;
            while k < sub.len()
                invariant
                    k <= sub@.len(),
                    command_views(r@) == before + module_commands(m.mod_name@, command_views(sub@).take(k as int)),
                decreases sub@.len() - k,
            {
                let ghost prev = command_views(r@);
                r.push(module_command_of(&m.mod_name, &sub[k]));
                assert(command_views(r@) =~= prev.push(module_command(m.mod_name@, sub@[k as int]@)));
                assert(module_commands(m.mod_name@, command_views(sub@).take(k + 1)) =~= module_commands(
                    m.mod_name@,
                    command_views(sub@).take(k as int),
                ).push(module_command(m.mod_name@, sub@[k as int]@)));
                k += 1;
            }
            proof {
                assert(command_views(sub@).take(sub@.len() as int) =~= command_views(sub@));
                assert(ms.take(i + 1) =~= ms.take(i as int).push(ms[i as int]));
                lemma_modules_commands_push(ms.take(i as int), ms[i as int]);
            }
            i += 1;
        }
        assert(ms.take(ms.len() as int) =~= ms);
        r
    }

    /// The path of the justfile.
    pub fn path(&self) -> (r: String)
        ensures
            r@ == self.path@,
    {
        self.path.clone()
    }

    /// `just {args}`.
    pub fn command_to_run(&self, command: &CommandForExec) -> (r: String)
        ensures
            r@ == command_line(RunnerType::Just, command.args@),
    {
        crate::model::command::format_command(RunnerType::Just, &command.args)
    }
}

/// The relative path without its leading `./` parts, which `Path` comparison ignores.
pub open spec fn without_dot_prefix(p: Seq<char>) -> Seq<char>
    decreases p.len(),
{
    if p.len() >= 2 && p[0] == '.' && p[1] == '/' {
        without_dot_prefix(p.skip(2))
    } else {
        p
    }
}

fn strip_dot_prefix(p: &[char]) -> (r: Vec<char>)
    ensures
        r@ == without_dot_prefix(p@),
{
    let mut start: usize = 0;
    assert(p@.skip(0) =~= p@);
    while p.len() - start >= 2 && p[start] == '.' && p[start + 1] == '/'
        invariant
            start <= p@.len(),
            without_dot_prefix(p@) == without_dot_prefix(p@.skip(start as int)),
        decreases p@.len() - start,
    {
        assert(p@.skip(start as int).skip(2) =~= p@.skip(start + 2));
        assert(p@.skip(start as int)[0] == '.' && p@.skip(start as int)[1] == '/');
        start += 2;
    }
    let r = copy_range(p, start, p.len());
    assert(r@ =~= p@.skip(start as int));
    r
}

/// A path of a `mod` directive made absolute: kept when it is absolute, joined to the current
/// directory otherwise.
pub open spec fn absolute_path(current_dir: Seq<char>, p: Seq<char>) -> Seq<char> {
    if p.len() > 0 && p[0] == '/' {
        p
    } else {
        crate::text::join_path(current_dir, without_dot_prefix(p))
    }
}

/// `Path::with_extension("just")`: the extension of the last component, the part after its last
/// `.` unless that `.` starts the name, is replaced by `just`, or `.just` is appended.
pub open spec fn with_just_extension(p: Seq<char>) -> Seq<char> {
    let start = match last_index_of(p, '/') {
        Some(k) => k + 1,
        None => 0,
    };
    let name = p.skip(start);
    let stem_len = match last_index_of(name, '.') {
        Some(d) => if d > 0 {
            d
        } else {
            name.len() as int
        },
        None => name.len() as int,
    };
    p.take(start + stem_len) + seq!['.', 'j', 'u', 's', 't']
}

/// The files in which a module's justfile can be: first `current`, then each of `child` in turn.
#[derive(Debug, PartialEq)]
pub struct PossiblePaths {
    pub current: String,
    pub child: Vec<String>,
}

/// The three names that a module's justfile can have inside its directory.
pub open spec fn child_paths(base: Seq<char>) -> Seq<Seq<char>> {
    seq![
        crate::text::join_path(base, seq!['m', 'o', 'd', '.', 'j', 'u', 's', 't']),
        crate::text::join_path(base, seq!['j', 'u', 's', 't', 'f', 'i', 'l', 'e']),
        crate::text::join_path(base, seq!['.', 'j', 'u', 's', 't', 'f', 'i', 'l', 'e']),
    ]
}

fn absolute(current_dir: &String, p: &String) -> (r: String)
    ensures
        r@ == absolute_path(current_dir@, p@),
{
    let chars = to_chars(p.as_str());
    if chars.len() > 0 && chars[0] == '/' {
        p.clone()
    } else {
        let rel = string_of(strip_dot_prefix(chars.as_slice()).as_slice());
        crate::text::join(current_dir.as_str(), rel.as_str())
    }
}

fn just_extension(p: &String) -> (r: String)
    ensures
        r@ == with_just_extension(p@),
{
    let chars = to_chars(p.as_str());
    let n = chars.len();
    let start = match find_last(chars.as_slice(), '/') {
        Some(k) => k + 1,
        None => 0,
    };
    let name = copy_range(chars.as_slice(), start, chars.len());
    assert(name@ =~= p@.skip(start as int));
    let stem_len = match find_last(name.as_slice(), '.') {
        Some(d) => if d > 0 {
            d
        } else {
            name.len()
        },
        None => name.len(),
    };
    let mut r = copy_range(chars.as_slice(), 0, start + stem_len);
    r.push('.');
    r.push('j');
    r.push('u');
    r.push('s');
    r.push('t');
    assert(r@ =~= with_just_extension(p@));
    string_of(r.as_slice())
}

/// What `fs::canonicalize` reports for the paths of one `mod` directive: each is the canonical
/// form of its path, `None` when `fs::canonicalize` fails on it (when the path does not exist,
/// say).
#[derive(Debug, Clone, PartialEq)]
pub struct CanonicalPaths {
    /// For the module's directory path, [`Just::module_dir`].
    pub dir: Option<String>,
    /// For the first file in which the module's justfile can be, before it is made canonical,
    /// [`Just::module_file_candidate`].
    pub current: Option<String>,
    /// For the justfile found in the module's directory, [`Just::module_dir_justfile`].
    pub found: Option<String>,
}

/// The value of a [`CanonicalPaths`].
pub struct CanonicalPathsView {
    pub dir: Option<Seq<char>>,
    pub current: Option<Seq<char>>,
    pub found: Option<Seq<char>>,
}

impl View for CanonicalPaths {
    type V = CanonicalPathsView;

    open spec fn view(&self) -> CanonicalPathsView {
        CanonicalPathsView { dir: opt_view(self.dir), current: opt_view(self.current), found: opt_view(self.found) }
    }
}

/// The canonical form of a path when the file system gave one, the path itself otherwise.
pub open spec fn canonical_or(canonical: Option<Seq<char>>, p: Seq<char>) -> Seq<char> {
    match canonical {
        Some(c) => c,
        None => p,
    }
}

/// The path that a `mod` directive gives for its module: its path, or else its name.
pub open spec fn given_path(mod_name: Seq<char>, mod_path: Option<Seq<char>>) -> Seq<char> {
    match mod_path {
        Some(p) => p,
        None => mod_name,
    }
}

/// The module's directory path: the path of the directive, or else its name, joined to
/// `current_dir` unless it is absolute. This is the path that is made canonical.
pub open spec fn module_dir_path(current_dir: Seq<char>, mod_name: Seq<char>, mod_path: Option<Seq<char>>) -> Seq<char> {
    absolute_path(current_dir, given_path(mod_name, mod_path))
}

/// The base of the possible files of a module: an absolute path as it is written, otherwise the
/// canonical form of the module's directory path when there is one.
pub open spec fn module_base(
    current_dir: Seq<char>,
    mod_name: Seq<char>,
    mod_path: Option<Seq<char>>,
    canonical_dir: Option<Seq<char>>,
) -> Seq<char> {
    let g = given_path(mod_name, mod_path);
    if g.len() > 0 && g[0] == '/' {
        g
    } else {
        canonical_or(canonical_dir, module_dir_path(current_dir, mod_name, mod_path))
    }
}

/// The directory in which a module's justfile is looked for: the canonical form of the module's
/// directory path when there is one, the path otherwise.
pub open spec fn module_target(
    current_dir: Seq<char>,
    mod_name: Seq<char>,
    mod_path: Option<Seq<char>>,
    canonical_dir: Option<Seq<char>>,
) -> Seq<char> {
    canonical_or(canonical_dir, module_dir_path(current_dir, mod_name, mod_path))
}

/// The first file in which a module's justfile can be, before it is made canonical: the base
/// with a path, `{base}.just` without one.
pub open spec fn module_file_candidate(
    current_dir: Seq<char>,
    mod_name: Seq<char>,
    mod_path: Option<Seq<char>>,
    canonical_dir: Option<Seq<char>>,
) -> Seq<char> {
    match mod_path {
        Some(_) => module_base(current_dir, mod_name, mod_path, canonical_dir),
        None => with_just_extension(module_base(current_dir, mod_name, mod_path, canonical_dir)),
    }
}

/// The first file in which a module's justfile can be: the base with a path; without one, the
/// canonical form of `{base}.just` when there is one, `{base}.just` otherwise.
pub open spec fn module_file_path(
    current_dir: Seq<char>,
    mod_name: Seq<char>,
    mod_path: Option<Seq<char>>,
    canonical: CanonicalPathsView,
) -> Seq<char> {
    match mod_path {
        Some(_) => module_base(current_dir, mod_name, mod_path, canonical.dir),
        None => canonical_or(canonical.current, module_file_candidate(current_dir, mod_name, mod_path, canonical.dir)),
    }
}

fn canonical_or_path(canonical: &Option<String>, p: String) -> (r: String)
    ensures
        r@ == canonical_or(opt_view(*canonical), p@),
{
    match canonical {
        Some(c) => c.clone(),
        None => p,
    }
}

impl Just {
    /// The module's directory path: the path of the directive `mod {mod_name} "{mod_path}"`, or
    /// else `mod_name`, joined to `current_dir` unless it is absolute. This is the path whose
    /// canonical form is [`CanonicalPaths::dir`].
    pub fn module_dir(current_dir: &String, mod_name: &String, mod_path: &Option<String>) -> (r: String)
        ensures
            r@ == module_dir_path(current_dir@, mod_name@, opt_view(*mod_path)),
    {
        match mod_path {
            Some(p) => absolute(current_dir, p),
            None => absolute(current_dir, mod_name),
        }
    }

    fn module_base_of(current_dir: &String, mod_name: &String, mod_path: &Option<String>, canonical_dir: &Option<String>) -> (r:
        String)
        ensures
            r@ == module_base(current_dir@, mod_name@, opt_view(*mod_path), opt_view(*canonical_dir)),
    {
        let given = match mod_path {
            Some(p) => p,
            None => mod_name,
        };
        let chars = to_chars(given.as_str());
        if chars.len() > 0 && chars[0] == '/' {
            given.clone()
        } else {
            canonical_or_path(canonical_dir, Just::module_dir(current_dir, mod_name, mod_path))
        }
    }

    /// The directory in which the module's justfile is looked for: `canonical_dir`, the
    /// canonical form of [`Just::module_dir`], when there is one, that path otherwise.
    pub fn module_target(current_dir: &String, mod_name: &String, mod_path: &Option<String>, canonical_dir: &Option<String>) -> (r:
        String)
        ensures
            r@ == module_target(current_dir@, mod_name@, opt_view(*mod_path), opt_view(*canonical_dir)),
    {
        canonical_or_path(canonical_dir, Just::module_dir(current_dir, mod_name, mod_path))
    }

    /// The first file in which the module's justfile can be, before it is made canonical; its
    /// canonical form is [`CanonicalPaths::current`].
    pub fn module_file_candidate(
        current_dir: &String,
        mod_name: &String,
        mod_path: &Option<String>,
        canonical_dir: &Option<String>,
    ) -> (r: String)
        ensures
            r@ == module_file_candidate(current_dir@, mod_name@, opt_view(*mod_path), opt_view(*canonical_dir)),
    {
        let base = Just::module_base_of(current_dir, mod_name, mod_path, canonical_dir);
        match mod_path {
            Some(_) => base,
            None => just_extension(&base),
        }
    }

    /// The files in which the justfile of a module declared as `mod {mod_name}` or
    /// `mod {mod_name} "{mod_path}"` can be, for a justfile in `current_dir`. With a path, the
    /// path itself and then `mod.just`, `justfile` and `.justfile` inside it; without one,
    /// `{mod_name}.just` and then the same three names inside `{mod_name}`. A relative path is
    /// joined to `current_dir` and replaced by its canonical form, `canonical.dir`, when the file
    /// system gave one; an absolute one is kept as written. Without a path, the first file is
    /// replaced by its canonical form, `canonical.current`, when there is one.
    pub fn calc_possible_justfile_path_from_mod_info(
        current_dir: String,
        mod_name: String,
        mod_path: &Option<String>,
        canonical: &CanonicalPaths,
    ) -> (r: PossiblePaths)
        ensures
            r.current@ == module_file_path(current_dir@, mod_name@, opt_view(*mod_path), canonical@),
            crate::model::make::string_views(r.child@) == child_paths(
                module_base(current_dir@, mod_name@, opt_view(*mod_path), canonical@.dir),
            ),
    {
        let base = Just::module_base_of(&current_dir, &mod_name, mod_path, &canonical.dir);
        let mod_just = string_of(&['m', 'o', 'd', '.', 'j', 'u', 's', 't']);
        let justfile = string_of(&['j', 'u', 's', 't', 'f', 'i', 'l', 'e']);
        let dot_justfile = string_of(&['.', 'j', 'u', 's', 't', 'f', 'i', 'l', 'e']);
        let mut child: Vec<String> = Vec::new();
        child.push(crate::text::join(base.as_str(), mod_just.as_str()));
        child.push(crate::text::join(base.as_str(), justfile.as_str()));
        child.push(crate::text::join(base.as_str(), dot_justfile.as_str()));
        assert(crate::model::make::string_views(child@) =~= child_paths(base@));
        let current = match mod_path {
            Some(_) => base,
            None => canonical_or_path(&canonical.current, just_extension(&base)),
        };
        PossiblePaths { current, child }
    }
}

/// The names that a module's justfile can have inside the module's directory.
pub open spec fn child_names() -> Seq<Seq<char>> {
    seq![
        seq!['m', 'o', 'd', '.', 'j', 'u', 's', 't'],
        seq!['j', 'u', 's', 't', 'f', 'i', 'l', 'e'],
        seq!['.', 'j', 'u', 's', 't', 'f', 'i', 'l', 'e'],
    ]
}

/// The justfile in a module's directory `target` whose entries are `entries`: the first entry
/// whose name in lower case is one of [`child_names`] (so `Justfile` is found too), joined to
/// the directory, before it is made canonical.
pub open spec fn dir_justfile(target: Seq<char>, entries: Seq<Seq<char>>) -> Option<Seq<char>> {
    match first_named(entries, child_names(), 0) {
        Some(k) => Some(crate::text::join_path(target, entries[k])),
        None => None,
    }
}

/// The justfile of a module, from what the file system shows: the first possible file when it
/// is a file; otherwise, when the module's directory could be listed, the justfile found in it,
/// replaced by its canonical form when there is one; nothing otherwise.
pub open spec fn mod_file_path(
    current_dir: Seq<char>,
    mod_name: Seq<char>,
    mod_path: Option<Seq<char>>,
    canonical: CanonicalPathsView,
    current_is_file: bool,
    dir_entries: Option<Seq<Seq<char>>>,
) -> Option<Seq<char>> {
    if current_is_file {
        Some(module_file_path(current_dir, mod_name, mod_path, canonical))
    } else {
        match dir_entries {
            Some(es) => match dir_justfile(module_target(current_dir, mod_name, mod_path, canonical.dir), es) {
                Some(f) => Some(canonical_or(canonical.found, f)),
                None => None,
            },
            None => None,
        }
    }
}

pub open spec fn opt_strings_view(o: Option<Vec<String>>) -> Option<Seq<Seq<char>>> {
    match o {
        Some(v) => Some(crate::model::make::string_views(v@)),
        None => None,
    }
}

impl Just {
    /// The justfile in the module's directory `target` whose entry names are `entries`, before
    /// it is made canonical; its canonical form is [`CanonicalPaths::found`].
    pub fn module_dir_justfile(target: &String, entries: &Vec<String>) -> (r: Option<String>)
        ensures
            opt_view(r) == dir_justfile(target@, crate::model::make::string_views(entries@)),
    {
        let mut names: Vec<String> = Vec::new();
        names.push(string_of(&['m', 'o', 'd', '.', 'j', 'u', 's', 't']));
        names.push(string_of(&['j', 'u', 's', 't', 'f', 'i', 'l', 'e']));
        names.push(string_of(&['.', 'j', 'u', 's', 't', 'f', 'i', 'l', 'e']));
        assert(crate::model::make::string_views(names@) =~= child_names());
        match find_file_in_dir(entries, &names) {
            Some(k) => {
                assert(crate::model::make::string_views(entries@)[k as int] == entries@[k as int]@);
                Some(crate::text::join(target.as_str(), entries[k].as_str()))
            },
            None => None,
        }
    }

    /// The justfile of the module declared as `mod {mod_name}` or `mod {mod_name} "{mod_path}"`
    /// in a justfile in `current_dir`. `canonical` holds the canonical forms that the file system
    /// reports for the module's paths; `current_is_file` tells whether the first possible file
    /// (see [`Just::calc_possible_justfile_path_from_mod_info`]) is a file, and `dir_entries`
    /// lists the names in the module's directory ([`Just::module_target`]), `None` when it is no
    /// directory or cannot be read.
    pub fn get_mod_file_path(
        current_dir: String,
        mod_name: String,
        mod_path: Option<String>,
        canonical: CanonicalPaths,
        current_is_file: bool,
        dir_entries: Option<Vec<String>>,
    ) -> (r: Option<String>)
        ensures
            opt_view(r) == mod_file_path(
                current_dir@,
                mod_name@,
                opt_view(mod_path),
                canonical@,
                current_is_file,
                opt_strings_view(dir_entries),
            ),
    {
        if current_is_file {
            let possible = Just::calc_possible_justfile_path_from_mod_info(current_dir, mod_name, &mod_path, &canonical);
            return Some(possible.current);
        }
        let entries = match dir_entries {
            Some(es) => es,
            None => return None,
        };
        let target = Just::module_target(&current_dir, &mod_name, &mod_path, &canonical.dir);
        match Just::module_dir_justfile(&target, &entries) {
            Some(f) => Some(canonical_or_path(&canonical.found, f)),
            None => None,
        }
    }
}

/// Whether `c` is the command of a recipe among the first `n` items none of whose child texts
/// contains `private`.
pub open spec fn from_public_recipe(path: Seq<char>, items: Seq<SyntaxItemView>, n: int, c: CommandWithPreviewView) -> bool {
    exists|i: int|
        0 <= i < n && #[trigger] item_command(path, items[i]) == Some(c) && items[i].kind == Some(
            kw_recipe(),
        ) && !is_private(items[i])
}

/// Every listed recipe of a justfile is a recipe none of whose child texts (attributes, header,
/// body) contains `private`: a recipe marked `[private]`, or holding the word anywhere else, is
/// never offered.
pub proof fn law_private_recipes_are_not_listed(path: Seq<char>, items: Seq<SyntaxItemView>, n: int)
    requires
        0 <= n <= items.len(),
    ensures
        forall|k: int|
            0 <= k < item_commands(path, items, n).len() ==> from_public_recipe(
                path,
                items,
                n,
                #[trigger] item_commands(path, items, n)[k],
            ),
    decreases n,
{
    if n > 0 {
        law_private_recipes_are_not_listed(path, items, n - 1);
        let earlier = item_commands(path, items, n - 1);
        let cur = item_commands(path, items, n);
        assert forall|k: int| 0 <= k < cur.len() implies from_public_recipe(path, items, n, #[trigger] cur[k]) by {
            if k < earlier.len() {
                assert(cur[k] == earlier[k]);
                assert(from_public_recipe(path, items, n - 1, earlier[k]));
                let i = choose|i: int|
                    0 <= i < n - 1 && #[trigger] item_command(path, items[i]) == Some(earlier[k])
                        && items[i].kind == Some(kw_recipe()) && !is_private(items[i]);
                assert(item_command(path, items[i]) == Some(cur[k]));
            } else {
                assert(item_command(path, items[n - 1]) == Some(cur[k]));
            }
        }
    }
}

} // verus!
