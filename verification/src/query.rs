//! The parameters of a symbol search, and the search itself over the
//! symbols that a client hands in.

use vstd::prelude::*;
use crate::base::{FileId, TextRange};
use crate::change::FileModel;
use crate::db::Database;
use crate::pass::{QueryKey, Step};

verus! {

/// The lowercase equivalent of a text, as [`str::to_lowercase`] computes it.
pub uninterp spec fn lowercase_of(text: Seq<char>) -> Seq<char>;

/// `str::to_lowercase` of std: the lowercase equivalent of `text`, as a new
/// string. The result is a function of the text alone; the contract gives it
/// the name [`lowercase_of`] and claims nothing else of it.
#[verifier::external_body]
fn to_lowercase(text: &str) -> (lowered: String)
    ensures
        lowered@ == lowercase_of(text@),
{
    text.to_lowercase()
}

/// The characters of `text`, in order.
pub fn chars_of(text: &str) -> (chars: Vec<char>)
    ensures
        chars@ == text@,
{
    let mut chars: Vec<char> = Vec::new();
    for c in it: text.chars()
        invariant
            it.seq() == text@,
            chars@ == text@.take(it.index() as int),
    {
        chars.push(c);
        assert(chars@ =~= text@.take(it.index() + 1));
    }
    assert(text@.take(text@.len() as int) =~= text@);
    chars
}

/// `at` places each character of `needle` in `hay`, in order.
pub open spec fn embedding(needle: Seq<char>, hay: Seq<char>, at: Seq<int>) -> bool {
    &&& at.len() == needle.len()
    &&& forall|a: int|
        0 <= a < at.len() ==> 0 <= #[trigger] at[a] < hay.len() && hay[at[a]] == needle[a]
    &&& forall|a: int, b: int| 0 <= a < b < at.len() ==> #[trigger] at[a] < #[trigger] at[b]
}

/// `needle` is a subsequence of `hay`: its characters occur in `hay` in the
/// same order, not necessarily side by side.
pub open spec fn embeds(needle: Seq<char>, hay: Seq<char>) -> bool {
    exists|at: Seq<int>| embedding(needle, hay, at)
}

/// A prefix of a subsequence is a subsequence.
proof fn lemma_prefix_embeds(needle: Seq<char>, hay: Seq<char>, k: int)
    requires
        embeds(needle, hay),
        0 <= k <= needle.len(),
    ensures
        embeds(needle.take(k), hay),
{
    let at = choose|at: Seq<int>| embedding(needle, hay, at);
    assert(embedding(needle.take(k), hay, at.take(k)));
}

/// Whether `needle` is a subsequence of `hay`.
pub fn is_subsequence(needle: &Vec<char>, hay: &Vec<char>) -> (r: bool)
    ensures
        r == embeds(needle@, hay@),
{
    let mut i: usize = 0;
    let mut j: usize = 0;
    let ghost mut at: Seq<int> = Seq::empty();
    proof {
        if needle@.len() > 0 && embeds(needle@.take(1), hay@.take(0)) {
            let w = choose|w: Seq<int>| embedding(needle@.take(1), hay@.take(0), w);
            assert(needle@.take(1).len() == 1);
            assert(hay@.take(0).len() == 0);
            assert(0 <= w[0] < hay@.take(0).len());
        }
    }
    while i < hay.len()
        invariant
            i <= hay@.len(),
            j <= needle@.len(),
            j <= i,
            embedding(needle@.take(j as int), hay@.take(i as int), at),
            j < needle@.len() ==> !embeds(needle@.take(j + 1), hay@.take(i as int)),
        decreases hay@.len() - i,
    {
        let ghost seen = hay@.take(i as int);
        let ghost more = hay@.take(i + 1);
        if j < needle.len() && hay[i] == needle[j] {
            proof {
                let found = needle@.take(j + 1);
                let placed = at.push(i as int);
                assert(embedding(found, more, placed));
                if j + 1 < needle@.len() {
                    let next = needle@.take(j + 2);
                    if embeds(next, more) {
                        let w = choose|w: Seq<int>| embedding(next, more, w);
                        let short = w.take(j + 1);
                        assert(w[j as int] < w[j + 1]);
                        assert forall|a: int| 0 <= a < short.len() implies 0 <= #[trigger] short[a]
                            < seen.len() && seen[short[a]] == found[a] by {
                            assert(w[a] <= w[j as int]);
                            assert(more[w[a]] == next[a]);
                        }
                        assert(embedding(found, seen, short));
                        assert(false);
                    }
                }
                at = placed;
            }
            j = j + 1;
        } else {
            proof {
                let kept = needle@.take(j as int);
                assert(embedding(kept, more, at));
                if j < needle@.len() {
                    let next = needle@.take(j + 1);
                    if embeds(next, more) {
                        let w = choose|w: Seq<int>| embedding(next, more, w);
                        assert(more[w[j as int]] == next[j as int]);
                        assert(w[j as int] < i);
                        assert forall|a: int| 0 <= a < w.len() implies 0 <= #[trigger] w[a]
                            < seen.len() && seen[w[a]] == next[a] by {
                            assert(w[a] <= w[j as int]);
                            assert(more[w[a]] == next[a]);
                        }
                        assert(embedding(next, seen, w));
                        assert(false);
                    }
                }
            }
        }
        i = i + 1;
    }
    proof {
        assert(hay@.take(i as int) =~= hay@);
        if j == needle@.len() {
            assert(needle@.take(j as int) =~= needle@);
        } else if embeds(needle@, hay@) {
            lemma_prefix_embeds(needle@, hay@, j + 1);
        }
    }
    j == needle.len()
}

/// Mathematical model of a [`Query`].
pub struct QueryModel {
    pub text: Seq<char>,
    pub lowercased: Seq<char>,
    pub only_types: bool,
    pub libs: bool,
    pub exact: bool,
    pub limit: usize,
}

/// The parameters of a symbol search: the text to look for and its
/// lowercase form, whether only types are wanted, whether libraries are
/// searched too, whether the name must be the text itself, and how many
/// results are wanted at most.
#[derive(Debug)]
pub struct Query {
    query: String,
    lowercased: String,
    only_types: bool,
    libs: bool,
    exact: bool,
    limit: usize,
}

impl View for Query {
    type V = QueryModel;

    closed spec fn view(&self) -> QueryModel {
        QueryModel {
            text: self.query@,
            lowercased: self.lowercased@,
            only_types: self.only_types,
            libs: self.libs,
            exact: self.exact,
            limit: self.limit,
        }
    }
}

impl Query {
    /// A search for `query` whose lowercase form is `lowercased`: fuzzy,
    /// over the workspace, for symbols of any kind, without a limit.
    pub fn from_parts(query: String, lowercased: String) -> (q: Query)
        ensures
            q@ == (QueryModel {
                text: query@,
                lowercased: lowercased@,
                only_types: false,
                libs: false,
                exact: false,
                limit: usize::MAX,
            }),
    {
        Query { query, lowercased, only_types: false, libs: false, exact: false, limit: usize::MAX }
    }

    /// A search for `query`: fuzzy, over the workspace, for symbols of any
    /// kind, without a limit.
    pub fn new(query: String) -> (q: Query)
        ensures
            q@ == (QueryModel {
                text: query@,
                lowercased: lowercase_of(query@),
                only_types: false,
                libs: false,
                exact: false,
                limit: usize::MAX,
            }),
    {
        let lowercased = to_lowercase(query.as_str());
        Query::from_parts(query, lowercased)
    }

    /// Asks for types only.
    pub fn only_types(&mut self)
        ensures
            final(self)@ == (QueryModel { only_types: true, ..old(self)@ }),
    {
        self.only_types = true;
    }

    /// Asks for the symbols of libraries too.
    pub fn libs(&mut self)
        ensures
            final(self)@ == (QueryModel { libs: true, ..old(self)@ }),
    {
        self.libs = true;
    }

    /// Asks for symbols whose name is the text itself.
    pub fn exact(&mut self)
        ensures
            final(self)@ == (QueryModel { exact: true, ..old(self)@ }),
    {
        self.exact = true;
    }

    /// Asks for `limit` results at most.
    pub fn limit(&mut self, limit: usize)
        ensures
            final(self)@ == (QueryModel { limit, ..old(self)@ }),
    {
        self.limit = limit
    }
}

/// What kind of item a symbol names.
#[derive(Clone, Copy, Debug, PartialEq, Eq, Structural)]
pub enum SymbolKind {
    Function,
    Struct,
    Enum,
    Trait,
    TypeAlias,
    Module,
    Const,
    Static,
}

impl SymbolKind {
    /// The kind is one of the kinds of types.
    pub open spec fn spec_is_type(self) -> bool {
        self == SymbolKind::Struct || self == SymbolKind::Enum || self == SymbolKind::Trait
            || self == SymbolKind::TypeAlias
    }

    /// Whether the kind is one of the kinds of types.
    #[verifier::when_used_as_spec(spec_is_type)]
    pub fn is_type(self) -> (r: bool)
        ensures
            r == self.spec_is_type(),
    {
        match self {
            SymbolKind::Struct | SymbolKind::Enum | SymbolKind::Trait | SymbolKind::TypeAlias => true,
            _ => false,
        }
    }
}

/// A symbol of a file: its name, where it is declared, and its kind.
#[derive(Debug)]
pub struct FileSymbol {
    pub name: String,
    pub file_id: FileId,
    pub range: TextRange,
    pub kind: SymbolKind,
}

/// A place to navigate to.
#[derive(Debug)]
pub struct NavigationTarget {
    pub file_id: FileId,
    pub name: String,
    pub kind: SymbolKind,
    pub range: TextRange,
}

/// Mathematical model of a [`FileSymbol`] and of the [`NavigationTarget`]
/// that leads to it.
pub struct SymbolModel {
    pub name: Seq<char>,
    pub file_id: FileId,
    pub range: TextRange,
    pub kind: SymbolKind,
}

impl View for FileSymbol {
    type V = SymbolModel;

    open spec fn view(&self) -> SymbolModel {
        SymbolModel { name: self.name@, file_id: self.file_id, range: self.range, kind: self.kind }
    }
}

impl View for NavigationTarget {
    type V = SymbolModel;

    open spec fn view(&self) -> SymbolModel {
        SymbolModel { name: self.name@, file_id: self.file_id, range: self.range, kind: self.kind }
    }
}

impl NavigationTarget {
    /// The target that leads to `symbol`.
    pub fn from_symbol(symbol: FileSymbol) -> (target: NavigationTarget)
        ensures
            target@ == symbol@,
    {
        NavigationTarget {
            file_id: symbol.file_id,
            name: symbol.name,
            kind: symbol.kind,
            range: symbol.range,
        }
    }
}

/// The models of a sequence of symbols.
pub open spec fn symbol_models(symbols: Seq<FileSymbol>) -> Seq<SymbolModel> {
    Seq::new(symbols.len(), |i: int| symbols[i]@)
}

/// The models of a sequence of targets.
pub open spec fn target_models(targets: Seq<NavigationTarget>) -> Seq<SymbolModel> {
    Seq::new(targets.len(), |i: int| targets[i]@)
}

/// Whether a symbol whose name has the lowercase form `lowered` is what
/// `query` looks for among the files `files`. The symbol's file is one of
/// the files, and a workspace file unless libraries are searched too; the
/// symbol names a type where only types are wanted; the lowercase form of
/// the query is a subsequence of that of the name; and the name is the
/// query's text where an exact match is wanted.
pub open spec fn accepts(
    query: QueryModel,
    files: Map<u32, FileModel>,
    symbol: SymbolModel,
    lowered: Seq<char>,
) -> bool {
    &&& files.contains_key(symbol.file_id.0)
    &&& query.libs || !files[symbol.file_id.0].library
    &&& !query.only_types || symbol.kind.is_type()
    &&& embeds(query.lowercased, lowered)
    &&& !query.exact || symbol.name == query.text
}

/// Whether `symbol` is what `query` looks for among the files `files`.
pub open spec fn wanted(query: QueryModel, files: Map<u32, FileModel>, symbol: SymbolModel) -> bool {
    accepts(query, files, symbol, lowercase_of(symbol.name))
}

/// What a search yields: the symbols that the query looks for, in the order
/// in which they were handed in, up to the query's limit.
pub open spec fn search_result(
    query: QueryModel,
    files: Map<u32, FileModel>,
    symbols: Seq<SymbolModel>,
) -> Seq<SymbolModel> {
    let found = symbols.filter(|s: SymbolModel| wanted(query, files, s));
    if found.len() <= query.limit {
        found
    } else {
        found.take(query.limit as int)
    }
}

impl Query {
    /// The lowercase form of the text, as characters.
    pub fn needle(&self) -> (chars: Vec<char>)
        ensures
            chars@ == self@.lowercased,
    {
        chars_of(self.lowercased.as_str())
    }

    /// Whether `symbol`, whose name has the lowercase form `lowered`, is
    /// what the query looks for. `library` says what the project knows of
    /// the symbol's file: nothing, or whether it is a library file. `needle`
    /// is the lowercase form of the query's text.
    pub fn accepts_symbol(
        &self,
        needle: &Vec<char>,
        symbol: &FileSymbol,
        lowered: &str,
        library: Option<bool>,
    ) -> (r: bool)
        requires
            needle@ == self@.lowercased,
        ensures
            r == (match library {
                Some(lib) => (self@.libs || !lib) && (!self@.only_types || symbol.kind.is_type())
                    && embeds(self@.lowercased, lowered@) && (!self@.exact || symbol.name@
                    == self@.text),
                None => false,
            }),
    {
        match library {
            None => false,
            Some(lib) => {
                if lib && !self.libs {
                    return false;
                }
                if self.only_types && !symbol.kind.is_type() {
                    return false;
                }
                if self.exact && symbol.name != self.query {
                    return false;
                }
                let hay = chars_of(lowered);
                is_subsequence(needle, &hay)
            },
        }
    }
}

/// Filtering a sequence with one more element.
proof fn lemma_filter_push(s: Seq<SymbolModel>, x: SymbolModel, pred: spec_fn(SymbolModel) -> bool)
    ensures
        s.push(x).filter(pred) == if pred(x) {
            s.filter(pred).push(x)
        } else {
            s.filter(pred)
        },
{
    reveal(Seq::filter);
    assert(s.push(x).drop_last() =~= s);
}

/// Searches `symbols` for what `query` looks for among the files of `db`:
/// the symbols wanted, in the order in which they were handed in, up to the
/// query's limit, each as the target that leads to it.
pub fn search_symbols<P: Fn(QueryKey, &Vec<String>) -> Step>(
    db: &Database<P>,
    query: &Query,
    symbols: Vec<FileSymbol>,
) -> (targets: Vec<NavigationTarget>)
    ensures
        target_models(targets@) == search_result(
            query@,
            db.project().files,
            symbol_models(symbols@),
        ),
{
    let needle = query.needle();
    let mut targets: Vec<NavigationTarget> = Vec::new();
    let ghost all = symbol_models(symbols@);
    let ghost files = db.project().files;
    let ghost pred = |s: SymbolModel| wanted(query@, files, s);
    proof {
        reveal(Seq::filter);
        assert(all.take(0) =~= Seq::empty());
        assert(target_models(targets@) =~= Seq::empty());
    }
    for symbol in it: symbols
        invariant
            it.seq() == symbols@,
            all == symbol_models(symbols@),
            files == db.project().files,
            pred == (|s: SymbolModel| wanted(query@, files, s)),
            needle@ == query@.lowercased,
            target_models(targets@) == search_result(query@, files, all.take(it.index() as int)),
    {
        let ghost n = it.index() as int;
        let ghost before = target_models(targets@);
        proof {
            assert(all.take(n + 1) =~= all.take(n).push(symbol@));
            lemma_filter_push(all.take(n), symbol@, pred);
            all.take(n).lemma_filter_len(pred);
        }
        if targets.len() < query.limit {
            let lowered = to_lowercase(symbol.name.as_str());
            let library = db.is_library(symbol.file_id);
            if query.accepts_symbol(&needle, &symbol, lowered.as_str(), library) {
                targets.push(NavigationTarget::from_symbol(symbol));
                assert(target_models(targets@) =~= before.push(symbol@));
            }
        } else {
            proof {
                let found = all.take(n).filter(pred);
                if pred(symbol@) {
                    assert(found.push(symbol@).take(query@.limit as int) =~= found.take(
                        query@.limit as int,
                    ));
                }
            }
        }
    }
    assert(all.take(symbols@.len() as int) =~= all);
    targets
}

} // verus!
