//! The legend of semantic token types.
//!
//! The highlighting query tags nodes with capture names such as `keyword`
//! or `function.call`. The editor is told once which token types exist, and
//! every token then names its type by its place in that list. The legend
//! holds the table from capture names to token types, the list of distinct
//! token types in the order in which the table first mentions them, and for
//! each table row the place of its type in that list.

use vstd::prelude::*;
use crate::utils::text::same_text;

verus! {

/// The kinds of token that the editor is told about.
#[derive(Clone, Copy, Debug, PartialEq, Eq, Hash, Structural)]
pub enum TokenType {
    Variable,
    Parameter,
    EnumMember,
    Type,
    Keyword,
    Str,
    Function,
    Number,
    Comment,
    Operator,
}

impl TokenType {
    /// The name under which the editor protocol knows this token type.
    pub open spec fn spec_name(self) -> Seq<char> {
        match self {
            TokenType::Variable => "variable"@,
            TokenType::Parameter => "parameter"@,
            TokenType::EnumMember => "enumMember"@,
            TokenType::Type => "type"@,
            TokenType::Keyword => "keyword"@,
            TokenType::Str => "string"@,
            TokenType::Function => "function"@,
            TokenType::Number => "number"@,
            TokenType::Comment => "comment"@,
            TokenType::Operator => "operator"@,
        }
    }

    /// The name under which the editor protocol knows this token type.
    pub fn name(&self) -> (name: &'static str)
        ensures
            name@ == self.spec_name(),
    {
        match self {
            TokenType::Variable => "variable",
            TokenType::Parameter => "parameter",
            TokenType::EnumMember => "enumMember",
            TokenType::Type => "type",
            TokenType::Keyword => "keyword",
            TokenType::Str => "string",
            TokenType::Function => "function",
            TokenType::Number => "number",
            TokenType::Comment => "comment",
            TokenType::Operator => "operator",
        }
    }
}

/// The elements of `s` without repetitions, each at the place of its first
/// occurrence.
pub open spec fn distinct<T>(s: Seq<T>) -> Seq<T>
    decreases s.len(),
{
    if s.len() == 0 {
        Seq::empty()
    } else if distinct(s.drop_last()).contains(s.last()) {
        distinct(s.drop_last())
    } else {
        distinct(s.drop_last()).push(s.last())
    }
}

/// The first index from `from` on at which `names` holds `name`.
pub open spec fn find_name(names: Seq<Seq<char>>, name: Seq<char>, from: int) -> Option<int>
    decreases names.len() - from,
{
    if from < 0 || from >= names.len() {
        None
    } else if names[from] == name {
        Some(from)
    } else {
        find_name(names, name, from + 1)
    }
}

/// The capture names of the built-in table, row by row.
pub open spec fn table_names() -> Seq<Seq<char>> {
    seq![
        "variable"@,
        "variable.parameter"@,
        "variable.member"@,
        "property"@,
        "keyword"@,
        "keyword.conditional"@,
        "keyword.function"@,
        "keyword.return"@,
        "keyword.repeat"@,
        "keyword.type"@,
        "string"@,
        "function"@,
        "function.call"@,
        "type"@,
        "character"@,
        "character.special"@,
        "number"@,
        "number.float"@,
        "comment"@,
        "operator"@,
    ]
}

/// The token types of the built-in table, row by row.
pub open spec fn table_kinds() -> Seq<TokenType> {
    seq![
        TokenType::Variable,
        TokenType::Parameter,
        TokenType::EnumMember,
        TokenType::Type,
        TokenType::Keyword,
        TokenType::Keyword,
        TokenType::Keyword,
        TokenType::Keyword,
        TokenType::Keyword,
        TokenType::Keyword,
        TokenType::Str,
        TokenType::Function,
        TokenType::Function,
        TokenType::Type,
        TokenType::Str,
        TokenType::Str,
        TokenType::Number,
        TokenType::Number,
        TokenType::Comment,
        TokenType::Operator,
    ]
}

/// The table from capture names to token types, with what is derived from it.
pub struct Legend {
    names: Vec<&'static str>,
    kinds: Vec<TokenType>,
    types: Vec<TokenType>,
    indices: Vec<u32>,
}

impl Legend {
    /// The capture names of the table, row by row.
    pub closed spec fn names(&self) -> Seq<Seq<char>> {
        Seq::new(self.names@.len(), |i: int| self.names@[i]@)
    }

    /// The token types of the table, row by row.
    pub closed spec fn kinds(&self) -> Seq<TokenType> {
        self.kinds@
    }

    /// The list of token types that the editor is told.
    pub closed spec fn types(&self) -> Seq<TokenType> {
        self.types@
    }

    /// For each row of the table, the place of its token type in the list.
    pub closed spec fn indices(&self) -> Seq<u32> {
        self.indices@
    }

    /// What holds of every legend: the list is the table's token types
    /// without repetitions, in order of first mention, and each row knows
    /// where its type stands in the list.
    pub open spec fn wf(&self) -> bool {
        &&& self.names().len() == self.kinds().len()
        &&& self.indices().len() == self.kinds().len()
        &&& self.types() == distinct(self.kinds())
        &&& forall|k: int|
            0 <= k < self.kinds().len() ==> (#[trigger] self.indices()[k]) < self.types().len()
                && self.types()[self.indices()[k] as int] == self.kinds()[k]
    }

    /// Whether this is the legend of the built-in table.
    pub open spec fn is_builtin(&self) -> bool {
        &&& self.wf()
        &&& self.names() == table_names()
        &&& self.kinds() == table_kinds()
    }

    /// The numeric id of the token type of a highlight, where the highlight
    /// is given by its row in the table.
    pub open spec fn spec_type_index(&self, highlight: int) -> Option<u32> {
        if 0 <= highlight < self.indices().len() {
            Some(self.indices()[highlight])
        } else {
            None
        }
    }

    /// The numeric id of the token type of a capture name: that of the first
    /// row with this name, and none where no row has it.
    pub open spec fn spec_index_of(&self, name: Seq<char>) -> Option<u32> {
        match find_name(self.names(), name, 0) {
            Some(row) => self.spec_type_index(row),
            None => None,
        }
    }

    /// The legend of the built-in table.
    pub fn new() -> (legend: Legend)
        ensures
            legend.is_builtin(),
    {
        let mut names: Vec<&'static str> = Vec::new();
        let mut kinds: Vec<TokenType> = Vec::new();
        names.push("variable");
        kinds.push(TokenType::Variable);
        names.push("variable.parameter");
        kinds.push(TokenType::Parameter);
        names.push("variable.member");
        kinds.push(TokenType::EnumMember);
        names.push("property");
        kinds.push(TokenType::Type);
        names.push("keyword");
        kinds.push(TokenType::Keyword);
        names.push("keyword.conditional");
        kinds.push(TokenType::Keyword);
        names.push("keyword.function");
        kinds.push(TokenType::Keyword);
        names.push("keyword.return");
        kinds.push(TokenType::Keyword);
        names.push("keyword.repeat");
        kinds.push(TokenType::Keyword);
        names.push("keyword.type");
        kinds.push(TokenType::Keyword);
        names.push("string");
        kinds.push(TokenType::Str);
        names.push("function");
        kinds.push(TokenType::Function);
        names.push("function.call");
        kinds.push(TokenType::Function);
        names.push("type");
        kinds.push(TokenType::Type);
        names.push("character");
        kinds.push(TokenType::Str);
        names.push("character.special");
        kinds.push(TokenType::Str);
        names.push("number");
        kinds.push(TokenType::Number);
        names.push("number.float");
        kinds.push(TokenType::Number);
        names.push("comment");
        kinds.push(TokenType::Comment);
        names.push("operator");
        kinds.push(TokenType::Operator);
        let legend = Legend::from_table(names, kinds);
        assert(legend.names() =~= table_names());
        assert(legend.kinds() =~= table_kinds());
        legend
    }

    /// The legend of a table given as two columns of equal length.
    pub fn from_table(names: Vec<&'static str>, kinds: Vec<TokenType>) -> (legend: Legend)
        requires
            names.len() == kinds.len(),
            kinds.len() <= u32::MAX,
        ensures
            legend.wf(),
            legend.names() == Seq::new(names@.len(), |i: int| names@[i]@),
            legend.kinds() == kinds@,
    {
        let mut types: Vec<TokenType> = Vec::new();
        let mut indices: Vec<u32> = Vec::new();
        let mut i: usize = 0;
        while i < kinds.len()
            invariant
                i <= kinds.len(),
                kinds.len() <= u32::MAX,
                types@ == distinct(kinds@.take(i as int)),
                types.len() <= i,
                indices.len() == i,
                forall|k: int|
                    0 <= k < i ==> (#[trigger] indices@[k]) < types.len() && types@[indices@[k] as int]
                        == kinds@[k],
            decreases kinds.len() - i,
        {
            let kind = kinds[i];
            let mut at: usize = 0;
            while at < types.len() && types[at] != kind
                invariant
                    at <= types.len(),
                    forall|j: int| 0 <= j < at ==> types@[j] != kind,
                decreases types.len() - at,
            {
                at = at + 1;
            }
            proof {
                assert(kinds@.take(i + 1).drop_last() =~= kinds@.take(i as int));
            }
            if at == types.len() {
                types.push(kind);
            }
            indices.push(at as u32);
            i = i + 1;
        }
        assert(kinds@.take(i as int) =~= kinds@);
        Legend { names, kinds, types, indices }
    }

    /// The list of token types to announce to the editor, in the order of
    /// their numeric ids.
    pub fn token_types(&self) -> (types: &Vec<TokenType>)
        ensures
            types@ == self.types(),
    {
        &self.types
    }

    /// The capture names to configure highlighting with. A highlight is
    /// reported by the index of its name in this list.
    pub fn highlight_names(&self) -> (names: &Vec<&'static str>)
        ensures
            Seq::new(names@.len(), |i: int| names@[i]@) == self.names(),
    {
        &self.names
    }

    /// The numeric id of the token type of the highlight with the given
    /// index, or `None` for an index outside the table.
    pub fn type_index(&self, highlight: usize) -> (id: Option<u32>)
        requires
            self.wf(),
        ensures
            id == self.spec_type_index(highlight as int),
    {
        if highlight < self.indices.len() {
            Some(self.indices[highlight])
        } else {
            None
        }
    }

    /// The numeric id of the token type of a capture name, or `None` for a
    /// name that the table does not hold.
    pub fn index_of(&self, name: &str) -> (id: Option<u32>)
        requires
            self.wf(),
        ensures
            id == self.spec_index_of(name@),
    {
        let mut row: usize = 0;
        while row < self.names.len()
            invariant
                row <= self.names.len(),
                self.wf(),
                find_name(self.names(), name@, 0) == find_name(self.names(), name@, row as int),
            decreases self.names.len() - row,
        {
            if same_text(self.names[row], name) {
                return self.type_index(row);
            }
            row = row + 1;
        }
        None
    }
}

/// The list of token types holds nothing twice, and holds every token type
/// of the table.
pub proof fn lemma_distinct(s: Seq<TokenType>)
    ensures
        distinct(s).no_duplicates(),
        distinct(s).len() <= s.len(),
        forall|t: TokenType| distinct(s).contains(t) <==> s.contains(t),
    decreases s.len(),
{
    if s.len() > 0 {
        let front = s.drop_last();
        let last = s.last();
        let d = distinct(front);
        lemma_distinct(front);
        assert forall|t: TokenType| distinct(s).contains(t) <==> s.contains(t) by {
            // `s` holds what its front holds, and its last element.
            assert(s.contains(t) <==> (front.contains(t) || t == last)) by {
                if s.contains(t) {
                    let i = choose|i: int| 0 <= i < s.len() && s[i] == t;
                    if i < s.len() - 1 {
                        assert(front[i] == t);
                    }
                }
                if front.contains(t) {
                    let i = choose|i: int| 0 <= i < front.len() && front[i] == t;
                    assert(s[i] == t);
                }
            }
            // So does the list, where the last element is new to it.
            if !d.contains(last) {
                if d.contains(t) {
                    let j = choose|j: int| 0 <= j < d.len() && d[j] == t;
                    assert(d.push(last)[j] == t);
                }
                if t == last {
                    assert(d.push(last)[d.len() as int] == t);
                }
                if distinct(s).contains(t) {
                    let j = choose|j: int| 0 <= j < distinct(s).len() && distinct(s)[j] == t;
                    assert(j < d.len() ==> d[j] == t);
                }
            }
        }
        if !d.contains(last) {
            assert forall|i: int, j: int|
                0 <= i < distinct(s).len() && 0 <= j < distinct(s).len() && i != j implies distinct(
                s,
            )[i] != distinct(s)[j] by {
                assert(i < d.len() ==> d[i] == distinct(s)[i]);
                assert(j < d.len() ==> d[j] == distinct(s)[j]);
            }
        }
    }
}

/// The numeric id of a capture name is that of its token type: the list
/// holds at that place the type that the table gives the name.
pub proof fn lemma_index_of_names_type(legend: Legend, name: Seq<char>)
    requires
        legend.wf(),
    ensures
        match legend.spec_index_of(name) {
            Some(id) => {
                &&& find_name(legend.names(), name, 0) is Some
                &&& id < legend.types().len()
                &&& legend.types()[id as int] == legend.kinds()[find_name(legend.names(), name, 0).unwrap()]
            },
            None => forall|k: int| 0 <= k < legend.names().len() ==> legend.names()[k] != name,
        },
{
    lemma_find_name(legend.names(), name, 0);
}

/// What `find_name` finds is the first row with that name.
pub proof fn lemma_find_name(names: Seq<Seq<char>>, name: Seq<char>, from: int)
    requires
        0 <= from,
    ensures
        match find_name(names, name, from) {
            Some(row) => from <= row < names.len() && names[row] == name && forall|k: int|
                from <= k < row ==> names[k] != name,
            None => forall|k: int| from <= k < names.len() ==> names[k] != name,
        },
    decreases names.len() - from,
{
    if from < names.len() && names[from] != name {
        lemma_find_name(names, name, from + 1);
    }
}

/// Two legends of the same table give every capture name the same numeric
/// id, and every highlight too: the ids depend on the table alone.
pub proof fn lemma_index_of_stable(a: Legend, b: Legend, name: Seq<char>, highlight: int)
    requires
        a.wf(),
        b.wf(),
        a.names() == b.names(),
        a.kinds() == b.kinds(),
    ensures
        a.types() == b.types(),
        a.spec_index_of(name) == b.spec_index_of(name),
        a.spec_type_index(highlight) == b.spec_type_index(highlight),
{
    lemma_distinct(a.kinds());
    // The list holds nothing twice, so a token type has one place in it.
    assert forall|k: int| 0 <= k < a.kinds().len() implies a.indices()[k] == b.indices()[k] by {
        assert(a.types()[a.indices()[k] as int] == a.kinds()[k]);
        assert(b.types()[b.indices()[k] as int] == b.kinds()[k]);
    }
    assert(a.indices() =~= b.indices());
    lemma_find_name(a.names(), name, 0);
}

} // verus!
